use beerlog::error::Error;
use beerlog::response::{delete_drink_reply, ApiResponse, ResponseStatus};

#[test]
fn envelope_builders_set_status_and_payload() {
    let r = ApiResponse::success(7u32);
    assert_eq!(r.status, ResponseStatus::Success);
    assert_eq!(r.data, Some(7));
    assert!(r.messages.is_none());

    let r = ApiResponse::fail("nope");
    assert_eq!(r.status, ResponseStatus::Fail);
    assert_eq!(r.data, Some("nope"));

    let r = ApiResponse::error(0u8);
    assert_eq!(r.status, ResponseStatus::Error);

    let r = ApiResponse::<u8>::from(None);
    assert_eq!(r.status, ResponseStatus::Success);
    assert_eq!(r.data, None);

    let r = ApiResponse::<u8>::from(None)
        .with_status(ResponseStatus::Fail)
        .data(3);
    assert_eq!(r.status, ResponseStatus::Fail);
    assert_eq!(r.data, Some(3));
}

#[test]
fn envelope_messages_accumulate() {
    let r = ApiResponse::<u8>::from(None)
        .add_message("first".to_string())
        .add_message("second".to_string());
    assert_eq!(
        r.messages,
        Some(vec!["first".to_string(), "second".to_string()])
    );
}

#[test]
fn delete_reply_covers_every_count() {
    let not_found = delete_drink_reply(&Ok(0));
    assert_eq!(not_found.http_status, 404);
    assert_eq!(not_found.status, ResponseStatus::Fail);
    assert_eq!(not_found.message, "Could not find that drink");

    let deleted = delete_drink_reply(&Ok(1));
    assert_eq!(deleted.http_status, 200);
    assert_eq!(deleted.status, ResponseStatus::Success);
    assert_eq!(deleted.message, "Deleted");

    let weird = delete_drink_reply(&Ok(2));
    assert_eq!(weird.http_status, 500);
    assert_eq!(weird.status, ResponseStatus::Error);
    assert_eq!(weird.message, "An unexpected error occurred");

    let failed = delete_drink_reply(&Err(Error::BackingStoreError));
    assert_eq!(failed.http_status, 500);
    assert_eq!(failed.status, ResponseStatus::Error);
    assert_eq!(failed.message, "An unexpected error occurred");
}
