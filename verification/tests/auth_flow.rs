use beerlog::auth::{
    authenticate, begin_auth, begin_auth_provider_reply, code_check_reply,
    complete_auth_finish, complete_auth_request, identity_identifier, BeginAuth,
};
use beerlog::error::{Error, ProviderFailure};
use beerlog::response::ResponseStatus;
use beerlog::store::{GetLoggedInPerson, LookupIdentiy, StartSession, Store};

#[test]
fn valid_phone_shapes_ask_the_provider() {
    for phone in [
        "1234567890",
        "123-456-7890",
        "123 456 7890",
        "123456",
        "123.456.78901",
        "123-456-",
    ] {
        match begin_auth(1, phone) {
            BeginAuth::SendCode {
                country_code,
                phone_number,
            } => {
                assert_eq!(country_code, 1);
                assert_eq!(phone_number, phone);
            }
            BeginAuth::Reject(_) => panic!("{phone} should have been accepted"),
        }
    }
}

#[test]
fn invalid_phone_shapes_are_rejected_without_the_provider() {
    for phone in [
        "",
        "12345",
        "abc",
        "123-45-6789",
        "(123) 456-7890",
        "123-456-789012",
        "123-456x7890",
        "phone 123-456-7890",
    ] {
        match begin_auth(1, phone) {
            BeginAuth::SendCode { .. } => panic!("{phone} should have been rejected"),
            BeginAuth::Reject(rej) => {
                assert_eq!(rej.http_status, 400);
                assert_eq!(rej.status, ResponseStatus::Fail);
                assert_eq!(rej.message, "Invalid phone number");
            }
        }
    }
}

#[test]
fn begin_auth_provider_outcome_shapes_the_reply() {
    let ok = begin_auth_provider_reply(Ok("Text message sent".to_string()));
    assert_eq!(ok.http_status, 200);
    assert_eq!(ok.status, ResponseStatus::Success);
    assert_eq!(ok.message, "Text message sent");

    let err = begin_auth_provider_reply(Err(Error::ExternalProviderError(
        ProviderFailure::Transport,
    )));
    assert_eq!(err.http_status, 400);
    assert_eq!(err.status, ResponseStatus::Error);
    assert_eq!(err.message, "That phone number didn't work :(");
}

#[test]
fn complete_auth_needs_a_code_and_a_phone_shape() {
    let missing = complete_auth_request(1, "123-456-7890", None).unwrap_err();
    assert_eq!(missing.http_status, 400);
    assert_eq!(missing.status, ResponseStatus::Fail);
    assert_eq!(missing.message, "Missing verification code!");

    let code = "000111".to_string();
    let bad_phone = complete_auth_request(1, "not-a-phone", Some(&code)).unwrap_err();
    assert_eq!(bad_phone.http_status, 400);
    assert_eq!(bad_phone.status, ResponseStatus::Fail);
    assert_eq!(bad_phone.message, "Invalid phone number!");

    let check = complete_auth_request(1, "123-456-7890", Some(&code)).unwrap();
    assert_eq!(check.country_code, 1);
    assert_eq!(check.phone_number, "123-456-7890");
    assert_eq!(check.code, "000111");
}

#[test]
fn code_check_outcomes_map_to_the_documented_replies() {
    assert!(code_check_reply(&Ok(true)).is_ok());

    let denied = code_check_reply(&Ok(false)).unwrap_err();
    assert_eq!(
        (denied.http_status, denied.status, denied.message.as_str()),
        (403, ResponseStatus::Fail, "Invalid verification code")
    );

    let transport = code_check_reply(&Err(Error::ExternalProviderError(
        ProviderFailure::Transport,
    )))
    .unwrap_err();
    assert_eq!(
        (
            transport.http_status,
            transport.status,
            transport.message.as_str()
        ),
        (500, ResponseStatus::Error, "Internal server error")
    );

    let bad_key = code_check_reply(&Err(Error::ExternalProviderError(
        ProviderFailure::UnauthorizedKey,
    )))
    .unwrap_err();
    assert_eq!(
        (bad_key.http_status, bad_key.status, bad_key.message.as_str()),
        (403, ResponseStatus::Fail, "Invalid verification code")
    );

    let other = code_check_reply(&Err(Error::ExternalProviderError(ProviderFailure::Other)))
        .unwrap_err();
    assert_eq!(
        (other.http_status, other.status, other.message.as_str()),
        (403, ResponseStatus::Fail, "Unable to verify the code")
    );

    let canceled = code_check_reply(&Err(Error::BlockingTaskCanceled)).unwrap_err();
    assert_eq!(
        (
            canceled.http_status,
            canceled.status,
            canceled.message.as_str()
        ),
        (500, ResponseStatus::Error, "Internal server error")
    );
}

#[test]
fn identifier_concatenates_country_code_and_phone() {
    assert_eq!(identity_identifier(1, "5551234567"), "15551234567");
    assert_eq!(identity_identifier(44, "7700900000"), "447700900000");
    assert_eq!(identity_identifier(998, ""), "998");
}

#[test]
fn completed_login_creates_identity_once_and_a_session() {
    let mut store = Store::new();

    let first = complete_auth_finish(&mut store, 1, "5551234567").unwrap();
    assert_eq!(store.person_count(), 1);
    assert_eq!(store.identity_count(), 1);
    assert_eq!(store.session_count(), 1);
    assert_eq!(first.id.len(), 64);

    // A second verified login for the same phone number reuses the
    // person and identity and only adds a session.
    let second = complete_auth_finish(&mut store, 1, "5551234567").unwrap();
    assert_eq!(store.person_count(), 1);
    assert_eq!(store.identity_count(), 1);
    assert_eq!(store.session_count(), 2);
    assert_eq!(second.person_id, first.person_id);
    assert_ne!(second.id, first.id);
}

#[test]
fn unknown_session_token_is_rejected_and_creates_no_person() {
    let mut store = Store::new();
    let lookup = LookupIdentiy {
        identifier: "15551234567".to_string(),
    };
    lookup.execute(&mut store).unwrap();
    let persons_before = store.person_count();

    let msg = GetLoggedInPerson::from_session("no-such-token".to_string());
    assert_eq!(msg.execute(&store).unwrap_err(), Error::SessionNotFound);
    assert_eq!(store.person_count(), persons_before);

    assert_eq!(
        authenticate(&store, Some("no-such-token")).unwrap_err(),
        Error::SessionNotFound
    );
    assert_eq!(authenticate(&store, None).unwrap_err(), Error::SessionNotFound);
    assert_eq!(store.person_count(), persons_before);
}

#[test]
fn expired_sessions_are_rejected_at_lookup() {
    let mut store = Store::new();
    let lookup = LookupIdentiy {
        identifier: "15551234567".to_string(),
    };
    let identity = lookup.execute(&mut store).unwrap();

    let start = StartSession {
        person_id: identity.person_id,
    };
    let session = start
        .execute_at(&mut store, "fixed-token".to_string(), 1_000)
        .unwrap();
    assert_eq!(session.expires_at, 1_000 + 14 * 24 * 60 * 60 * 1000);

    let guard = GetLoggedInPerson::from_session("fixed-token".to_string());
    // Still live one millisecond before expiry.
    let person = guard.execute_at(&store, session.expires_at - 1).unwrap();
    assert_eq!(person.id, identity.person_id);
    // Rejected from the expiry instant on.
    assert_eq!(
        guard.execute_at(&store, session.expires_at).unwrap_err(),
        Error::SessionNotFound
    );
}

#[test]
fn session_for_unknown_person_is_refused() {
    let mut store = Store::new();
    let start = StartSession { person_id: 42 };
    assert_eq!(
        start
            .execute_at(&mut store, "token".to_string(), 0)
            .unwrap_err(),
        Error::BackingStoreError
    );
    assert_eq!(store.session_count(), 0);
}

#[test]
fn fresh_session_authenticates_its_holder() {
    let mut store = Store::new();
    let session = complete_auth_finish(&mut store, 1, "5551234567").unwrap();
    let person = authenticate(&store, Some(session.id.as_str())).unwrap();
    assert_eq!(person.id, session.person_id);
}
