use beerlog::error::Error;
use beerlog::search::{prepare_search_query, tsquery_string};

#[test]
fn test_tsquery_string() {
    assert_eq!("test:* <-> beer:*", tsquery_string("test beer"));
    assert_eq!("test-beer:*", tsquery_string("test-beer"));
    assert_eq!("test:* <-> beer:*", tsquery_string(r#"test "'/#-- beer"#));
    assert_eq!("another-test-beer:*", tsquery_string(r#"another-test-beer"#));

    assert_eq!("test-:* <-> beer:*", tsquery_string("test--beer"));
    assert_eq!("test-:*", tsquery_string("test--"));
    assert_eq!("test-:*", tsquery_string("test-?-"));
}

#[test]
fn tsquery_of_empty_and_symbol_only_text_is_empty() {
    assert_eq!("", tsquery_string(""));
    assert_eq!("", tsquery_string("?!/#"));
    assert_eq!("", tsquery_string("   "));
    assert_eq!("", tsquery_string("---"));
}

#[test]
fn tsquery_keeps_underscores_and_digits() {
    assert_eq!("pale_ale:* <-> 2:*", tsquery_string("pale_ale 2"));
}

#[test]
fn blank_search_query_is_rejected() {
    assert_eq!(prepare_search_query(""), Err(Error::ValidationError));
    assert_eq!(prepare_search_query("   \t "), Err(Error::ValidationError));
}

#[test]
fn search_query_is_sanitized() {
    assert_eq!(
        prepare_search_query("test beer").unwrap(),
        "test:* <-> beer:*".to_string()
    );
    assert_eq!(
        prepare_search_query("Sierra; DROP TABLE beer").unwrap(),
        "Sierra:* <-> DROP:* <-> TABLE:* <-> beer:*".to_string()
    );
}
