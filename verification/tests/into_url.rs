use courier::error::Kind;
use courier::into_url::{into_url_with_base, try_uri, IntoUrlSealed, ParseError};
use courier::Url;

#[test]
fn into_url_file_scheme() {
    let err = "file:///etc/hosts".into_url().unwrap_err();
    assert_eq!(
        err.source().unwrap().to_string(),
        "URL scheme is not allowed"
    );
}

#[test]
fn into_url_blob_scheme() {
    let err = "blob:https://example.com".into_url().unwrap_err();
    assert_eq!(
        err.source().unwrap().to_string(),
        "URL scheme is not allowed"
    );
}

#[test]
fn into_url_with_base_joins_relative_url() {
    let base_url = Url::parse("https://example.com/api/").unwrap();
    let url = into_url_with_base("users", Some(&base_url)).unwrap();

    assert_eq!(url.as_str(), "https://example.com/api/users");
}

#[test]
fn into_url_with_base_prefers_absolute_url() {
    let base_url = Url::parse("https://example.com/api/").unwrap();
    let url = into_url_with_base("https://other.example/users", Some(&base_url)).unwrap();

    assert_eq!(url.as_str(), "https://other.example/users");
}

#[test]
fn into_url_without_base_rejects_relative_url() {
    let err = into_url_with_base("users", None).unwrap_err();

    assert_eq!(
        err.source().unwrap().to_string(),
        "relative URL without a base"
    );
}

#[test]
fn every_source_type_converts_alike() {
    let text = "HTTP://Example.com/a b".to_string();
    let wanted = "http://example.com/a%20b";
    let parsed = Url::parse(&text).unwrap();

    assert!(parsed.has_host());
    assert_eq!((&text).into_url().unwrap().as_str(), wanted);
    assert_eq!(text.as_str().into_url().unwrap().as_str(), wanted);
    assert_eq!(parsed.clone().into_url().unwrap().as_str(), wanted);
    assert_eq!(IntoUrlSealed::as_str(&text.as_str()), "HTTP://Example.com/a b");
    assert_eq!(IntoUrlSealed::as_str(&&text), "HTTP://Example.com/a b");
    assert_eq!(IntoUrlSealed::as_str(&text), "HTTP://Example.com/a b");
    assert_eq!(IntoUrlSealed::as_str(&parsed), wanted);
    assert_eq!(text.into_url().unwrap().as_str(), wanted);
}

#[test]
fn parse_errors_are_kept_in_words() {
    assert!(matches!(
        Url::parse("users"),
        Err(ParseError::RelativeUrlWithoutBase)
    ));
    let err = Url::parse("http://[::1").unwrap_err();
    assert!(matches!(err, ParseError::Other(_)));
    assert_eq!(err.to_string(), "invalid IPv6 address");

    let base = Url::parse("https://example.com/").unwrap();
    let err = into_url_with_base("http://[::1", Some(&base)).unwrap_err();
    assert!(matches!(err.kind, Kind::Builder));
    assert!(err.url.is_none());
    assert_eq!(err.source().unwrap().to_string(), "invalid IPv6 address");
    let err = "http://[::1".into_url().unwrap_err();
    assert_eq!(err.source().unwrap().to_string(), "invalid IPv6 address");
}

#[test]
fn a_base_that_cannot_be_one_is_an_error() {
    let base = Url::parse("mailto:someone@example.com").unwrap();
    assert!(!base.has_host());
    let err = into_url_with_base("users", Some(&base)).unwrap_err();
    assert_eq!(
        err.source().unwrap().to_string(),
        "relative URL with a cannot-be-a-base base"
    );
}

#[test]
fn joined_urls_need_a_host_too() {
    let base = Url::parse("file:///etc/").unwrap();
    let err = into_url_with_base("hosts", Some(&base)).unwrap_err();
    assert_eq!(err.url.as_ref().unwrap().as_str(), "file:///etc/hosts");
    assert_eq!(
        err.to_string(),
        "builder error for url (file:///etc/hosts)"
    );
    assert_eq!(
        err.source().unwrap().to_string(),
        "URL scheme is not allowed"
    );
}

#[test]
fn accepted_urls_are_accepted_again() {
    let first = "https://example.com".into_url().unwrap();
    assert_eq!(first.as_str(), "https://example.com/");
    let second = first.clone().into_url().unwrap();
    assert_eq!(second.as_str(), first.as_str());
}

#[test]
fn urls_become_uris() {
    let url = Url::parse("https://user@Example.com:8443/a?b=c#d").unwrap();
    let uri = try_uri(&url).unwrap();
    assert_eq!(uri.as_str(), "https://user@example.com:8443/a?b=c");
    assert_eq!(uri.host(), Some("example.com"));
    assert_eq!(uri.authority(), Some("user@example.com:8443"));
}

#[test]
fn urls_that_are_no_uris_are_errors() {
    let url = Url::parse("data:text/plain,hello world").unwrap();
    let err = try_uri(&url).unwrap_err();
    assert_eq!(
        err.source().unwrap().to_string(),
        "Parsed Url is not a valid Uri"
    );
    assert_eq!(err.url.as_ref().unwrap().as_str(), url.as_str());
}
