use courier::error::{builder, Error, Kind};
use courier::message::{Body, Method, StatusCode, Uri, Version};
use courier::Duration;

#[test]
fn uris_are_taken_apart() {
    let uri = Uri::parse("http://user@Example.com:8080/path?query").unwrap();
    assert_eq!(uri.as_str(), "http://user@Example.com:8080/path?query");
    assert_eq!(uri.host(), Some("Example.com"));
    assert_eq!(uri.authority(), Some("user@Example.com:8080"));
    let uri = Uri::parse("http://example.com").unwrap();
    assert_eq!(uri.as_str(), "http://example.com/");
    let uri = Uri::parse("/path").unwrap();
    assert_eq!(uri.host(), None);
    assert_eq!(uri.authority(), None);
    assert!(Uri::parse("http://a b/").is_none());
}

#[test]
fn statuses_have_three_digits() {
    assert!(StatusCode::from_u16(99).is_none());
    assert!(StatusCode::from_u16(1000).is_none());
    assert_eq!(StatusCode::from_u16(100).unwrap().as_u16(), 100);
    let status = StatusCode::from_u16(503).unwrap();
    assert_eq!(status.to_string(), "503 Service Unavailable");
    assert_eq!(
        StatusCode::from_u16(999).unwrap().to_string(),
        "999 <unknown status code>"
    );
}

#[test]
fn versions_have_names() {
    let names = [
        (Version::Http09, "HTTP/0.9"),
        (Version::Http10, "HTTP/1.0"),
        (Version::Http11, "HTTP/1.1"),
        (Version::Http2, "HTTP/2.0"),
        (Version::Http3, "HTTP/3.0"),
    ];
    for (version, name) in names {
        assert_eq!(version.as_str(), name);
    }
}

#[test]
fn methods_are_idempotent_by_name() {
    assert!(Method::new("PUT").is_idempotent());
    assert!(!Method::new("POST").is_idempotent());
    assert!(!Method::new("").is_idempotent());
}

#[test]
fn bodies_of_bytes_can_be_copied() {
    assert!(matches!(Body::empty().try_clone(), Some(Body::Reusable(bytes)) if bytes.is_empty()));
    assert!(Body::Streaming(3).try_clone().is_none());
}

#[test]
fn errors_describe_themselves() {
    let err = Error::middleware("rejected");
    assert!(err.is_middleware());
    assert_eq!(err.to_string(), "middleware error");
    assert_eq!(err.source().unwrap().to_string(), "rejected");
    let err = builder("bad".to_string());
    assert!(!err.is_middleware());
    assert_eq!(err.to_string(), "builder error");
    let err = Error {
        kind: Kind::Request,
        url: None,
        sources: Vec::new(),
    };
    assert_eq!(err.to_string(), "error sending request");
    assert!(err.source().is_none());
}

#[test]
fn spans_count_nanoseconds() {
    assert_eq!(Duration::from_secs(2).as_nanos(), 2_000_000_000);
    assert_eq!(Duration::from_millis(3).as_nanos(), 3_000_000);
    assert!(Duration::zero().is_zero());
    assert_eq!(
        Duration::from_secs(1).longer(Duration::from_millis(1_001)),
        Duration::from_millis(1_001)
    );
    assert_eq!(
        Duration::from_millis(7).saturating_mul(3),
        Duration::from_millis(21)
    );
}
