use courier::error::{Error, Kind, Origin, Source};
use courier::logging::{
    headers_to_string, ErrorLog, Logger, LoggerFormatter, LoggerService, PrintlnFormatter,
    RequestLog, ResponseLog,
};
use courier::message::{Body, Method, Request, Response, StatusCode, Uri, Version};
use courier::Url;
use std::sync::{Arc, Mutex};

fn request(method: &str, url: &str, body: &str) -> Request {
    Request {
        method: Method::new(method),
        uri: Uri::parse(url).unwrap(),
        version: Version::Http11,
        headers: http::HeaderMap::new(),
        extensions: http::Extensions::new(),
        body: Body::Reusable(body.as_bytes().to_vec()),
    }
}

fn response(code: u16) -> Response {
    Response {
        status: StatusCode::from_u16(code).unwrap(),
        version: Version::Http11,
        headers: http::HeaderMap::new(),
    }
}

#[derive(Clone, Debug)]
struct CaptureLogger {
    records: Arc<Mutex<Vec<String>>>,
}

impl CaptureLogger {
    fn new() -> Self {
        Self {
            records: Arc::new(Mutex::new(Vec::new())),
        }
    }

    fn records(&self) -> String {
        self.records.lock().unwrap().join("\n")
    }
}

impl LoggerFormatter for CaptureLogger {
    fn log_request(&self, request: RequestLog<'_>) -> Option<String> {
        let mut records = self.records.lock().unwrap();
        records.push(format!(
            "request {} {} {}",
            request.method().as_str(),
            request.uri().as_str(),
            request.version().as_str()
        ));
        for (name, value) in request.headers() {
            records.push(format!("> {name}: {}", value.to_str().unwrap()));
        }
        None
    }

    fn log_response(&self, response: ResponseLog<'_>) -> Option<String> {
        let mut records = self.records.lock().unwrap();
        records.push(format!(
            "response {} {} {}",
            response.url(),
            response.version().as_str(),
            response.status().to_string()
        ));
        for (name, value) in response.headers() {
            records.push(format!("< {name}: {}", value.to_str().unwrap()));
        }
        None
    }

    fn log_error(&self, error: ErrorLog<'_>) -> Option<String> {
        self.records.lock().unwrap().push(format!(
            "error {} {}",
            error.url(),
            error.error().to_string()
        ));
        None
    }
}

#[test]
fn request_logger_accepts_custom_formatter_and_skips_bodies() {
    let formatter = CaptureLogger::new();
    let service = LoggerService::new(Some(Logger::custom(formatter.clone())));

    let mut req = request("POST", "http://127.0.0.1:8080", "request body");
    req.headers
        .insert(http::header::CONTENT_TYPE, "text/plain".parse().unwrap());
    let (pending, printed) = service.call(&req);
    assert_eq!(printed, None);

    let mut res = response(200);
    res.headers
        .insert(http::header::CONTENT_TYPE, "text/plain".parse().unwrap());
    assert_eq!(pending.finish(&Ok(res)), None);

    let records = formatter.records();
    assert!(records.contains("request POST http://"));
    assert!(records.contains("> content-type: text/plain"));
    assert!(records.contains("response http://"));
    assert!(records.contains("HTTP/1.1 200 OK"));
    assert!(records.contains("< content-type: text/plain"));
    assert!(!records.contains("request body"));
    assert!(!records.contains("response body"));
}

#[test]
fn requests_and_responses_are_printed() {
    let service = LoggerService::new(Some(Logger::new()));
    let mut req = request("POST", "http://example.com/demo?show=request-logger", "body");
    let (_, printed) = service.call(&req);
    assert_eq!(
        printed.unwrap(),
        ">>> Request:\n> POST http://example.com/demo?show=request-logger HTTP/1.1"
    );

    req.version = Version::Http2;
    req.headers.insert("x-a", "1".parse().unwrap());
    req.headers.insert("x-b", "two".parse().unwrap());
    let (pending, printed) = service.call(&req);
    assert_eq!(
        printed.unwrap(),
        ">>> Request:\n> POST http://example.com/demo?show=request-logger HTTP/2.0\n> x-a: 1\n> x-b: two"
    );

    let mut res = response(404);
    assert_eq!(
        pending.finish(&Ok(res)).unwrap(),
        "<<< Response to http://example.com/demo?show=request-logger:\n< HTTP/1.1 404 Not Found"
    );
    res = response(200);
    res.headers.insert("server", "tiny".parse().unwrap());
    assert_eq!(
        pending.finish(&Ok(res)).unwrap(),
        "<<< Response to http://example.com/demo?show=request-logger:\n< HTTP/1.1 200 OK\n< server: tiny"
    );
}

#[test]
fn failures_are_printed() {
    let service = LoggerService::new(Some(Logger::<PrintlnFormatter>::default()));
    let (pending, _) = service.call(&request("GET", "http://example.com/", ""));
    let err = Error {
        kind: Kind::Request,
        url: Some(Url::parse("http://example.com/").unwrap()),
        sources: vec![Source {
            message: "refused".to_string(),
            origin: Origin::Other,
        }],
    };
    assert_eq!(
        pending.finish(&Err(err)).unwrap(),
        "<<< Response to http://example.com/:\nerror sending request for url (http://example.com/)"
    );
}

#[test]
fn without_a_logger_nothing_is_printed() {
    let service = LoggerService::<PrintlnFormatter>::new(None);
    let (pending, printed) = service.call(&request("GET", "http://example.com/", ""));
    assert_eq!(printed, None);
    assert_eq!(pending.finish(&Ok(response(200))), None);
}

#[test]
fn custom_formatters_see_failures() {
    let formatter = CaptureLogger::new();
    let service = LoggerService::new(Some(Logger::custom(formatter.clone())));
    let (pending, _) = service.call(&request("GET", "http://example.com/", ""));
    assert_eq!(pending.finish(&Err(Error::middleware("no"))), None);
    assert!(formatter
        .records()
        .ends_with("error http://example.com/ middleware error"));
}

#[test]
fn bodies_make_no_difference() {
    let service = LoggerService::new(Some(Logger::new()));
    let (_, one) = service.call(&request("PUT", "http://example.com/", "one"));
    let (_, two) = service.call(&request("PUT", "http://example.com/", "two"));
    assert_eq!(one, two);
}

#[test]
fn header_fields_are_lines() {
    let mut headers = http::HeaderMap::new();
    assert_eq!(headers_to_string(&headers, '>'), "");
    headers.insert("x-text", "a\tb c".parse().unwrap());
    assert_eq!(headers_to_string(&headers, '>'), "> x-text: a\tb c");
    headers.append(
        "x-text",
        http::HeaderValue::from_bytes(&[0xff, 7 + 2, 65, 100]).unwrap(),
    );
    assert_eq!(
        headers_to_string(&headers, '<'),
        "< x-text: a\tb c\n< x-text: [255, 9, 65, 100]"
    );
}
