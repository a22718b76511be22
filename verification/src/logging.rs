//! Request and response logging.

use crate::error::Error;
use crate::headers;
use crate::message;
use crate::message::{Method, Request, Response, StatusCode, Uri, Version};
use std::sync::Arc;
use vstd::prelude::*;
use vstd::string::*;

verus! {

/// `String::push`: the character goes to the end.
pub assume_specification[ String::push ](text: &mut String, ch: char)
    ensures
        final(text)@ == old(text)@.push(ch),
;

/// The texts in `parts`, with `separator` between them.
pub open spec fn joined(parts: Seq<Seq<char>>, separator: Seq<char>) -> Seq<char>
    decreases parts.len(),
{
    if parts.len() == 0 {
        Seq::empty()
    } else if parts.len() == 1 {
        parts[0]
    } else {
        joined(parts.drop_last(), separator) + separator + parts.last()
    }
}

/// A number in decimal.
pub open spec fn decimal(n: nat) -> Seq<char>
    decreases n,
{
    let digit = ('0' as u8 + n % 10) as char;
    if n < 10 {
        seq![digit]
    } else {
        decimal(n / 10).push(digit)
    }
}

/// Bytes as a list of numbers in brackets.
pub open spec fn byte_list(bytes: Seq<u8>) -> Seq<char> {
    "["@ + joined(bytes.map_values(|b: u8| decimal(b as nat)), ", "@) + "]"@
}

/// The value of a header field in words: its text, or else its bytes.
pub open spec fn value_text(value: Seq<u8>) -> Seq<char> {
    if headers::is_visible(value) {
        headers::byte_text(value)
    } else {
        byte_list(value)
    }
}

/// The line for a header field.
pub open spec fn field_line(field: (Seq<char>, Seq<u8>), dir: char) -> Seq<char> {
    seq![dir, ' '] + field.0 + ": "@ + value_text(field.1)
}

/// The lines for header fields, one below the other.
pub open spec fn fields_text(fields: Seq<(Seq<char>, Seq<u8>)>, dir: char) -> Seq<char> {
    joined(fields.map_values(|field: (Seq<char>, Seq<u8>)| field_line(field, dir)), "\n"@)
}

/// One part more comes after a separator, unless it is the first.
proof fn lemma_joined_next(parts: Seq<Seq<char>>, separator: Seq<char>, i: int)
    requires
        0 <= i < parts.len(),
    ensures
        joined(parts.take(i + 1), separator) == if i == 0 {
            parts[0]
        } else {
            joined(parts.take(i), separator) + separator + parts[i]
        },
{
    assert(parts.take(i + 1).drop_last() =~= parts.take(i));
}

fn push_decimal(text: &mut String, n: u8)
    ensures
        final(text)@ == old(text)@ + decimal(n as nat),
{
    proof {
        reveal_with_fuel(decimal, 3);
    }
    if n >= 100 {
        text.push(('0' as u8 + n / 100) as char);
    }
    if n >= 10 {
        text.push(('0' as u8 + n / 10 % 10) as char);
    }
    text.push(('0' as u8 + n % 10) as char);
}

fn push_byte_list(text: &mut String, bytes: &Vec<u8>)
    ensures
        final(text)@ == old(text)@ + byte_list(bytes@),
{
    let ghost parts = bytes@.map_values(|b: u8| decimal(b as nat));
    let ghost start = text@ + "["@;
    text.append("[");
    assert(text@ =~= start + joined(parts.take(0), ", "@));
    for i in 0..bytes.len()
        invariant
            parts == bytes@.map_values(|b: u8| decimal(b as nat)),
            text@ == start + joined(parts.take(i as int), ", "@),
    {
        proof {
            lemma_joined_next(parts, ", "@, i as int);
            assert(parts.take(0) =~= Seq::empty());
        }
        if i > 0 {
            text.append(", ");
        }
        push_decimal(text, bytes[i]);
        assert(text@ =~= start + joined(parts.take(i + 1), ", "@));
    }
    assert(parts.take(parts.len() as int) =~= parts);
    text.append("]");
    assert(text@ =~= old(text)@ + byte_list(bytes@));
}

/// The lines for header fields, one below the other.
pub fn headers_to_string(headers: &http::HeaderMap, dir: char) -> (r: String)
    ensures
        r@ == fields_text(headers::header_fields(*headers), dir),
{
    let fields: Vec<(String, Vec<u8>)> = headers::fields(headers);
    let ghost named = headers::header_fields(*headers);
    let ghost lines = named.map_values(|field: (Seq<char>, Seq<u8>)| field_line(field, dir));
    let mut text: String = String::new();
    assert(text@ =~= joined(lines.take(0), "\n"@));
    for i in 0..fields.len()
        invariant
            named == headers::header_fields(*headers),
            lines == named.map_values(|field: (Seq<char>, Seq<u8>)| field_line(field, dir)),
            fields@.len() == named.len(),
            forall|i: int|
                0 <= i < fields@.len() ==> (#[trigger] fields@[i]).0@ == named[i].0
                    && fields@[i].1@ == named[i].1,
            text@ == joined(lines.take(i as int), "\n"@),
    {
        proof {
            lemma_joined_next(lines, "\n"@, i as int);
            assert(lines.take(0) =~= Seq::empty());
            assert(fields@[i as int].0@ == named[i as int].0);
        }
        if i > 0 {
            text.append("\n");
        }
        let ghost start = text@;
        text.push(dir);
        text.push(' ');
        text.append(fields[i].0.as_str());
        text.append(": ");
        match headers::to_str(fields[i].1.as_slice()) {
            Some(value) => text.append(value.as_str()),
            None => push_byte_list(&mut text, &fields[i].1),
        }
        assert(text@ =~= start + lines[i as int]);
        assert(text@ =~= joined(lines.take(i + 1), "\n"@));
    }
    assert(lines.take(lines.len() as int) =~= lines);
    text
}

/// Request metadata passed to [`LoggerFormatter`].
#[derive(Clone, Copy, Debug)]
pub struct RequestLog<'a> {
    method: &'a Method,
    uri: &'a Uri,
    version: Version,
    headers: &'a http::HeaderMap,
}

impl<'a> RequestLog<'a> {
    /// The request method.
    pub closed spec fn logged_method(self) -> Method {
        *self.method
    }

    /// The request URI.
    pub closed spec fn logged_uri(self) -> Uri {
        *self.uri
    }

    /// The HTTP version.
    pub closed spec fn logged_version(self) -> Version {
        self.version
    }

    /// The request headers.
    pub closed spec fn logged_headers(self) -> http::HeaderMap {
        *self.headers
    }

    /// What is logged of a request.
    pub closed spec fn of(req: Request) -> RequestLog<'a> {
        RequestLog {
            method: &req.method,
            uri: &req.uri,
            version: req.version,
            headers: &req.headers,
        }
    }

    /// What is logged of a request.
    pub fn new(req: &'a Request) -> (r: RequestLog<'a>)
        ensures
            r == RequestLog::of(*req),
            r.logged_method() == req.method,
            r.logged_uri() == req.uri,
            r.logged_version() == req.version,
            r.logged_headers() == req.headers,
    {
        RequestLog {
            method: &req.method,
            uri: &req.uri,
            version: req.version,
            headers: &req.headers,
        }
    }

    /// The request method.
    pub fn method(&self) -> (r: &'a Method)
        ensures
            *r == self.logged_method(),
    {
        self.method
    }

    /// The request URI.
    pub fn uri(&self) -> (r: &'a Uri)
        ensures
            *r == self.logged_uri(),
    {
        self.uri
    }

    /// The HTTP version.
    pub fn version(&self) -> (r: Version)
        ensures
            r == self.logged_version(),
    {
        self.version
    }

    /// The request headers.
    pub fn headers(&self) -> (r: &'a http::HeaderMap)
        ensures
            *r == self.logged_headers(),
    {
        self.headers
    }
}

/// Response metadata passed to [`LoggerFormatter`].
#[derive(Clone, Copy, Debug)]
pub struct ResponseLog<'a> {
    url: &'a str,
    version: Version,
    status: StatusCode,
    headers: &'a http::HeaderMap,
}

impl<'a> ResponseLog<'a> {
    /// The request URL this response belongs to.
    pub closed spec fn logged_url(self) -> Seq<char> {
        self.url@
    }

    /// The HTTP version.
    pub closed spec fn logged_version(self) -> Version {
        self.version
    }

    /// The response status.
    pub closed spec fn logged_status(self) -> StatusCode {
        self.status
    }

    /// The response headers.
    pub closed spec fn logged_headers(self) -> http::HeaderMap {
        *self.headers
    }

    /// What is logged of a response to a request for `url`.
    pub open spec fn is_of(self, url: Seq<char>, res: Response) -> bool {
        &&& self.logged_url() == url
        &&& self.logged_version() == res.version
        &&& self.logged_status() == res.status
        &&& self.logged_headers() == res.headers
    }

    /// What is logged of a response to a request for `url`.
    pub fn new(url: &'a str, res: &'a Response) -> (r: ResponseLog<'a>)
        ensures
            r.is_of(url@, *res),
    {
        ResponseLog { url, version: res.version, status: res.status, headers: &res.headers }
    }

    /// The request URL this response belongs to.
    pub fn url(&self) -> (r: &'a str)
        ensures
            r@ == self.logged_url(),
    {
        self.url
    }

    /// The HTTP version.
    pub fn version(&self) -> (r: Version)
        ensures
            r == self.logged_version(),
    {
        self.version
    }

    /// The response status.
    pub fn status(&self) -> (r: StatusCode)
        ensures
            r == self.logged_status(),
    {
        self.status
    }

    /// The response headers.
    pub fn headers(&self) -> (r: &'a http::HeaderMap)
        ensures
            *r == self.logged_headers(),
    {
        self.headers
    }
}

/// Error metadata passed to [`LoggerFormatter`].
#[derive(Clone, Copy, Debug)]
pub struct ErrorLog<'a> {
    url: &'a str,
    error: &'a Error,
}

impl<'a> ErrorLog<'a> {
    /// The request URL this error belongs to.
    pub closed spec fn logged_url(self) -> Seq<char> {
        self.url@
    }

    /// The error.
    pub closed spec fn logged_error(self) -> Error {
        *self.error
    }

    /// What is logged of the failure of a request for `url`.
    pub open spec fn is_of(self, url: Seq<char>, error: Error) -> bool {
        self.logged_url() == url && self.logged_error() == error
    }

    /// What is logged of the failure of a request for `url`.
    pub fn new(url: &'a str, error: &'a Error) -> (r: ErrorLog<'a>)
        ensures
            r.is_of(url@, *error),
    {
        ErrorLog { url, error }
    }

    /// The request URL this error belongs to.
    pub fn url(&self) -> (r: &'a str)
        ensures
            r@ == self.logged_url(),
    {
        self.url
    }

    /// The error.
    pub fn error(&self) -> (r: &'a Error)
        ensures
            *r == self.logged_error(),
    {
        self.error
    }
}

/// Formats request logger events.
///
/// What a formatter returns is printed to stdout, on lines of its own. One that
/// writes its log elsewhere returns `None`.
pub trait LoggerFormatter: Send + Sync + 'static {
    /// Whether `log_request` may answer `text`: anything, unless the
    /// implementation says more.
    open spec fn may_log_request(&self, request: RequestLog<'_>, text: Option<String>) -> bool {
        true
    }

    /// Whether `log_response` may answer `text`: anything, unless the
    /// implementation says more.
    open spec fn may_log_response(&self, response: ResponseLog<'_>, text: Option<String>) -> bool {
        true
    }

    /// Whether `log_error` may answer `text`: anything, unless the
    /// implementation says more.
    open spec fn may_log_error(&self, error: ErrorLog<'_>, text: Option<String>) -> bool {
        true
    }

    /// Log a request before it is sent.
    fn log_request(&self, request: RequestLog<'_>) -> (r: Option<String>)
        ensures
            self.may_log_request(request, r),
    ;

    /// Log a response after response headers are received.
    fn log_response(&self, response: ResponseLog<'_>) -> (r: Option<String>)
        ensures
            self.may_log_response(response, r),
    ;

    /// Log a request error.
    fn log_error(&self, error: ErrorLog<'_>) -> (r: Option<String>)
        ensures
            self.may_log_error(error, r),
    ;
}

/// Header fields on lines below another, if there are any.
pub open spec fn fields_below(fields: Seq<(Seq<char>, Seq<u8>)>, dir: char) -> Seq<char> {
    if fields.len() == 0 {
        Seq::empty()
    } else {
        "\n"@ + fields_text(fields, dir)
    }
}

fn append_headers(text: &mut String, headers: &http::HeaderMap, dir: char)
    ensures
        final(text)@ == old(text)@ + fields_below(headers::header_fields(*headers), dir),
{
    if headers::fields(headers).len() > 0 {
        text.append("\n");
        text.append(headers_to_string(headers, dir).as_str());
    }
    assert(text@ =~= old(text)@ + fields_below(headers::header_fields(*headers), dir));
}

/// What is printed of a request: its method, URI and version, and its header
/// fields below.
pub open spec fn request_text(request: RequestLog<'_>) -> Seq<char> {
    ">>> Request:\n> "@ + request.logged_method()@ + " "@ + request.logged_uri().parts().0 + " "@
        + request.logged_version().text() + fields_below(
        headers::header_fields(request.logged_headers()),
        '>',
    )
}

/// What is printed of a response: the URL that was asked for, the version and
/// the status, and the header fields below.
pub open spec fn response_text(response: ResponseLog<'_>) -> Seq<char> {
    "<<< Response to "@ + response.logged_url() + ":\n< "@ + response.logged_version().text()
        + " "@ + message::displayed_status(response.logged_status()@) + fields_below(
        headers::header_fields(response.logged_headers()),
        '<',
    )
}

/// What is printed of a failure: the URL that was asked for, and the error.
pub open spec fn error_text(error: ErrorLog<'_>) -> Seq<char> {
    "<<< Response to "@ + error.logged_url() + ":\n"@ + error.logged_error().text()
}

/// Formats the lines that a client prints by default.
#[derive(Clone, Copy, Debug)]
pub struct PrintlnFormatter;

impl LoggerFormatter for PrintlnFormatter {
    open spec fn may_log_request(&self, request: RequestLog<'_>, text: Option<String>) -> bool {
        text is Some && text->0@ == request_text(request)
    }

    open spec fn may_log_response(&self, response: ResponseLog<'_>, text: Option<String>) -> bool {
        text is Some && text->0@ == response_text(response)
    }

    open spec fn may_log_error(&self, error: ErrorLog<'_>, text: Option<String>) -> bool {
        text is Some && text->0@ == error_text(error)
    }

    fn log_request(&self, request: RequestLog<'_>) -> (r: Option<String>) {
        let mut text: String = ">>> Request:\n> ".to_string();
        text.append(request.method().as_str());
        text.append(" ");
        text.append(request.uri().as_str());
        text.append(" ");
        text.append(request.version().as_str());
        append_headers(&mut text, request.headers(), '>');
        Some(text)
    }

    fn log_response(&self, response: ResponseLog<'_>) -> (r: Option<String>) {
        let mut text: String = "<<< Response to ".to_string();
        text.append(response.url());
        text.append(":\n< ");
        text.append(response.version().as_str());
        text.append(" ");
        text.append(response.status().to_string().as_str());
        append_headers(&mut text, response.headers(), '<');
        Some(text)
    }

    fn log_error(&self, error: ErrorLog<'_>) -> (r: Option<String>) {
        let mut text: String = "<<< Response to ".to_string();
        text.append(error.url());
        text.append(":\n");
        text.append(error.error().to_string().as_str());
        Some(text)
    }
}

/// Request and response logger configuration.
///
/// The default logger writes request and response lines and headers to stdout.
/// Body logging is intentionally not included.
///
/// Header logs can include credentials or other sensitive values. Only enable
/// this for traffic that is safe to log.
#[derive(Debug)]
pub struct Logger<F = PrintlnFormatter> {
    formatter: Arc<F>,
}

impl<F> Clone for Logger<F> {
    fn clone(&self) -> (r: Self)
        ensures
            r == *self,
    {
        Logger { formatter: self.formatter.clone() }
    }
}

impl Default for Logger {
    fn default() -> (r: Self)
        ensures
            r.formatter() == PrintlnFormatter,
    {
        Logger::new()
    }
}

impl Logger {
    /// Create a new request and response logger.
    pub fn new() -> (r: Self)
        ensures
            r.formatter() == PrintlnFormatter,
    {
        Logger::custom(PrintlnFormatter)
    }
}

impl<F> Logger<F> {
    /// The formatter.
    pub closed spec fn formatter(self) -> F {
        *self.formatter
    }

    /// Create a logger with a custom formatter.
    pub fn custom(formatter: F) -> (r: Self)
        ensures
            r.formatter() == formatter,
    {
        Logger { formatter: Arc::new(formatter) }
    }
}

/// The logging around a service that sends requests.
pub struct LoggerService<F> {
    logger: Option<Logger<F>>,
}

/// The logging around one request that was sent.
pub struct LoggerFuture<F> {
    logger: Option<Logger<F>>,
    url: String,
}

impl<F> LoggerService<F> {
    /// The logger, if there is one.
    pub closed spec fn logger(self) -> Option<Logger<F>> {
        self.logger
    }

    /// Log with that logger, if there is one.
    pub fn new(logger: Option<Logger<F>>) -> (r: Self)
        ensures
            r.logger() == logger,
    {
        LoggerService { logger }
    }
}

impl<F: LoggerFormatter> LoggerService<F> {
    /// Log a request that is about to be sent: what is left to do once it came
    /// back, and what to print now.
    pub fn call(&self, req: &Request) -> (r: (LoggerFuture<F>, Option<String>))
        ensures
            r.0.logger() == self.logger(),
            r.0.url() == req.uri.parts().0,
            match self.logger() {
                Some(logger) => logger.formatter().may_log_request(RequestLog::of(*req), r.1),
                None => r.1 is None,
            },
    {
        let url: String = req.uri.as_str().to_string();
        match &self.logger {
            Some(logger) => {
                let text: Option<String> = logger.formatter.log_request(RequestLog::new(req));
                (LoggerFuture { logger: Some(logger.clone()), url }, text)
            },
            None => (LoggerFuture { logger: None, url }, None),
        }
    }
}

impl<F> LoggerFuture<F> {
    /// The logger, if there is one.
    pub closed spec fn logger(self) -> Option<Logger<F>> {
        self.logger
    }

    /// The URL that was asked for.
    pub closed spec fn url(self) -> Seq<char> {
        self.url@
    }
}

impl<F: LoggerFormatter> LoggerFuture<F> {
    /// Whether `finish` may answer `text`.
    pub open spec fn may_finish(
        self,
        result: Result<Response, Error>,
        text: Option<String>,
    ) -> bool {
        match self.logger() {
            Some(logger) => match result {
                Ok(res) => exists|log: ResponseLog<'_>|
                    log.is_of(self.url(), res) && #[trigger] logger.formatter().may_log_response(
                        log,
                        text,
                    ),
                Err(err) => exists|log: ErrorLog<'_>|
                    log.is_of(self.url(), err) && #[trigger] logger.formatter().may_log_error(
                        log,
                        text,
                    ),
            },
            None => text is None,
        }
    }

    /// Log what came back: what to print.
    pub fn finish(&self, result: &Result<Response, Error>) -> (r: Option<String>)
        ensures
            self.may_finish(*result, r),
    {
        match &self.logger {
            Some(logger) => match result {
                Ok(res) => {
                    let log: ResponseLog<'_> = ResponseLog::new(self.url.as_str(), res);
                    let text: Option<String> = logger.formatter.log_response(log);
                    assert(logger.formatter().may_log_response(log, text));
                    text
                },
                Err(err) => {
                    let log: ErrorLog<'_> = ErrorLog::new(self.url.as_str(), err);
                    let text: Option<String> = logger.formatter.log_error(log);
                    assert(logger.formatter().may_log_error(log, text));
                    text
                },
            },
            None => None,
        }
    }
}

/// Bodies are not logged: requests that differ only in their bodies, and in what
/// else is attached to them, are logged alike.
pub proof fn bodies_are_not_logged(a: Request, b: Request)
    requires
        a.method == b.method,
        a.uri == b.uri,
        a.version == b.version,
        a.headers == b.headers,
    ensures
        RequestLog::of(a) == RequestLog::of(b),
{
}

/// By default, a request is printed with its method, URI, version and header
/// fields.
pub proof fn requests_are_printed_in_full(req: Request, text: Option<String>)
    requires
        PrintlnFormatter.may_log_request(RequestLog::of(req), text),
    ensures
        text is Some,
        text->0@ == ">>> Request:\n> "@ + req.method@ + " "@ + req.uri.parts().0 + " "@
            + req.version.text() + fields_below(req.fields(), '>'),
{
}

/// By default, what came back is printed with the URL that was asked for: a
/// response with its version, status and header fields, a failure with the
/// error.
pub proof fn outcomes_are_printed_in_full(
    pending: LoggerFuture<PrintlnFormatter>,
    result: Result<Response, Error>,
    text: Option<String>,
)
    requires
        pending.logger() is Some,
        pending.may_finish(result, text),
    ensures
        text is Some,
        text->0@ == "<<< Response to "@ + pending.url() + match result {
            Ok(res) => ":\n< "@ + res.version.text() + " "@ + message::displayed_status(res.status@)
                + fields_below(res.fields(), '<'),
            Err(err) => ":\n"@ + err.text(),
        },
{
    match result {
        Ok(res) => {
            let log = choose|log: ResponseLog<'_>|
                log.is_of(pending.url(), res)
                    && #[trigger] pending.logger()->0.formatter().may_log_response(log, text);
            assert(response_text(log) =~= "<<< Response to "@ + pending.url() + (":\n< "@
                + res.version.text() + " "@ + message::displayed_status(res.status@)
                + fields_below(res.fields(), '<')));
        },
        Err(err) => {
            let log = choose|log: ErrorLog<'_>|
                log.is_of(pending.url(), err)
                    && #[trigger] pending.logger()->0.formatter().may_log_error(log, text);
            assert(error_text(log) =~= "<<< Response to "@ + pending.url() + (":\n"@ + err.text()));
        },
    }
}

/// The number that a text of decimal digits writes.
pub open spec fn decimal_value(digits: Seq<char>) -> int
    decreases digits.len(),
{
    if digits.len() == 0 {
        0
    } else {
        decimal_value(digits.drop_last()) * 10 + (digits.last() as int - 48)
    }
}

/// A number in decimal is digits, which read back as the number, and starts with a
/// zero only if it is zero.
pub proof fn decimals_read_back(n: nat)
    ensures
        decimal(n).len() > 0,
        forall|i: int| 0 <= i < decimal(n).len() ==> 48 <= (#[trigger] decimal(n)[i]) as int <= 57,
        decimal_value(decimal(n)) == n,
        n > 0 ==> decimal(n)[0] as int > 48,
    decreases n,
{
    reveal_with_fuel(decimal_value, 2);
    if n < 10 {
        assert(decimal(n).drop_last() =~= Seq::empty());
    } else {
        decimals_read_back(n / 10);
        assert(decimal(n).drop_last() =~= decimal(n / 10));
        assert forall|i: int| 0 <= i < decimal(n).len() implies 48 <= (#[trigger] decimal(
            n,
        )[i]) as int <= 57 by {
            if i < decimal(n / 10).len() {
                assert(decimal(n)[i] == decimal(n / 10)[i]);
            }
        }
        assert(decimal(n)[0] == decimal(n / 10)[0]);
    }
}

/// Texts are joined one after the other, with the separator between any two.
pub proof fn parts_are_joined(parts: Seq<Seq<char>>, part: Seq<char>, separator: Seq<char>)
    ensures
        joined(Seq::empty(), separator) == Seq::<char>::empty(),
        joined(seq![part], separator) == part,
        parts.len() > 0 ==> joined(parts.push(part), separator) == joined(parts, separator)
            + separator + part,
{
    assert(parts.push(part).drop_last() =~= parts);
}

/// A value of visible ASCII characters, spaces and tabs, however long, is logged as it
/// is: after the direction, a space, the name, a colon and a space, the characters
/// are the bytes of the value, one for one.
pub proof fn visible_values_are_logged_as_they_are(name: Seq<char>, value: Seq<u8>, dir: char)
    requires
        forall|i: int| 0 <= i < value.len() ==> (32 <= #[trigger] value[i] <= 126 || value[i] == 9),
    ensures
        ({
            let line = field_line((name, value), dir);
            &&& line.len() == name.len() + 4 + value.len()
            &&& line[0] == dir
            &&& line[1] == ' '
            &&& line.subrange(2, name.len() as int + 2) == name
            &&& line[name.len() as int + 2] == ':'
            &&& line[name.len() as int + 3] == ' '
            &&& forall|i: int|
                0 <= i < value.len() ==> line[name.len() + 4 + i] == (#[trigger] value[i]) as char
        }),
{
    reveal_strlit(": ");
    assert(headers::is_visible(value));
    let line = field_line((name, value), dir);
    assert(line.subrange(2, name.len() as int + 2) =~= name);
}

/// A value with any other byte in it is logged as the list of its bytes, in decimal,
/// in brackets, with a comma and a space between any two.
pub proof fn other_values_are_logged_as_numbers(
    name: Seq<char>,
    value: Seq<u8>,
    dir: char,
    at: int,
)
    requires
        0 <= at < value.len(),
        value[at] < 32 || value[at] > 126,
        value[at] != 9,
    ensures
        field_line((name, value), dir) == seq![dir, ' '] + name + ": "@ + ("["@ + joined(
            value.map_values(|b: u8| decimal(b as nat)),
            ", "@,
        ) + "]"@),
{
}

/// Header fields are logged one line each, in order, with a line break between any
/// two.
pub proof fn fields_are_logged_line_by_line(
    fields: Seq<(Seq<char>, Seq<u8>)>,
    field: (Seq<char>, Seq<u8>),
    dir: char,
)
    ensures
        fields_text(Seq::empty(), dir) == Seq::<char>::empty(),
        fields_text(seq![field], dir) == field_line(field, dir),
        fields.len() > 0 ==> fields_text(fields.push(field), dir) == fields_text(fields, dir)
            + "\n"@ + field_line(field, dir),
{
    let line = |field: (Seq<char>, Seq<u8>)| field_line(field, dir);
    let lines = fields.map_values(line);
    assert(Seq::<(Seq<char>, Seq<u8>)>::empty().map_values(line) =~= Seq::empty());
    assert(seq![field].map_values(line) =~= seq![field_line(field, dir)]);
    assert(fields.push(field).map_values(line) =~= lines.push(field_line(field, dir)));
    parts_are_joined(lines, field_line(field, dir), "\n"@);
}

/// The header fields start on a line of their own, where there are any.
pub proof fn fields_stand_below(fields: Seq<(Seq<char>, Seq<u8>)>, dir: char)
    ensures
        fields.len() == 0 ==> fields_below(fields, dir) == Seq::<char>::empty(),
        fields.len() > 0 ==> fields_below(fields, dir) == "\n"@ + fields_text(fields, dir),
{
}

/// What is logged of a request is its method, URI, version and header fields.
pub proof fn requests_are_logged_as_they_are(req: Request)
    ensures
        RequestLog::of(req).logged_method() == req.method,
        RequestLog::of(req).logged_uri() == req.uri,
        RequestLog::of(req).logged_version() == req.version,
        RequestLog::of(req).logged_headers() == req.headers,
{
}

/// A logger is shown what came back with the URL that was asked for: a response by its
/// version, status and header fields, a failure by its error. Without a logger
/// nothing is printed.
pub proof fn outcomes_are_shown_as_they_are<F: LoggerFormatter>(
    pending: LoggerFuture<F>,
    result: Result<Response, Error>,
    text: Option<String>,
)
    requires
        pending.may_finish(result, text),
    ensures
        pending.logger() is None ==> text is None,
        pending.logger() is Some && result is Ok ==> exists|log: ResponseLog<'_>|
            {
                &&& log.logged_url() == pending.url()
                &&& log.logged_version() == result->Ok_0.version
                &&& log.logged_status() == result->Ok_0.status
                &&& log.logged_headers() == result->Ok_0.headers
                &&& #[trigger] pending.logger()->0.formatter().may_log_response(log, text)
            },
        pending.logger() is Some && result is Err ==> exists|log: ErrorLog<'_>|
            {
                &&& log.logged_url() == pending.url()
                &&& log.logged_error() == result->Err_0
                &&& #[trigger] pending.logger()->0.formatter().may_log_error(log, text)
            },
{
}

} // verus!
