//! Requests and responses.

use crate::headers;
use crate::time::Deadline;
use vstd::prelude::*;

verus! {

/// What `Uri::from_str` of the `http` crate makes of a text: the URI in words,
/// its host and its authority; or nothing, if the text is not a URI.
pub uninterp spec fn parsed_uri(input: Seq<char>) -> Option<
    (Seq<char>, Option<Seq<char>>, Option<Seq<char>>),
>;

/// What `Authority::host` of the `http` crate gives for an authority: the host in
/// it.
pub uninterp spec fn authority_host(authority: Seq<char>) -> Seq<char>;

/// The view of an optional text.
pub open spec fn text_view(text: Option<String>) -> Option<Seq<char>> {
    match text {
        Some(text) => Some(text@),
        None => None,
    }
}

/// `Uri::from_str`, with the URI taken apart by `Uri::to_string`, `Uri::host`
/// and `Uri::authority`. An authority is not empty. There is a host just where
/// there is an authority, and it is the one in the authority.
#[verifier::external_body]
fn parse_uri(input: &str) -> (r: Option<(String, Option<String>, Option<String>)>)
    ensures
        r is Some <==> parsed_uri(input@) is Some,
        r is Some ==> ((r->0).0@, text_view((r->0).1), text_view((r->0).2)) == parsed_uri(input@)->0,
        r is Some ==> ((r->0).1 is Some <==> (r->0).2 is Some),
        r is Some && (r->0).2 is Some ==> (r->0).2->0@.len() > 0 && (r->0).1->0@ == authority_host(
            (r->0).2->0@,
        ),
{
    let uri: http::Uri = input.parse().ok()?;
    let host = uri.host().map(|host| host.to_string());
    let authority = uri.authority().map(|authority| authority.as_str().to_string());
    Some((uri.to_string(), host, authority))
}

fn clone_text(text: &Option<String>) -> (r: Option<String>)
    ensures
        r == *text,
{
    match text {
        Some(text) => Some(text.clone()),
        None => None,
    }
}

/// Where a request is sent.
#[derive(Debug)]
pub struct Uri {
    text: String,
    host: Option<String>,
    authority: Option<String>,
}

impl Clone for Uri {
    fn clone(&self) -> (r: Uri)
        ensures
            r == *self,
    {
        proof {
            use_type_invariant(self);
        }
        Uri {
            text: self.text.clone(),
            host: clone_text(&self.host),
            authority: clone_text(&self.authority),
        }
    }
}

impl Uri {
    #[verifier::type_invariant]
    spec fn consistent(self) -> bool {
        self.is_valid()
    }

    /// Whether the host, if there is one, is the one in the authority. That is so
    /// of every URI.
    pub open spec fn is_valid(self) -> bool {
        match (self.parts().1, self.parts().2) {
            (Some(host), Some(authority)) => {
                &&& authority.len() > 0
                &&& host == authority_host(authority)
            },
            (None, None) => true,
            _ => false,
        }
    }

    /// The URI in words, its host and its authority.
    pub closed spec fn parts(self) -> (Seq<char>, Option<Seq<char>>, Option<Seq<char>>) {
        (self.text@, text_view(self.host), text_view(self.authority))
    }

    /// The host, or nothing if the URI names none.
    pub open spec fn host_or_empty(self) -> Seq<char> {
        match self.parts().1 {
            Some(host) => host,
            None => Seq::empty(),
        }
    }

    /// The authority, or nothing if the URI names none.
    pub open spec fn authority_or_empty(self) -> Seq<char> {
        match self.parts().2 {
            Some(authority) => authority,
            None => Seq::empty(),
        }
    }

    /// Parse a URI.
    pub fn parse(input: &str) -> (r: Option<Uri>)
        ensures
            r is Some <==> parsed_uri(input@) is Some,
            r is Some ==> r->0.parts() == parsed_uri(input@)->0,
            r is Some ==> r->0.is_valid(),
    {
        match parse_uri(input) {
            Some(parts) => Some(Uri { text: parts.0, host: parts.1, authority: parts.2 }),
            None => None,
        }
    }

    /// The URI in words.
    pub fn as_str(&self) -> (r: &str)
        ensures
            r@ == self.parts().0,
    {
        self.text.as_str()
    }

    /// The host.
    pub fn host(&self) -> (r: Option<&str>)
        ensures
            r is Some <==> self.parts().1 is Some,
            r is Some ==> r->0@ == self.parts().1->0,
            self.is_valid(),
    {
        proof {
            use_type_invariant(self);
        }
        match &self.host {
            Some(host) => Some(host.as_str()),
            None => None,
        }
    }

    /// The authority: the host, with the user and the port if they are given.
    pub fn authority(&self) -> (r: Option<&str>)
        ensures
            r is Some <==> self.parts().2 is Some,
            r is Some ==> r->0@ == self.parts().2->0,
    {
        match &self.authority {
            Some(authority) => Some(authority.as_str()),
            None => None,
        }
    }
}

/// A status code, from 100 to 999.
#[derive(Clone, Copy, Debug, PartialEq, Eq, Structural)]
pub struct StatusCode {
    code: u16,
}

impl View for StatusCode {
    type V = nat;

    closed spec fn view(&self) -> nat {
        self.code as nat
    }
}

impl StatusCode {
    #[verifier::type_invariant]
    spec fn in_range(self) -> bool {
        100 <= self.code <= 999
    }

    /// The status with that code.
    pub fn from_u16(code: u16) -> (r: Option<StatusCode>)
        ensures
            r is Some <==> 100 <= code <= 999,
            r is Some ==> r->0@ == code,
    {
        if code >= 100 && code <= 999 {
            Some(StatusCode { code })
        } else {
            None
        }
    }

    /// The code.
    pub fn as_u16(&self) -> (r: u16)
        ensures
            r == self@,
            100 <= r <= 999,
    {
        proof {
            use_type_invariant(self);
        }
        self.code
    }
}

/// What `StatusCode::to_string` of the `http` crate gives for a code: the code
/// and the reason phrase.
pub uninterp spec fn displayed_status(code: nat) -> Seq<char>;

/// `StatusCode::to_string`, for the status that `StatusCode::from_u16` makes of
/// the code.
#[verifier::external_body]
fn display_status(code: u16) -> (r: String)
    requires
        100 <= code <= 999,
    ensures
        r@ == displayed_status(code as nat),
{
    http::StatusCode::from_u16(code).unwrap().to_string()
}

impl StatusCode {
    /// The code and the reason phrase.
    pub fn to_string(&self) -> (r: String)
        ensures
            r@ == displayed_status(self@),
    {
        display_status(self.as_u16())
    }
}

/// The version of HTTP.
#[derive(Clone, Copy, Debug, PartialEq, Eq, Structural)]
pub enum Version {
    /// HTTP/0.9
    Http09,
    /// HTTP/1.0
    Http10,
    /// HTTP/1.1
    Http11,
    /// HTTP/2
    Http2,
    /// HTTP/3
    Http3,
}

impl Version {
    /// The version in words.
    pub open spec fn text(self) -> Seq<char> {
        match self {
            Version::Http09 => "HTTP/0.9"@,
            Version::Http10 => "HTTP/1.0"@,
            Version::Http11 => "HTTP/1.1"@,
            Version::Http2 => "HTTP/2.0"@,
            Version::Http3 => "HTTP/3.0"@,
        }
    }

    /// The version in words.
    pub fn as_str(&self) -> (r: &'static str)
        ensures
            r@ == self.text(),
    {
        match self {
            Version::Http09 => "HTTP/0.9",
            Version::Http10 => "HTTP/1.0",
            Version::Http11 => "HTTP/1.1",
            Version::Http2 => "HTTP/2.0",
            Version::Http3 => "HTTP/3.0",
        }
    }
}

/// Whether a request with the method `name` has the same effect when it is made
/// more than once.
pub open spec fn is_idempotent(name: Seq<char>) -> bool {
    ||| name == "GET"@
    ||| name == "HEAD"@
    ||| name == "OPTIONS"@
    ||| name == "TRACE"@
    ||| name == "QUERY"@
    ||| name == "PUT"@
    ||| name == "DELETE"@
}

/// `Method::is_idempotent` of the `http` crate, for the method that
/// `Method::from_bytes` makes of the name: true of the safe methods, of PUT and
/// of DELETE, and false of every other.
#[verifier::external_body]
fn method_is_idempotent(name: &str) -> (r: bool)
    ensures
        r == is_idempotent(name@),
{
    http::Method::from_bytes(name.as_bytes()).map(|method| method.is_idempotent()).unwrap_or(false)
}

/// A request method, by its name.
#[derive(Debug)]
pub struct Method {
    name: String,
}

impl View for Method {
    type V = Seq<char>;

    closed spec fn view(&self) -> Seq<char> {
        self.name@
    }
}

impl Clone for Method {
    fn clone(&self) -> (r: Method)
        ensures
            r == *self,
    {
        Method { name: self.name.clone() }
    }
}

impl Method {
    /// The method of that name.
    pub fn new(name: &str) -> (r: Method)
        ensures
            r@ == name@,
    {
        Method { name: name.to_string() }
    }

    /// The name.
    pub fn as_str(&self) -> (r: &str)
        ensures
            r@ == self@,
    {
        self.name.as_str()
    }

    /// Whether a request has the same effect when it is made more than once.
    pub fn is_idempotent(&self) -> (r: bool)
        ensures
            r == is_idempotent(self@),
    {
        method_is_idempotent(self.name.as_str())
    }
}

/// The extension map of the `http` crate.
#[verifier::external_type_specification]
#[verifier::external_body]
pub struct ExExtensions(http::Extensions);

/// The deadline that an extension map holds.
pub uninterp spec fn held_deadline(extensions: http::Extensions) -> Option<Deadline>;

/// What an extension map holds: by type, the value of that type. Types and values
/// are given by numbers that stand for them, and a value and its clones by the
/// same one.
pub uninterp spec fn held_extensions(extensions: http::Extensions) -> Map<nat, nat>;

/// `Extensions::get`, for the type of deadlines.
#[verifier::external_body]
fn get_deadline(extensions: &http::Extensions) -> (r: Option<Deadline>)
    ensures
        r == held_deadline(*extensions),
{
    extensions.get::<Deadline>().copied()
}

/// `Extensions::clone`: a map that holds a clone of everything in this one and
/// nothing else, and so the same deadline.
#[verifier::external_body]
fn duplicate_extensions(extensions: &http::Extensions) -> (r: http::Extensions)
    ensures
        held_extensions(r) == held_extensions(*extensions),
        held_deadline(r) == held_deadline(*extensions),
{
    extensions.clone()
}

/// The body of a request.
#[derive(Debug)]
pub enum Body {
    /// Bytes, which can be sent any number of times.
    Reusable(Vec<u8>),
    /// A stream, which can be sent once. The number tells streams apart.
    Streaming(u64),
}

impl Body {
    /// The empty body.
    pub fn empty() -> (r: Body)
        ensures
            r matches Body::Reusable(bytes) && bytes@ == Seq::<u8>::empty(),
    {
        Body::Reusable(Vec::new())
    }

    /// Whether `other` sends the same bytes.
    pub open spec fn is_same(self, other: Body) -> bool {
        match (self, other) {
            (Body::Reusable(a), Body::Reusable(b)) => a@ == b@,
            (Body::Streaming(a), Body::Streaming(b)) => a == b,
            _ => false,
        }
    }

    /// A body that sends the same bytes, unless this one is a stream.
    pub fn try_clone(&self) -> (r: Option<Body>)
        ensures
            r is Some <==> self is Reusable,
            r is Some ==> r->0.is_same(*self),
    {
        match self {
            Body::Reusable(bytes) => Some(Body::Reusable(bytes.clone())),
            Body::Streaming(_) => None,
        }
    }
}

/// A request.
#[derive(Debug)]
pub struct Request {
    /// The method.
    pub method: Method,
    /// Where it is sent.
    pub uri: Uri,
    /// The version of HTTP.
    pub version: Version,
    /// The header fields.
    pub headers: http::HeaderMap,
    /// What else is attached to it, the deadline among them.
    pub extensions: http::Extensions,
    /// The body.
    pub body: Body,
}

impl Request {
    /// The header fields.
    pub open spec fn fields(self) -> Seq<(Seq<char>, Seq<u8>)> {
        headers::header_fields(self.headers)
    }

    /// By when the response is wanted.
    pub open spec fn deadline(self) -> Option<Deadline> {
        held_deadline(self.extensions)
    }

    /// Whether `other` is the same request.
    pub open spec fn is_same(self, other: Request) -> bool {
        &&& self.method == other.method
        &&& self.uri == other.uri
        &&& self.version == other.version
        &&& self.fields() == other.fields()
        &&& held_extensions(self.extensions) == held_extensions(other.extensions)
        &&& self.deadline() == other.deadline()
        &&& self.body.is_same(other.body)
    }

    /// By when the response is wanted.
    pub fn get_deadline(&self) -> (r: Option<Deadline>)
        ensures
            r == self.deadline(),
    {
        get_deadline(&self.extensions)
    }

    /// The same request once more, unless its body is a stream.
    pub fn try_clone(&self) -> (r: Option<Request>)
        ensures
            r is Some <==> self.body is Reusable,
            r is Some ==> r->0.is_same(*self),
    {
        match self.body.try_clone() {
            Some(body) => Some(
                Request {
                    method: self.method.clone(),
                    uri: self.uri.clone(),
                    version: self.version,
                    headers: headers::duplicate(&self.headers),
                    extensions: duplicate_extensions(&self.extensions),
                    body,
                },
            ),
            None => None,
        }
    }
}

/// A response, up to its header fields.
#[derive(Debug)]
pub struct Response {
    /// The status.
    pub status: StatusCode,
    /// The version of HTTP.
    pub version: Version,
    /// The header fields.
    pub headers: http::HeaderMap,
}

impl Response {
    /// The header fields.
    pub open spec fn fields(self) -> Seq<(Seq<char>, Seq<u8>)> {
        headers::header_fields(self.headers)
    }
}

/// A copy of a request is the same in every part: method, URI, version, header fields,
/// extensions, deadline and body.
pub proof fn copies_are_the_same(copy: Request, req: Request)
    requires
        copy.is_same(req),
    ensures
        copy.method == req.method,
        copy.uri == req.uri,
        copy.version == req.version,
        headers::header_fields(copy.headers) == headers::header_fields(req.headers),
        held_extensions(copy.extensions) == held_extensions(req.extensions),
        held_deadline(copy.extensions) == held_deadline(req.extensions),
        copy.body is Reusable <==> req.body is Reusable,
        req.body is Reusable ==> copy.body->Reusable_0@ == req.body->Reusable_0@,
{
}

/// GET, HEAD, OPTIONS, TRACE, QUERY, PUT and DELETE are idempotent, and no other
/// method is.
pub proof fn idempotent_methods(name: Seq<char>)
    ensures
        is_idempotent(name) <==> name == "GET"@ || name == "HEAD"@ || name == "OPTIONS"@ || name
            == "TRACE"@ || name == "QUERY"@ || name == "PUT"@ || name == "DELETE"@,
{
}

/// The versions of HTTP have these names.
pub proof fn versions_are_named(version: Version)
    ensures
        version.text() == match version {
            Version::Http09 => "HTTP/0.9"@,
            Version::Http10 => "HTTP/1.0"@,
            Version::Http11 => "HTTP/1.1"@,
            Version::Http2 => "HTTP/2.0"@,
            Version::Http3 => "HTTP/3.0"@,
        },
{
}

/// The host and the authority are those of the URI, or nothing where it names none.
pub proof fn hosts_and_authorities_are_kept(uri: Uri)
    ensures
        uri.parts().1 is Some ==> uri.host_or_empty() == uri.parts().1->0,
        uri.parts().1 is None ==> uri.host_or_empty() == Seq::<char>::empty(),
        uri.parts().2 is Some ==> uri.authority_or_empty() == uri.parts().2->0,
        uri.parts().2 is None ==> uri.authority_or_empty() == Seq::<char>::empty(),
{
}

} // verus!
