//! Errors, with what caused them.

use crate::into_url::Url;
use vstd::prelude::*;

verus! {

/// What an HTTP/2 failure says of itself.
#[derive(Clone, Copy, Debug, PartialEq, Eq, Structural)]
pub struct Http2Failure {
    /// Whether it ended the connection with a GOAWAY frame.
    pub go_away: bool,
    /// Whether it ended one stream with a RST_STREAM frame.
    pub reset: bool,
    /// Whether the frame came from the peer.
    pub remote: bool,
    /// The error code, if there was one.
    pub reason: Option<u32>,
}

/// Where an underlying error comes from.
#[derive(Clone, Copy, Debug, PartialEq, Eq, Structural)]
pub enum Origin {
    /// A failure of the HTTP/2 protocol.
    Http2(Http2Failure),
    /// The loss of an HTTP/3 connection.
    Http3Connection,
    /// Anything else.
    Other,
}

/// One of the errors underlying another.
#[derive(Debug)]
pub struct Source {
    /// The error in words.
    pub message: String,
    /// Where it comes from.
    pub origin: Origin,
}

impl Source {
    /// The error in words.
    pub fn to_string(&self) -> (r: String)
        ensures
            r@ == self.message@,
    {
        self.message.clone()
    }
}

/// What was being done when an error came up.
#[derive(Clone, Copy, Debug, PartialEq, Eq, Structural)]
pub enum Kind {
    /// Building a request.
    Builder,
    /// Passing a request through middleware.
    Middleware,
    /// Sending a request.
    Request,
}

/// An error, with the URL that it is about and the errors underlying it, each
/// the source of the one before.
#[derive(Debug)]
pub struct Error {
    /// What was being done.
    pub kind: Kind,
    /// The URL that was asked for.
    pub url: Option<Url>,
    /// The underlying errors.
    pub sources: Vec<Source>,
}

impl Error {
    /// Whether this error has the one cause `message`, and what it is about.
    pub open spec fn is_caused_by(self, kind: Kind, message: Seq<char>) -> bool {
        &&& self.kind == kind
        &&& self.sources@.len() == 1
        &&& self.sources@[0].message@ == message
        &&& self.sources@[0].origin == Origin::Other
    }

    /// The error underlying this one.
    pub fn source(&self) -> (r: Option<&Source>)
        ensures
            r is Some <==> self.sources@.len() > 0,
            r is Some ==> *r->0 == self.sources@[0],
    {
        if self.sources.len() > 0 {
            Some(&self.sources[0])
        } else {
            None
        }
    }

    /// Whether the error came up in middleware.
    pub fn is_middleware(&self) -> (r: bool)
        ensures
            r == (self.kind is Middleware),
    {
        match self.kind {
            Kind::Middleware => true,
            _ => false,
        }
    }

    /// What went wrong, in words, without the underlying errors.
    pub open spec fn text(self) -> Seq<char> {
        describe(
            self.kind,
            match self.url {
                Some(url) => Some(url.text()),
                None => None,
            },
        )
    }

    /// What went wrong, in words, without the underlying errors.
    pub fn to_string(&self) -> (r: String)
        ensures
            r@ == self.text(),
    {
        let mut text: String = match self.kind {
            Kind::Builder => "builder error".to_string(),
            Kind::Middleware => "middleware error".to_string(),
            Kind::Request => "error sending request".to_string(),
        };
        match &self.url {
            Some(url) => {
                text.append(" for url (");
                text.append(url.as_str());
                text.append(")");
            },
            None => {},
        }
        text
    }

    /// An error from middleware, caused by `message`.
    pub fn middleware(message: &str) -> (r: Error)
        ensures
            r.is_caused_by(Kind::Middleware, message@),
            r.url is None,
    {
        caused_by(Kind::Middleware, None, message.to_string())
    }
}

/// The words for an error of that kind, about that URL.
pub open spec fn describe(kind: Kind, url: Option<Seq<char>>) -> Seq<char> {
    let what = match kind {
        Kind::Builder => "builder error"@,
        Kind::Middleware => "middleware error"@,
        Kind::Request => "error sending request"@,
    };
    match url {
        Some(text) => what + " for url ("@ + text + ")"@,
        None => what,
    }
}

fn caused_by(kind: Kind, url: Option<Url>, message: String) -> (r: Error)
    ensures
        r.is_caused_by(kind, message@),
        r.url == url,
{
    let mut sources: Vec<Source> = Vec::new();
    sources.push(Source { message, origin: Origin::Other });
    Error { kind, url, sources }
}

/// An error in building a request, caused by `message`.
pub fn builder(message: String) -> (r: Error)
    ensures
        r.is_caused_by(Kind::Builder, message@),
        r.url is None,
{
    caused_by(Kind::Builder, None, message)
}

/// The error for a URL that no request can be sent to.
pub fn url_bad_scheme(url: Url) -> (r: Error)
    ensures
        r.is_caused_by(Kind::Builder, "URL scheme is not allowed"@),
        r.url == Some(url),
{
    caused_by(Kind::Builder, Some(url), "URL scheme is not allowed".to_string())
}

/// The error for a URL that is not a URI.
pub fn url_invalid_uri(url: Url) -> (r: Error)
    ensures
        r.is_caused_by(Kind::Builder, "Parsed Url is not a valid Uri"@),
        r.url == Some(url),
{
    caused_by(Kind::Builder, Some(url), "Parsed Url is not a valid Uri".to_string())
}

/// An error is put in words by what was being done, and the URL, if there is one, in
/// brackets.
pub proof fn errors_are_described(err: Error)
    ensures
        err.url is None ==> err.text() == match err.kind {
            Kind::Builder => "builder error"@,
            Kind::Middleware => "middleware error"@,
            Kind::Request => "error sending request"@,
        },
        err.url is Some ==> err.text() == match err.kind {
            Kind::Builder => "builder error"@,
            Kind::Middleware => "middleware error"@,
            Kind::Request => "error sending request"@,
        } + " for url ("@ + err.url->0.text() + ")"@,
{
}

/// An error with one cause has just that cause, in those words.
pub proof fn causes_are_kept(err: Error, kind: Kind, message: Seq<char>)
    requires
        err.is_caused_by(kind, message),
    ensures
        err.kind == kind,
        err.sources@.len() == 1,
        err.sources@[0].message@ == message,
        err.sources@[0].origin == Origin::Other,
{
}

} // verus!
