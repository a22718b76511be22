//! Turning text into URLs that a request can be sent to.

use crate::error;
use crate::error::Error;
use crate::message;
use crate::message::Uri;
use vstd::prelude::*;

verus! {

/// What `Url::parse` of the `url` crate makes of a text: the URL's
/// serialization and whether it has a host; or whether the text is a relative
/// URL without a base, and the error in words.
pub uninterp spec fn parsed_url(input: Seq<char>) -> Result<(Seq<char>, bool), (bool, Seq<char>)>;

/// What `Url::join` of the `url` crate makes of a base URL, by its
/// serialization, and a text: as for `parsed_url`.
pub uninterp spec fn joined_url(base: Seq<char>, input: Seq<char>) -> Result<
    (Seq<char>, bool),
    (bool, Seq<char>),
>;

/// What a parse comes to, with its texts taken by their views.
pub open spec fn parse_view(
    parse: Result<(String, bool), (bool, String)>,
) -> Result<(Seq<char>, bool), (bool, Seq<char>)> {
    match parse {
        Ok(url) => Ok((url.0@, url.1)),
        Err(failure) => Err((failure.0, failure.1@)),
    }
}

/// `Url::parse`, with the URL taken apart by `Url::as_str` and `Url::has_host`.
///
/// A relative URL without a base is reported in just these words.
#[verifier::external_body]
fn parse_url(input: &str) -> (r: Result<(String, bool), (bool, String)>)
    ensures
        parse_view(r) == parsed_url(input@),
        r matches Err(failure) && failure.0 ==> r->Err_0.1@ == "relative URL without a base"@,
{
    match url::Url::parse(input) {
        Ok(url) => Ok((url.as_str().to_string(), url.has_host())),
        Err(err) => Err((matches!(err, url::ParseError::RelativeUrlWithoutBase), err.to_string())),
    }
}

/// `Url::join` on the URL that `base` serializes, with the result taken apart as
/// in `parse_url`. A base that does not parse gives its parse error.
#[verifier::external_body]
fn join_url(base: &str, input: &str) -> (r: Result<(String, bool), (bool, String)>)
    ensures
        parse_view(r) == joined_url(base@, input@),
        r matches Err(failure) && failure.0 ==> r->Err_0.1@ == "relative URL without a base"@,
{
    match url::Url::parse(base).and_then(|base| base.join(input)) {
        Ok(url) => Ok((url.as_str().to_string(), url.has_host())),
        Err(err) => Err((matches!(err, url::ParseError::RelativeUrlWithoutBase), err.to_string())),
    }
}

/// An absolute URL, by its serialization.
#[derive(Debug)]
pub struct Url {
    text: String,
    host: bool,
}

impl Clone for Url {
    fn clone(&self) -> (r: Url)
        ensures
            r == *self,
    {
        Url { text: self.text.clone(), host: self.host }
    }
}

/// Why a text is not a URL.
#[derive(Debug)]
pub enum ParseError {
    /// The text is a relative URL, and there is no base to resolve it against.
    RelativeUrlWithoutBase,
    /// Anything else, in words.
    Other(String),
}

impl ParseError {
    /// The error in words.
    pub open spec fn message(self) -> Seq<char> {
        match self {
            ParseError::RelativeUrlWithoutBase => "relative URL without a base"@,
            ParseError::Other(message) => message@,
        }
    }

    /// The error in words.
    pub fn to_string(&self) -> (r: String)
        ensures
            r@ == self.message(),
    {
        match self {
            ParseError::RelativeUrlWithoutBase => "relative URL without a base".to_string(),
            ParseError::Other(message) => message.clone(),
        }
    }
}

impl Url {
    /// The serialization.
    pub closed spec fn text(self) -> Seq<char> {
        self.text@
    }

    /// Whether the URL has a host.
    pub closed spec fn hosted(self) -> bool {
        self.host
    }

    /// Whether `r` is what `parse` comes to.
    pub open spec fn is_parse(
        parse: Result<(Seq<char>, bool), (bool, Seq<char>)>,
        r: Result<Url, ParseError>,
    ) -> bool {
        match parse {
            Ok(url) => r is Ok && r->Ok_0.text() == url.0 && r->Ok_0.hosted() == url.1,
            Err(failure) => {
                &&& r is Err
                &&& r->Err_0.message() == failure.1
                &&& r->Err_0 is RelativeUrlWithoutBase <==> failure.0
            },
        }
    }

    fn from_parse(parse: Result<(String, bool), (bool, String)>) -> (r: Result<Url, ParseError>)
        requires
            parse matches Err(failure) && failure.0 ==> parse->Err_0.1@
                == "relative URL without a base"@,
        ensures
            Url::is_parse(parse_view(parse), r),
    {
        match parse {
            Ok(url) => Ok(Url { text: url.0, host: url.1 }),
            Err(failure) => if failure.0 {
                Err(ParseError::RelativeUrlWithoutBase)
            } else {
                Err(ParseError::Other(failure.1))
            },
        }
    }

    /// Parse an absolute URL.
    pub fn parse(input: &str) -> (r: Result<Url, ParseError>)
        ensures
            Url::is_parse(parsed_url(input@), r),
    {
        Url::from_parse(parse_url(input))
    }

    /// Resolve `input` against this URL.
    pub fn join(&self, input: &str) -> (r: Result<Url, ParseError>)
        ensures
            Url::is_parse(joined_url(self.text(), input@), r),
    {
        Url::from_parse(join_url(self.text.as_str(), input))
    }

    /// Whether the URL has a host.
    pub fn has_host(&self) -> (r: bool)
        ensures
            r == self.hosted(),
    {
        self.host
    }

    /// The serialization.
    pub fn as_str(&self) -> (r: &str)
        ensures
            r@ == self.text(),
    {
        self.text.as_str()
    }
}

/// Whether `r` is what a request gets for the URL that `parse` comes to: that
/// URL if it has a host, and an error about it if not; or an error in the words
/// of the parse error.
pub open spec fn is_request_url(
    parse: Result<(Seq<char>, bool), (bool, Seq<char>)>,
    r: Result<Url, Error>,
) -> bool {
    match parse {
        Ok(url) => if url.1 {
            r is Ok && r->Ok_0.text() == url.0 && r->Ok_0.hosted()
        } else {
            &&& r is Err
            &&& r->Err_0.is_caused_by(error::Kind::Builder, "URL scheme is not allowed"@)
            &&& r->Err_0.url is Some
            &&& r->Err_0.url->0.text() == url.0
            &&& !r->Err_0.url->0.hosted()
        },
        Err(failure) => {
            &&& r is Err
            &&& r->Err_0.is_caused_by(error::Kind::Builder, failure.1)
            &&& r->Err_0.url is None
        },
    }
}

/// What `input` comes to when a client has that base URL: an absolute URL stands
/// for itself, and a relative one is resolved against the base, if there is
/// one.
pub open spec fn resolved_url(input: Seq<char>, base: Option<Seq<char>>) -> Result<
    (Seq<char>, bool),
    (bool, Seq<char>),
> {
    match (parsed_url(input), base) {
        (Err((true, _)), Some(base)) => joined_url(base, input),
        _ => parsed_url(input),
    }
}

/// The conversions behind [`IntoUrl`].
pub trait IntoUrlSealed: Sized {
    /// The text of the URL.
    spec fn text(&self) -> Seq<char>;

    /// What the conversion parses.
    spec fn parse(&self) -> Result<(Seq<char>, bool), (bool, Seq<char>)>;

    /// The URL, if a request can be sent to it: it must have a host.
    fn into_url(self) -> (r: Result<Url, Error>)
        ensures
            is_request_url(self.parse(), r),
    ;

    /// The text of the URL.
    fn as_str(&self) -> (r: &str)
        ensures
            r@ == self.text(),
    ;
}

/// A type that can be converted into a [`Url`].
pub trait IntoUrl: IntoUrlSealed {

}

impl IntoUrl for Url {

}

impl IntoUrl for String {

}

impl<'a> IntoUrl for &'a str {

}

impl<'a> IntoUrl for &'a String {

}

impl IntoUrlSealed for Url {
    open spec fn text(&self) -> Seq<char> {
        Url::text(*self)
    }

    open spec fn parse(&self) -> Result<(Seq<char>, bool), (bool, Seq<char>)> {
        Ok((Url::text(*self), self.hosted()))
    }

    fn into_url(self) -> (r: Result<Url, Error>)
        ensures
            self.hosted() ==> r == Ok::<Url, Error>(self),
            !self.hosted() ==> r is Err && r->Err_0.url == Some(self),
    {
        if self.has_host() {
            Ok(self)
        } else {
            Err(error::url_bad_scheme(self))
        }
    }

    fn as_str(&self) -> (r: &str) {
        self.text.as_str()
    }
}

impl<'a> IntoUrlSealed for &'a str {
    open spec fn text(&self) -> Seq<char> {
        self@
    }

    open spec fn parse(&self) -> Result<(Seq<char>, bool), (bool, Seq<char>)> {
        parsed_url(self@)
    }

    fn into_url(self) -> (r: Result<Url, Error>) {
        match Url::parse(self) {
            Ok(url) => url.into_url(),
            Err(err) => Err(error::builder(err.to_string())),
        }
    }

    fn as_str(&self) -> (r: &str) {
        self
    }
}

impl<'a> IntoUrlSealed for &'a String {
    open spec fn text(&self) -> Seq<char> {
        self@
    }

    open spec fn parse(&self) -> Result<(Seq<char>, bool), (bool, Seq<char>)> {
        parsed_url(self@)
    }

    fn into_url(self) -> (r: Result<Url, Error>) {
        String::as_str(self).into_url()
    }

    fn as_str(&self) -> (r: &str) {
        String::as_str(self)
    }
}

impl IntoUrlSealed for String {
    open spec fn text(&self) -> Seq<char> {
        self@
    }

    open spec fn parse(&self) -> Result<(Seq<char>, bool), (bool, Seq<char>)> {
        parsed_url(self@)
    }

    fn into_url(self) -> (r: Result<Url, Error>) {
        String::as_str(&self).into_url()
    }

    fn as_str(&self) -> (r: &str) {
        String::as_str(self)
    }
}

/// The URL that a request for `url` is sent to, by a client with that base URL.
pub fn into_url_with_base<U: IntoUrl>(url: U, base_url: Option<&Url>) -> (r: Result<Url, Error>)
    ensures
        is_request_url(
            resolved_url(url.text(), match base_url {
                Some(base) => Some(Url::text(*base)),
                None => None,
            }),
            r,
        ),
{
    match Url::parse(url.as_str()) {
        Ok(absolute) => absolute.into_url(),
        Err(ParseError::RelativeUrlWithoutBase) => match base_url {
            Some(base) => match base.join(url.as_str()) {
                Ok(joined) => joined.into_url(),
                Err(err) => Err(error::builder(err.to_string())),
            },
            None => Err(error::builder(ParseError::RelativeUrlWithoutBase.to_string())),
        },
        Err(err) => Err(error::builder(err.to_string())),
    }
}

/// The URI that a request to `url` names.
pub fn try_uri(url: &Url) -> (r: Result<Uri, Error>)
    ensures
        match message::parsed_uri(Url::text(*url)) {
            Some(parts) => r is Ok && r->Ok_0.parts() == parts,
            None => {
                &&& r is Err
                &&& r->Err_0.is_caused_by(error::Kind::Builder, "Parsed Url is not a valid Uri"@)
                &&& r->Err_0.url == Some(*url)
            },
        },
{
    match Uri::parse(url.as_str()) {
        Some(uri) => Ok(uri),
        None => Err(error::url_invalid_uri(url.clone())),
    }
}

/// An absolute URL is requested as it stands, whatever the base URL is.
pub proof fn absolute_urls_ignore_the_base(input: Seq<char>, base: Option<Seq<char>>)
    requires
        parsed_url(input) is Ok,
    ensures
        resolved_url(input, base) == parsed_url(input),
{
}

/// Without a base URL, a text is requested as it parses.
pub proof fn no_base_no_change(input: Seq<char>)
    ensures
        resolved_url(input, None) == parsed_url(input),
{
}

/// What was accepted for a request is accepted again, unchanged.
pub proof fn accepted_urls_stay(
    parse: Result<(Seq<char>, bool), (bool, Seq<char>)>,
    first: Result<Url, Error>,
    second: Result<Url, Error>,
)
    requires
        is_request_url(parse, first),
        first is Ok,
        is_request_url(IntoUrlSealed::parse(&first->Ok_0), second),
    ensures
        second is Ok,
        second->Ok_0.text() == first->Ok_0.text(),
{
}

/// A relative URL is resolved against the base URL as it stands: what is requested is
/// what joining the base with the whole text gives.
pub proof fn relative_urls_are_joined(input: Seq<char>, base: Seq<char>)
    requires
        parsed_url(input) is Err,
        parsed_url(input)->Err_0.0,
    ensures
        resolved_url(input, Some(base)) == joined_url(base, input),
{
}

/// A text that is no URL at all stays one, whatever the base URL is.
pub proof fn no_base_mends_a_text(input: Seq<char>, base: Option<Seq<char>>)
    requires
        parsed_url(input) is Err,
        !parsed_url(input)->Err_0.0,
    ensures
        resolved_url(input, base) == parsed_url(input),
{
}

/// A conversion gives the URL that was parsed if it has a host. If it has none, the
/// error names that URL and says that its scheme is not allowed. If nothing was
/// parsed, the error has the words of the parse error, and names no URL.
pub proof fn request_urls_have_hosts(
    parse: Result<(Seq<char>, bool), (bool, Seq<char>)>,
    r: Result<Url, Error>,
)
    requires
        is_request_url(parse, r),
    ensures
        r is Ok <==> parse is Ok && parse->Ok_0.1,
        r is Ok ==> r->Ok_0.text() == parse->Ok_0.0 && r->Ok_0.hosted(),
        r is Err ==> {
            &&& r->Err_0.kind == error::Kind::Builder
            &&& r->Err_0.sources@.len() == 1
            &&& r->Err_0.sources@[0].origin == error::Origin::Other
        },
        r is Err && parse is Ok ==> {
            &&& r->Err_0.sources@[0].message@ == "URL scheme is not allowed"@
            &&& r->Err_0.url is Some
            &&& r->Err_0.url->0.text() == parse->Ok_0.0
        },
        parse is Err ==> {
            &&& r is Err
            &&& r->Err_0.sources@[0].message@ == parse->Err_0.1
            &&& r->Err_0.url is None
        },
{
}

/// What a client with a base URL requests for a text, over what parsing the text and
/// joining it to the base give.
pub proof fn requests_are_resolved(input: Seq<char>, base: Option<Seq<char>>, r: Result<Url, Error>)
    requires
        is_request_url(resolved_url(input, base), r),
    ensures
        parsed_url(input) is Ok ==> {
            &&& r is Ok <==> parsed_url(input)->Ok_0.1
            &&& r is Ok ==> r->Ok_0.text() == parsed_url(input)->Ok_0.0
        },
        parsed_url(input) is Err && parsed_url(input)->Err_0.0 && base is Some ==> {
            &&& r is Ok <==> joined_url(base->0, input) is Ok && joined_url(base->0, input)->Ok_0.1
            &&& r is Ok ==> r->Ok_0.text() == joined_url(base->0, input)->Ok_0.0
            &&& joined_url(base->0, input) is Err ==> r->Err_0.sources@[0].message@ == joined_url(
                base->0,
                input,
            )->Err_0.1
        },
        parsed_url(input) is Err && (!parsed_url(input)->Err_0.0 || base is None) ==> {
            &&& r is Err
            &&& r->Err_0.sources@[0].message@ == parsed_url(input)->Err_0.1
        },
{
}

/// A parsed URL keeps its serialization and whether it has a host, and a parse error
/// its words and whether the text was relative.
pub proof fn parses_are_kept(
    parse: Result<(Seq<char>, bool), (bool, Seq<char>)>,
    r: Result<Url, ParseError>,
)
    requires
        Url::is_parse(parse, r),
    ensures
        parse is Ok ==> r is Ok && (r->Ok_0.text(), r->Ok_0.hosted()) == parse->Ok_0,
        parse is Err ==> {
            &&& r is Err
            &&& r->Err_0 is RelativeUrlWithoutBase <==> parse->Err_0.0
            &&& r->Err_0.message() == parse->Err_0.1
        },
{
}

} // verus!
