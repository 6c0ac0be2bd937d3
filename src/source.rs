//! The verified parts of talking to an API: where requests go, how a
//! request becomes a URI, the error kinds, and the last step of decoding a
//! response.

use vstd::prelude::*;
use hyper::http::uri::{Authority, InvalidUri, InvalidUriParts, Parts, PathAndQuery, Scheme};
use hyper::Uri;
use hyper::http::Error as HttpError;
use hyper::Error as HyperError;
use serde_json::Error as JsonError;
use std::io::Error as IoError;
use crate::path::{all_path_chars, format_name, path_and_query_accepts, path_and_query_text, path_text, Format, PathBuilder, PathModel};
use crate::options::QueryKey;
use crate::request::{GetRequest, ListRequest};

verus! {

#[verifier::external_type_specification]
#[verifier::external_body]
pub struct ExAuthority(Authority);

#[verifier::external_type_specification]
#[verifier::external_body]
pub struct ExScheme(Scheme);

#[verifier::external_type_specification]
#[verifier::external_body]
pub struct ExUri(Uri);

#[verifier::external_type_specification]
#[verifier::external_body]
pub struct ExInvalidUriParts(InvalidUriParts);

#[verifier::external_type_specification]
#[verifier::external_body]
pub struct ExHttpError(HttpError);

#[verifier::external_type_specification]
#[verifier::external_body]
pub struct ExHyperError(HyperError);

#[verifier::external_type_specification]
#[verifier::external_body]
pub struct ExJsonError(JsonError);

#[verifier::external_type_specification]
#[verifier::external_body]
pub struct ExIoError(IoError);

/// The text of an authority, as `Authority::as_str` of `http` 0.2 returns it.
pub uninterp spec fn authority_text(a: Authority) -> Seq<char>;

/// The text of a scheme, as `Scheme::as_str` of `http` 0.2 returns it.
pub uninterp spec fn scheme_text(s: Scheme) -> Seq<char>;

/// The scheme of a URI, as `Uri::scheme_str` of `http` 0.2 returns it.
pub uninterp spec fn uri_scheme_text(u: Uri) -> Option<Seq<char>>;

/// The authority of a URI, as `Uri::authority` of `http` 0.2 returns it.
pub uninterp spec fn uri_authority_text(u: Uri) -> Option<Seq<char>>;

/// The path-and-query of a URI, as `Uri::path_and_query` of `http` 0.2
/// returns it.
pub uninterp spec fn uri_path_and_query_text(u: Uri) -> Option<Seq<char>>;

/// Relies on `Authority`'s derived `Clone` of `http` 0.2, which copies the text.
pub assume_specification[ <Authority as Clone>::clone ](a: &Authority) -> (r: Authority)
    ensures
        authority_text(r) == authority_text(*a),
;

/// Relies on `Scheme`'s derived `Clone` of `http` 0.2, which copies the scheme.
pub assume_specification[ <Scheme as Clone>::clone ](s: &Scheme) -> (r: Scheme)
    ensures
        scheme_text(r) == scheme_text(*s),
;

/// Every error this crate reports.
#[derive(Debug)]
pub enum Error {
    /// A composed authority or path was not a valid URI.
    Uri(InvalidUri),
    /// The request could not be assembled.
    Http(HttpError),
    /// The transport failed.
    Hyper(HyperError),
    /// The response text was not the expected JSON; the text is kept.
    Serde(JsonError, String),
    /// Reading the response body failed.
    Io(IoError),
}

/// A page of resources returned by a list request.
#[derive(Debug)]
pub struct Page<T> {
    pub value: Vec<T>,
    pub count: Option<String>,
    pub next_link: Option<String>,
    pub metadata: Option<String>,
}

/// Whether `http` accepts a text as a URI authority.
pub uninterp spec fn authority_accepts(s: Seq<char>) -> bool;

/// Relies on `<Authority as TryFrom<&str>>::try_from` of `http` 0.2: whether
/// it succeeds depends on the text alone, an empty text is refused, and an
/// authority it returns holds the whole text (`create_authority` fails
/// unless the parse reached the end, then copies the bytes).
#[verifier::external_body]
fn parse_authority(s: &str) -> (r: Result<Authority, InvalidUri>)
    ensures
        r is Ok <==> authority_accepts(s@),
        s@.len() == 0 ==> r is Err,
        r is Ok ==> authority_text(r->Ok_0) == s@,
{
    Authority::try_from(s)
}

/// Relies on `Uri::from_parts` of `http` 0.2, which refuses parts only when a
/// scheme comes without an authority or a path-and-query, or an authority
/// and a path-and-query come without a scheme; here all three are given,
/// and the URI keeps each of them as it was given.
#[verifier::external_body]
fn uri_from_parts(scheme: Scheme, authority: Authority, path: PathAndQuery) -> (r: Result<
    Uri,
    InvalidUriParts,
>)
    ensures
        r is Ok,
        uri_scheme_text(r->Ok_0) == Some(scheme_text(scheme)),
        uri_authority_text(r->Ok_0) == Some(authority_text(authority)),
        uri_path_and_query_text(r->Ok_0) == Some(path_and_query_text(path)),
{
    let mut parts = Parts::default();
    parts.scheme = Some(scheme);
    parts.authority = Some(authority);
    parts.path_and_query = Some(path);
    Uri::from_parts(parts)
}

/// Relies on `Scheme::HTTPS` of `http` 0.2, the scheme of secure HTTP, whose
/// text is `https`.
#[verifier::external_body]
fn https_scheme() -> (r: Scheme)
    ensures
        scheme_text(r) == "https"@,
{
    Scheme::HTTPS
}

/// `m` with its format forced to JSON.
pub open spec fn as_json(m: PathModel) -> PathModel {
    m.with_option(QueryKey::Format, format_name(Format::Json))
}

/// `m` placed under the base path `base`.
pub open spec fn under_base(m: PathModel, base: Seq<char>) -> PathModel {
    PathModel { base_path: base, ..m }
}

/// Where requests go: an authority reached over HTTPS, and a base path.
#[derive(Debug)]
pub struct Endpoint {
    scheme: Scheme,
    authority: Authority,
    base_path: String,
}

impl Clone for Endpoint {
    fn clone(&self) -> (r: Endpoint)
        ensures
            r.base() == self.base(),
            r.authority() == self.authority(),
    {
        proof {
            use_type_invariant(self);
        }
        Endpoint {
            scheme: self.scheme.clone(),
            authority: self.authority.clone(),
            base_path: self.base_path.clone(),
        }
    }
}

impl Endpoint {
    #[verifier::type_invariant]
    spec fn reached_over_https(&self) -> bool {
        scheme_text(self.scheme) == "https"@
    }

    /// The base path that every request path starts with.
    pub closed spec fn base(&self) -> Seq<char> {
        self.base_path@
    }

    /// The authority that requests go to.
    pub closed spec fn authority(&self) -> Seq<char> {
        authority_text(self.authority)
    }

    /// The path-and-query text of the request `m` under this endpoint's
    /// base path.
    pub open spec fn request_text(&self, m: PathModel) -> Seq<char> {
        path_text(under_base(m, self.base()))
    }

    /// `u` is the HTTPS URI of this endpoint's authority with the
    /// path-and-query `t`.
    pub open spec fn addresses(&self, u: Uri, t: Seq<char>) -> bool {
        &&& uri_scheme_text(u) == Some("https"@)
        &&& uri_authority_text(u) == Some(self.authority())
        &&& uri_path_and_query_text(u) == Some(t)
    }

    /// An endpoint for `domain`, with `base_path` (empty when absent) in
    /// front of every request path. Fails with a URI error exactly when
    /// `domain` is not a valid authority.
    pub fn new(domain: &str, base_path: Option<String>) -> (r: Result<Endpoint, Error>)
        ensures
            r is Ok <==> authority_accepts(domain@),
            r matches Ok(e) ==> e.base() == (match base_path {
                Some(p) => p@,
                None => Seq::<char>::empty(),
            }) && e.authority() == domain@,
            r matches Err(e) ==> e is Uri,
    {
        match parse_authority(domain) {
            Ok(authority) => {
                let base_path = match base_path {
                    Some(p) => p,
                    None => String::new(),
                };
                Ok(Endpoint { scheme: https_scheme(), authority, base_path })
            },
            Err(e) => Err(Error::Uri(e)),
        }
    }

    /// The full URI of the request that `builder` describes: HTTPS, this
    /// endpoint's authority, and the request's path-and-query under this
    /// endpoint's base path (which replaces the builder's own). Fails with a
    /// URI error only when that path-and-query is not valid.
    pub fn request_uri(&self, builder: PathBuilder) -> (r: Result<Uri, Error>)
        ensures
            path_and_query_accepts(self.request_text(builder@)) ==> r is Ok,
            r is Ok && self.request_text(builder@).len() <= 65535 ==> path_and_query_accepts(
                self.request_text(builder@),
            ),
            r is Ok && !self.request_text(builder@).contains('#') ==> self.addresses(
                r->Ok_0,
                self.request_text(builder@),
            ),
            all_path_chars(self.base()) ==> r is Ok && self.addresses(
                r->Ok_0,
                self.request_text(builder@),
            ),
            r matches Err(e) ==> e is Uri,
    {
        proof {
            use_type_invariant(self);
        }
        let builder = builder.base_path(self.base_path.clone());
        match builder.build() {
            Ok(path) => {
                let uri = uri_from_parts(self.scheme.clone(), self.authority.clone(), path);
                Ok(uri.unwrap())
            },
            Err(e) => Err(Error::Uri(e)),
        }
    }

    /// The URI that fetches the resource of `request`, as JSON.
    pub fn get_uri(&self, request: GetRequest) -> (r: Result<Uri, Error>)
        ensures
            path_and_query_accepts(self.request_text(as_json(request@))) ==> r is Ok,
            r is Ok && self.request_text(as_json(request@)).len() <= 65535 ==> path_and_query_accepts(
                self.request_text(as_json(request@)),
            ),
            r is Ok && !self.request_text(as_json(request@)).contains('#') ==> self.addresses(
                r->Ok_0,
                self.request_text(as_json(request@)),
            ),
            all_path_chars(self.base()) ==> r is Ok && self.addresses(
                r->Ok_0,
                self.request_text(as_json(request@)),
            ),
            r matches Err(e) ==> e is Uri,
    {
        self.request_uri(request.into_builder().format(Format::Json))
    }

    /// The URI that fetches the page of `request`, as JSON.
    pub fn list_uri(&self, request: ListRequest) -> (r: Result<Uri, Error>)
        ensures
            path_and_query_accepts(self.request_text(as_json(request@))) ==> r is Ok,
            r is Ok && self.request_text(as_json(request@)).len() <= 65535 ==> path_and_query_accepts(
                self.request_text(as_json(request@)),
            ),
            r is Ok && !self.request_text(as_json(request@)).contains('#') ==> self.addresses(
                r->Ok_0,
                self.request_text(as_json(request@)),
            ),
            all_path_chars(self.base()) ==> r is Ok && self.addresses(
                r->Ok_0,
                self.request_text(as_json(request@)),
            ),
            r matches Err(e) ==> e is Uri,
    {
        self.request_uri(request.into_builder().format(Format::Json))
    }
}

/// The last step of decoding a response whose text is `content`: a value
/// that parsed is returned as it is, and a parse failure becomes a
/// `Serde` error that keeps `content` unchanged.
pub fn decoded<T>(parsed: Result<T, JsonError>, content: String) -> (r: Result<T, Error>)
    ensures
        parsed matches Ok(v) ==> r == Ok::<T, Error>(v),
        parsed matches Err(e) ==> r == Err::<T, Error>(Error::Serde(e, content)),
{
    match parsed {
        Ok(v) => Ok(v),
        Err(e) => Err(Error::Serde(e, content)),
    }
}

} // verus!
