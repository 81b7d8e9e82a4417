//! The parts of URIs and authorities that the host and origin policies read.
//! Parsing is done by the `http` crate (as re-exported by `axum`); its
//! results are handed over as plain byte strings.
use vstd::prelude::*;

verus! {

/// The host and port of an authority, as `Authority::host` and
/// `Authority::port_u16` give them.
#[derive(Clone, Debug)]
pub struct AuthorityParts {
    pub host: Vec<u8>,
    pub port: Option<u16>,
}

/// The model of [`AuthorityParts`].
pub struct AuthorityView {
    pub host: Seq<u8>,
    pub port: Option<u16>,
}

impl View for AuthorityParts {
    type V = AuthorityView;

    open spec fn view(&self) -> AuthorityView {
        AuthorityView { host: self.host@, port: self.port }
    }
}

/// The parts of a parsed URI: `Uri::scheme_str`, `Uri::authority`,
/// `Uri::path` and `Uri::query`.
#[derive(Clone, Debug)]
pub struct UriParts {
    pub scheme: Option<Vec<u8>>,
    pub authority: Option<AuthorityParts>,
    pub path: Vec<u8>,
    pub query: Option<Vec<u8>>,
}

/// The model of [`UriParts`].
pub struct UriView {
    pub scheme: Option<Seq<u8>>,
    pub authority: Option<AuthorityView>,
    pub path: Seq<u8>,
    pub query: Option<Seq<u8>>,
}

impl View for UriParts {
    type V = UriView;

    open spec fn view(&self) -> UriView {
        UriView {
            scheme: match self.scheme {
                Some(s) => Some(s@),
                None => None,
            },
            authority: match self.authority {
                Some(a) => Some(a@),
                None => None,
            },
            path: self.path@,
            query: match self.query {
                Some(q) => Some(q@),
                None => None,
            },
        }
    }
}

/// What `Uri::try_from(&[u8])` of the `http` crate yields for `text`, taken
/// apart (none where it refuses the text).
pub uninterp spec fn http_parse_uri(text: Seq<u8>) -> Option<UriView>;

/// What `Authority::try_from(&[u8])` of the `http` crate yields for `text`,
/// taken apart (none where it refuses the text).
pub uninterp spec fn http_parse_authority(text: Seq<u8>) -> Option<AuthorityView>;

/// Calls `http::Uri::try_from(&[u8])` and reads the scheme, authority, path
/// and query of the result.
///
/// Claims only that the result is a function of the bytes, named
/// `http_parse_uri`; the URI grammar itself is not restated.
#[verifier::external_body]
pub(crate) fn parse_uri(text: &[u8]) -> (r: Option<UriParts>)
    ensures
        r matches Some(u) ==> http_parse_uri(text@) == Some(u@),
        r is None ==> http_parse_uri(text@) is None,
{
    let uri = axum::http::Uri::try_from(text).ok()?;
    Some(UriParts {
        scheme: uri.scheme_str().map(|s| s.as_bytes().to_vec()),
        authority: uri.authority().map(
            |a| AuthorityParts { host: a.host().as_bytes().to_vec(), port: a.port_u16() },
        ),
        path: uri.path().as_bytes().to_vec(),
        query: uri.query().map(|q| q.as_bytes().to_vec()),
    })
}

/// Calls `http::uri::Authority::try_from(&[u8])` and reads the host and
/// port of the result.
///
/// Claims only that the result is a function of the bytes, named
/// `http_parse_authority`; the authority grammar is not restated.
#[verifier::external_body]
pub(crate) fn parse_authority(text: &[u8]) -> (r: Option<AuthorityParts>)
    ensures
        r matches Some(a) ==> http_parse_authority(text@) == Some(a@),
        r is None ==> http_parse_authority(text@) is None,
{
    let a = axum::http::uri::Authority::try_from(text).ok()?;
    Some(AuthorityParts { host: a.host().as_bytes().to_vec(), port: a.port_u16() })
}

} // verus!
