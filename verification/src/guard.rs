//! What stands in front of every route: first the Host and Origin policy, then
//! Basic Auth.
use vstd::prelude::*;

use crate::auth::BasicAuth;
use crate::security::{default_policy, HeadersView, RequestHeaders, SecurityPolicy};

verus! {

/// What happens to a request.
#[derive(Clone, Copy, Debug, PartialEq, Eq)]
pub enum GuardDecision {
    /// It goes on to its route.
    Allow,
    /// Its `Host` or `Origin` is refused.
    Forbidden,
    /// It lacks the Basic Auth credentials.
    Unauthorized,
}

/// The decision for a request: `Forbidden` unless its `Host` and `Origin`
/// pass, then `Unauthorized` unless it passes Basic Auth, else `Allow`.
pub open spec fn spec_guard(security: SecurityPolicy, auth: BasicAuth, h: HeadersView) -> GuardDecision {
    if !security.spec_allows(h) {
        GuardDecision::Forbidden
    } else if !auth.spec_allows(h) {
        GuardDecision::Unauthorized
    } else {
        GuardDecision::Allow
    }
}

/// Decides a request (see [`spec_guard`]).
pub fn guard_request(
    security: &SecurityPolicy,
    auth: &BasicAuth,
    headers: &RequestHeaders,
) -> (d: GuardDecision)
    ensures
        d == spec_guard(*security, *auth, headers@),
{
    if !security.allows_headers(headers) {
        return GuardDecision::Forbidden;
    }
    if !auth.allows_headers(headers) {
        return GuardDecision::Unauthorized;
    }
    GuardDecision::Allow
}

/// The answer to a refused request.
#[derive(Debug)]
pub struct Rejection {
    pub status: u16,
    /// The `WWW-Authenticate` header, when there is one.
    pub www_authenticate: Option<String>,
    pub body: String,
}

/// The Basic Auth challenge: `401`, `WWW-Authenticate` naming the realm
/// and charset, and a short body.
pub open spec fn is_basic_auth_challenge(r: Rejection) -> bool {
    &&& r.status == 401
    &&& r.www_authenticate matches Some(v) && v@ == "Basic realm=\"Browser Terminal\", charset=\"UTF-8\""@
    &&& r.body@ == "authentication required"@
}

/// `401` with a Basic Auth challenge.
pub fn basic_auth_challenge() -> (r: Rejection)
    ensures
        is_basic_auth_challenge(r),
{
    Rejection {
        status: 401,
        www_authenticate: Some("Basic realm=\"Browser Terminal\", charset=\"UTF-8\"".to_string()),
        body: "authentication required".to_string(),
    }
}

/// `403` for a refused `Host` or `Origin`.
pub fn forbidden_host_or_origin() -> (r: Rejection)
    ensures
        r.status == 403,
        r.www_authenticate is None,
        r.body@ == "forbidden host or origin"@,
{
    Rejection { status: 403, www_authenticate: None, body: "forbidden host or origin".to_string() }
}

/// The answer for a decision: none for `Allow`.
pub fn rejection(d: GuardDecision) -> (r: Option<Rejection>)
    ensures
        d == GuardDecision::Allow <==> r is None,
        d == GuardDecision::Forbidden ==> (r matches Some(x) && x.status == 403
            && x.www_authenticate is None && x.body@ == "forbidden host or origin"@),
        d == GuardDecision::Unauthorized ==> (r matches Some(x) && is_basic_auth_challenge(x)),
{
    match d {
        GuardDecision::Allow => None,
        GuardDecision::Forbidden => Some(forbidden_host_or_origin()),
        GuardDecision::Unauthorized => Some(basic_auth_challenge()),
    }
}

// ---------------------------------------------------------------------------
// Laws
// ---------------------------------------------------------------------------

/// A request reaches its route exactly when it passes both the Host and
/// Origin policy and Basic Auth; a refused `Host` or `Origin` is answered
/// `403` even without credentials.
pub proof fn lemma_guard_allows_iff_both(security: SecurityPolicy, auth: BasicAuth, h: HeadersView)
    ensures
        spec_guard(security, auth, h) == GuardDecision::Allow <==> security.spec_allows(h)
            && auth.spec_allows(h),
        !security.spec_allows(h) ==> spec_guard(security, auth, h) == GuardDecision::Forbidden,
{
}

/// With the default setup (loopback listener, no CORS origin, no password,
/// so Basic Auth off) a request reaches its route exactly when the default
/// policy lets it pass.
pub proof fn lemma_default_setup_guard(server_port: u16, h: HeadersView)
    ensures
        spec_guard(default_policy(server_port), BasicAuth { credentials: None }, h)
            == GuardDecision::Allow <==> default_policy(server_port).spec_allows(h),
{
}

} // verus!
