//! The Host and Origin policy that guards every request, WebSocket
//! handshakes included, against DNS rebinding: by default only loopback
//! hosts and loopback origins on the server's own port pass.
use vstd::prelude::*;
use vstd::string::StringSliceAdditionalSpecFns;

use crate::ip::{parse_ip, parse_ip_spec, IpAddress};
use crate::text::{
    ascii_chars, ascii_eq_ignore_case, ascii_text, bytes_eq_ignore_ascii_case, bytes_equal,
    decimal, decimal_chars, push_all, push_str, string_of,
};
use crate::uri::{parse_authority, parse_uri, AuthorityParts, AuthorityView, http_parse_authority, http_parse_uri};

verus! {

// ---------------------------------------------------------------------------
// Request headers
// ---------------------------------------------------------------------------

/// The request headers that the policies read: the first value of each of
/// `Host`, `Origin` and `Authorization`, as raw bytes.
#[derive(Clone, Debug)]
pub struct RequestHeaders {
    pub host: Option<Vec<u8>>,
    pub origin: Option<Vec<u8>>,
    pub authorization: Option<Vec<u8>>,
}

/// The model of [`RequestHeaders`].
pub struct HeadersView {
    pub host: Option<Seq<u8>>,
    pub origin: Option<Seq<u8>>,
    pub authorization: Option<Seq<u8>>,
}

/// The bytes of an optional header value.
pub open spec fn opt_bytes(v: Option<Vec<u8>>) -> Option<Seq<u8>> {
    match v {
        Some(b) => Some(b@),
        None => None,
    }
}

impl View for RequestHeaders {
    type V = HeadersView;

    open spec fn view(&self) -> HeadersView {
        HeadersView {
            host: opt_bytes(self.host),
            origin: opt_bytes(self.origin),
            authorization: opt_bytes(self.authorization),
        }
    }
}

impl RequestHeaders {
    /// A request without any of the three headers.
    pub fn new() -> (h: RequestHeaders)
        ensures
            h@.host is None,
            h@.origin is None,
            h@.authorization is None,
    {
        RequestHeaders { host: None, origin: None, authorization: None }
    }
}

// ---------------------------------------------------------------------------
// Header value bytes
// ---------------------------------------------------------------------------

/// A byte that `HeaderValue::to_str` accepts: visible ASCII or a tab.
pub open spec fn is_visible_ascii(b: u8) -> bool {
    (32 <= b && b < 127) || b == 9
}

/// Whether `HeaderValue::to_str` succeeds on these bytes.
pub open spec fn all_visible_ascii(v: Seq<u8>) -> bool {
    forall|i: int| 0 <= i < v.len() ==> is_visible_ascii(#[trigger] v[i])
}

/// A byte that a header value may hold (`HeaderValue::from_bytes`): anything
/// from 32 on but DEL, or a tab.
pub open spec fn is_header_value_byte(b: u8) -> bool {
    (b >= 32 && b != 127) || b == 9
}

/// Whether `HeaderValue::from_str` accepts these bytes.
pub open spec fn all_header_value_bytes(v: Seq<u8>) -> bool {
    forall|i: int| 0 <= i < v.len() ==> is_header_value_byte(#[trigger] v[i])
}

/// Whether a header value is text (`HeaderValue::to_str` succeeds).
pub fn is_visible_text(v: &[u8]) -> (r: bool)
    ensures
        r == all_visible_ascii(v@),
{
    let n = v.len();
    for i in 0..n
        invariant
            n == v@.len(),
            forall|j: int| 0 <= j < i ==> is_visible_ascii(#[trigger] v@[j]),
    {
        let b = v[i];
        if !((32 <= b && b < 127) || b == 9) {
            assert(!is_visible_ascii(v@[i as int]));
            return false;
        }
    }
    true
}

/// Whether bytes may form a header value (`HeaderValue::from_bytes`).
pub fn is_header_value(v: &[u8]) -> (r: bool)
    ensures
        r == all_header_value_bytes(v@),
{
    let n = v.len();
    for i in 0..n
        invariant
            n == v@.len(),
            forall|j: int| 0 <= j < i ==> is_header_value_byte(#[trigger] v@[j]),
    {
        let b = v[i];
        if !((b >= 32 && b != 127) || b == 9) {
            assert(!is_header_value_byte(v@[i as int]));
            return false;
        }
    }
    true
}

// ---------------------------------------------------------------------------
// Loopback hosts
// ---------------------------------------------------------------------------

/// `"localhost"`.
pub open spec fn localhost_bytes() -> Seq<u8> {
    seq![108u8, 111, 99, 97, 108, 104, 111, 115, 116]
}

/// `"http"`.
pub open spec fn http_bytes() -> Seq<u8> {
    seq![104u8, 116, 116, 112]
}

/// `"https"`.
pub open spec fn https_bytes() -> Seq<u8> {
    seq![104u8, 116, 116, 112, 115]
}

/// `[` or `]`.
pub open spec fn is_bracket(b: u8) -> bool {
    b == 91 || b == 93
}

/// `s` without its leading brackets.
pub open spec fn trim_brackets_start(s: Seq<u8>) -> Seq<u8>
    decreases s.len(),
{
    if s.len() > 0 && is_bracket(s[0]) {
        trim_brackets_start(s.drop_first())
    } else {
        s
    }
}

/// `s` without its trailing brackets.
pub open spec fn trim_brackets_end(s: Seq<u8>) -> Seq<u8>
    decreases s.len(),
{
    if s.len() > 0 && is_bracket(s.last()) {
        trim_brackets_end(s.drop_last())
    } else {
        s
    }
}

/// `str::trim_matches(['[', ']'])`.
pub open spec fn trim_brackets(s: Seq<u8>) -> Seq<u8> {
    trim_brackets_end(trim_brackets_start(s))
}

/// A loopback host: once the brackets around it are removed, `localhost` in
/// any case, or an IP address in the loopback range.
pub open spec fn host_is_loopback(host: Seq<u8>) -> bool {
    let h = trim_brackets(host);
    ||| ascii_eq_ignore_case(h, localhost_bytes())
    ||| (parse_ip_spec(h) matches Some(a) && a.is_loopback())
}

/// The port an authority names, 80 where it names none.
pub open spec fn effective_port(a: AuthorityView) -> u16 {
    match a.port {
        Some(p) => p,
        None => 80,
    }
}

/// A loopback authority on the given port.
pub open spec fn authority_is_loopback_on_port(a: AuthorityView, port: u16) -> bool {
    effective_port(a) == port && host_is_loopback(a.host)
}

/// `http` or `https`.
pub open spec fn is_web_scheme(s: Option<Seq<u8>>) -> bool {
    s == Some(http_bytes()) || s == Some(https_bytes())
}

/// The authority of an `http` or `https` origin; none where the origin is
/// not visible ASCII, not a URI, of another scheme, or without authority.
pub open spec fn origin_authority(origin: Seq<u8>) -> Option<AuthorityView> {
    if !all_visible_ascii(origin) {
        None
    } else {
        match http_parse_uri(origin) {
            Some(u) => if is_web_scheme(u.scheme) {
                u.authority
            } else {
                None
            },
            None => None,
        }
    }
}

/// An `http` or `https` origin whose authority is loopback on the port.
pub open spec fn origin_loopback_on_port(origin: Seq<u8>, port: u16) -> bool {
    origin_authority(origin) matches Some(a) && authority_is_loopback_on_port(a, port)
}

/// An `http` or `https` origin whose host is loopback, on any port.
pub open spec fn origin_loopback_host(origin: Seq<u8>) -> bool {
    origin_authority(origin) matches Some(a) && host_is_loopback(a.host)
}

/// A `Host` header that names a loopback authority on the port.
pub open spec fn host_header_loopback_on_port(host: Option<Seq<u8>>, port: u16) -> bool {
    match host {
        Some(v) => all_visible_ascii(v) && match http_parse_authority(v) {
            Some(a) => authority_is_loopback_on_port(a, port),
            None => false,
        },
        None => false,
    }
}

fn bracket_bounds(s: &[u8]) -> (r: (usize, usize))
    ensures
        r.0 <= r.1 <= s@.len(),
        s@.subrange(r.0 as int, r.1 as int) == trim_brackets(s@),
{
    let n = s.len();
    let mut start: usize = 0;
    assert(s@.skip(0) == s@);
    while start < n && (s[start] == 91 || s[start] == 93)
        invariant
            start <= n == s@.len(),
            trim_brackets_start(s@) == trim_brackets_start(s@.skip(start as int)),
        decreases n - start,
    {
        assert(s@.skip(start as int).drop_first() == s@.skip(start + 1));
        start = start + 1;
    }
    assert(trim_brackets_start(s@) == s@.skip(start as int));
    let mut end: usize = n;
    while end > start && (s[end - 1] == 91 || s[end - 1] == 93)
        invariant
            start <= end <= n == s@.len(),
            trim_brackets(s@) == trim_brackets_end(s@.subrange(start as int, end as int)),
        decreases end,
    {
        assert(s@.subrange(start as int, end as int).drop_last() == s@.subrange(
            start as int,
            end - 1,
        ));
        end = end - 1;
    }
    assert(s@.skip(start as int) == s@.subrange(start as int, n as int));
    (start, end)
}

/// Whether a host is loopback: `localhost` in any case, or a loopback IP
/// address, once surrounding brackets are removed.
pub fn host_is_loopback_bytes(host: &[u8]) -> (r: bool)
    ensures
        r == host_is_loopback(host@),
{
    let (start, end) = bracket_bounds(host);
    let h = crate::text::copy_bytes(host, start, end);
    let localhost: [u8; 9] = [108, 111, 99, 97, 108, 104, 111, 115, 116];
    assert(localhost@ =~= localhost_bytes());
    if bytes_eq_ignore_ascii_case(h.as_slice(), localhost.as_slice()) {
        return true;
    }
    match parse_ip(h.as_slice()) {
        Some(a) => a.is_loopback(),
        None => false,
    }
}

/// Whether an authority is loopback and names the port (80 when it names
/// none).
pub fn authority_is_loopback_on(a: &AuthorityParts, server_port: u16) -> (r: bool)
    ensures
        r == authority_is_loopback_on_port(a@, server_port),
{
    let port = match a.port {
        Some(p) => p,
        None => 80,
    };
    port == server_port && host_is_loopback_bytes(a.host.as_slice())
}

fn is_web_scheme_bytes(s: &Option<Vec<u8>>) -> (r: bool)
    ensures
        r == is_web_scheme(opt_bytes(*s)),
{
    match s {
        Some(v) => {
            let http: [u8; 4] = [104, 116, 116, 112];
            let https: [u8; 5] = [104, 116, 116, 112, 115];
            assert(http@ =~= http_bytes());
            assert(https@ =~= https_bytes());
            bytes_equal(v.as_slice(), http.as_slice()) || bytes_equal(v.as_slice(), https.as_slice())
        },
        None => false,
    }
}

fn authority_of_origin(origin: &[u8]) -> (r: Option<AuthorityParts>)
    ensures
        r matches Some(a) ==> origin_authority(origin@) == Some(a@),
        r is None ==> origin_authority(origin@) is None,
{
    if !is_visible_text(origin) {
        return None;
    }
    match parse_uri(origin) {
        Some(u) => {
            proof {
                assert(opt_bytes(u.scheme) == u@.scheme);
            }
            if is_web_scheme_bytes(&u.scheme) {
                u.authority
            } else {
                None
            }
        },
        None => None,
    }
}

/// Whether an origin is `http` or `https` with a loopback host.
pub fn origin_host_is_loopback(origin: &[u8]) -> (r: bool)
    ensures
        r == origin_loopback_host(origin@),
{
    match authority_of_origin(origin) {
        Some(a) => host_is_loopback_bytes(a.host.as_slice()),
        None => false,
    }
}

/// Whether an origin is `http` or `https`, loopback, on the server port.
pub fn origin_is_loopback_on_port(origin: &[u8], server_port: u16) -> (r: bool)
    ensures
        r == origin_loopback_on_port(origin@, server_port),
{
    match authority_of_origin(origin) {
        Some(a) => authority_is_loopback_on(&a, server_port),
        None => false,
    }
}

// ---------------------------------------------------------------------------
// Policies
// ---------------------------------------------------------------------------

/// Which `Host` headers pass.
#[derive(Clone, Debug)]
pub enum HostPolicy {
    /// Only loopback hosts on the server port.
    Loopback { server_port: u16 },
    /// Any host.
    AllowAll,
}

impl HostPolicy {
    /// Whether the headers pass this policy.
    pub open spec fn spec_allows(&self, h: HeadersView) -> bool {
        match *self {
            HostPolicy::AllowAll => true,
            HostPolicy::Loopback { server_port } => host_header_loopback_on_port(h.host, server_port),
        }
    }

    /// Whether the `Host` header passes this policy.
    pub fn allows_headers(&self, headers: &RequestHeaders) -> (r: bool)
        ensures
            r == self.spec_allows(headers@),
    {
        match self {
            HostPolicy::AllowAll => true,
            HostPolicy::Loopback { server_port } => match &headers.host {
                None => false,
                Some(host) => {
                    if !is_visible_text(host.as_slice()) {
                        return false;
                    }
                    match parse_authority(host.as_slice()) {
                        Some(a) => authority_is_loopback_on(&a, *server_port),
                        None => false,
                    }
                },
            },
        }
    }
}

/// Which `Origin` headers pass.
#[derive(Clone, Debug)]
pub enum OriginPolicy {
    /// Only this exact origin.
    Exact(Vec<u8>),
    /// Only `http` or `https` loopback origins on the server port.
    Loopback { server_port: u16 },
    /// Any origin.
    AllowAll,
}

impl OriginPolicy {
    /// Whether a present `Origin` header with these bytes passes.
    pub open spec fn spec_allows_origin(&self, origin: Seq<u8>) -> bool {
        match *self {
            OriginPolicy::Exact(allowed) => origin == allowed@,
            OriginPolicy::Loopback { server_port } => origin_loopback_on_port(origin, server_port),
            OriginPolicy::AllowAll => true,
        }
    }

    /// Whether the headers pass: a request without `Origin` always does.
    pub open spec fn spec_allows(&self, h: HeadersView) -> bool {
        match h.origin {
            None => true,
            Some(o) => self.spec_allows_origin(o),
        }
    }

    /// Whether a cross-origin request from this origin may read responses
    /// (the CORS decision; for `Exact` the layer answers with the allowed
    /// origin, which a browser accepts only when it is the request's).
    pub fn cors_allows_origin(&self, origin: &[u8]) -> (r: bool)
        ensures
            r == self.spec_allows_origin(origin@),
    {
        match self {
            OriginPolicy::Exact(allowed) => bytes_equal(origin, allowed.as_slice()),
            OriginPolicy::Loopback { server_port } => origin_is_loopback_on_port(origin, *server_port),
            OriginPolicy::AllowAll => true,
        }
    }

    /// Whether the `Origin` header passes this policy.
    pub fn allows_headers(&self, headers: &RequestHeaders) -> (r: bool)
        ensures
            r == self.spec_allows(headers@),
    {
        match &headers.origin {
            None => true,
            Some(origin) => self.cors_allows_origin(origin.as_slice()),
        }
    }
}

/// The policy for `Host` and `Origin` headers.
#[derive(Clone, Debug)]
pub struct SecurityPolicy {
    pub origin_policy: OriginPolicy,
    pub host_policy: HostPolicy,
}

impl SecurityPolicy {
    /// Whether both headers pass.
    pub open spec fn spec_allows(&self, h: HeadersView) -> bool {
        self.host_policy.spec_allows(h) && self.origin_policy.spec_allows(h)
    }

    /// The policy for a configuration: with the dangerous flag any `Host`
    /// and `Origin` pass; with a CORS origin, a loopback `Host` on the
    /// server port and exactly that `Origin`; otherwise a loopback `Host`
    /// and a loopback `Origin`, both on the server port.
    pub fn new(cors_origin: Option<Vec<u8>>, dangerous_allow_all_host: bool, server_port: u16) -> (p:
        SecurityPolicy)
        ensures
            dangerous_allow_all_host ==> p.host_policy is AllowAll && p.origin_policy is AllowAll,
            !dangerous_allow_all_host ==> p.host_policy == (HostPolicy::Loopback { server_port }),
            !dangerous_allow_all_host ==> match cors_origin {
                Some(o) => p.origin_policy == OriginPolicy::Exact(o),
                None => p.origin_policy == (OriginPolicy::Loopback { server_port }),
            },
    {
        if dangerous_allow_all_host {
            SecurityPolicy { origin_policy: OriginPolicy::AllowAll, host_policy: HostPolicy::AllowAll }
        } else if let Some(origin) = cors_origin {
            SecurityPolicy {
                origin_policy: OriginPolicy::Exact(origin),
                host_policy: HostPolicy::Loopback { server_port },
            }
        } else {
            SecurityPolicy {
                origin_policy: OriginPolicy::Loopback { server_port },
                host_policy: HostPolicy::Loopback { server_port },
            }
        }
    }

    /// Whether the `Host` and the `Origin` header of a request both pass.
    pub fn allows_headers(&self, headers: &RequestHeaders) -> (r: bool)
        ensures
            r == self.spec_allows(headers@),
    {
        self.host_policy.allows_headers(headers) && self.origin_policy.allows_headers(headers)
    }

    /// The one-line description of the policy printed at start-up.
    pub open spec fn spec_description(&self) -> Seq<char> {
        match (self.host_policy, self.origin_policy) {
            (HostPolicy::AllowAll, OriginPolicy::AllowAll) => "dangerously allowing all Host and Origin headers"@,
            (HostPolicy::Loopback { server_port }, OriginPolicy::Exact(origin)) => "loopback Host on port "@
                + decimal(server_port as nat) + "; exact Origin "@ + if all_visible_ascii(origin@) {
                ascii_text(origin@)
            } else {
                "<invalid utf8 origin>"@
            },
            (HostPolicy::Loopback { server_port }, OriginPolicy::Loopback { .. }) => "loopback Host and Origin on port "@ + decimal(server_port as nat),
            _ => "custom Host and Origin policy"@,
        }
    }

    /// Describes the policy in one line.
    pub fn description(&self) -> (s: String)
        ensures
            s@ == self.spec_description(),
    {
        match (&self.host_policy, &self.origin_policy) {
            (HostPolicy::AllowAll, OriginPolicy::AllowAll) => "dangerously allowing all Host and Origin headers".to_string(),
            (HostPolicy::Loopback { server_port }, OriginPolicy::Exact(origin)) => {
                let mut out: Vec<char> = Vec::new();
                push_str(&mut out, "loopback Host on port ");
                let port = decimal_chars(*server_port as u64);
                push_all(&mut out, port.as_slice());
                push_str(&mut out, "; exact Origin ");
                if is_visible_text(origin.as_slice()) {
                    let text = ascii_chars(origin.as_slice());
                    push_all(&mut out, text.as_slice());
                } else {
                    push_str(&mut out, "<invalid utf8 origin>");
                }
                string_of(out.as_slice())
            },
            (HostPolicy::Loopback { server_port }, OriginPolicy::Loopback { .. }) => {
                let mut out: Vec<char> = Vec::new();
                push_str(&mut out, "loopback Host and Origin on port ");
                let port = decimal_chars(*server_port as u64);
                push_all(&mut out, port.as_slice());
                string_of(out.as_slice())
            },
            _ => "custom Host and Origin policy".to_string(),
        }
    }
}

// ---------------------------------------------------------------------------
// The configured CORS origin
// ---------------------------------------------------------------------------

/// Why a configured CORS origin is refused.
#[derive(Clone, Copy, Debug, PartialEq, Eq)]
pub enum OriginProblem {
    NotVisibleAscii,
    NotUrl,
    BadScheme,
    NoHost,
    HasPathOrQuery,
}

/// What is wrong with an origin, checked in this order; none for a bare
/// `http` or `https` origin with a host and path `/` and no query.
pub open spec fn origin_problem(origin: Seq<u8>) -> Option<OriginProblem> {
    if !all_visible_ascii(origin) {
        Some(OriginProblem::NotVisibleAscii)
    } else {
        match http_parse_uri(origin) {
            None => Some(OriginProblem::NotUrl),
            Some(u) => if !is_web_scheme(u.scheme) {
                Some(OriginProblem::BadScheme)
            } else if u.authority is None {
                Some(OriginProblem::NoHost)
            } else if u.path != seq![47u8] || u.query is Some {
                Some(OriginProblem::HasPathOrQuery)
            } else {
                None
            },
        }
    }
}

/// The message for each origin problem.
pub open spec fn origin_problem_message(p: OriginProblem) -> Seq<char> {
    match p {
        OriginProblem::NotVisibleAscii => "origin must contain visible ASCII characters"@,
        OriginProblem::NotUrl => "origin must be a valid URL origin, for example http://localhost:5173"@,
        OriginProblem::BadScheme => "origin scheme must be http or https"@,
        OriginProblem::NoHost => "origin must include a host"@,
        OriginProblem::HasPathOrQuery => "origin must not include a path or query"@,
    }
}

/// The message when the text is no header value at all.
pub open spec fn invalid_header_value_message() -> Seq<char> {
    "invalid header value: failed to parse header value"@
}

fn origin_problem_of(origin: &[u8]) -> (r: Option<OriginProblem>)
    ensures
        r == origin_problem(origin@),
{
    if !is_visible_text(origin) {
        return Some(OriginProblem::NotVisibleAscii);
    }
    match parse_uri(origin) {
        None => Some(OriginProblem::NotUrl),
        Some(u) => {
            proof {
                assert(opt_bytes(u.scheme) == u@.scheme);
            }
            if !is_web_scheme_bytes(&u.scheme) {
                return Some(OriginProblem::BadScheme);
            }
            if u.authority.is_none() {
                return Some(OriginProblem::NoHost);
            }
            let slash: [u8; 1] = [47];
            assert(slash@ =~= seq![47u8]);
            if !bytes_equal(u.path.as_slice(), slash.as_slice()) || u.query.is_some() {
                return Some(OriginProblem::HasPathOrQuery);
            }
            None
        },
    }
}

fn origin_problem_text(p: OriginProblem) -> (s: String)
    ensures
        s@ == origin_problem_message(p),
{
    match p {
        OriginProblem::NotVisibleAscii => "origin must contain visible ASCII characters".to_string(),
        OriginProblem::NotUrl => "origin must be a valid URL origin, for example http://localhost:5173".to_string(),
        OriginProblem::BadScheme => "origin scheme must be http or https".to_string(),
        OriginProblem::NoHost => "origin must include a host".to_string(),
        OriginProblem::HasPathOrQuery => "origin must not include a path or query".to_string(),
    }
}

/// Checks that a header value is a bare `http` or `https` origin.
pub fn validate_origin(origin: &[u8]) -> (r: Result<(), String>)
    ensures
        r is Ok <==> origin_problem(origin@) is None,
        r matches Err(m) ==> m@ == origin_problem_message(origin_problem(origin@).unwrap()),
{
    match origin_problem_of(origin) {
        None => Ok(()),
        Some(p) => Err(origin_problem_text(p)),
    }
}

/// Parses the configured CORS origin into header value bytes.
pub fn parse_cors_origin(value: &str) -> (r: Result<Vec<u8>, String>)
    ensures
        !all_header_value_bytes(value.spec_bytes()) ==> (r matches Err(m) && m@
            == invalid_header_value_message()),
        all_header_value_bytes(value.spec_bytes()) ==> match origin_problem(value.spec_bytes()) {
            Some(p) => (r matches Err(m) && m@ == origin_problem_message(p)),
            None => (r matches Ok(o) && o@ == value.spec_bytes()),
        },
{
    let bytes = value.as_bytes();
    if !is_header_value(bytes) {
        return Err("invalid header value: failed to parse header value".to_string());
    }
    validate_origin(bytes)?;
    Ok(crate::text::copy_bytes(bytes, 0, bytes.len()))
}

/// Whether Basic Auth is on by default: when any `Host` may pass, when the
/// listener is not a loopback address, or when the configured CORS origin
/// is not a loopback origin.
pub open spec fn spec_default_requires_auth(
    listener_loopback: bool,
    cors_origin: Option<Seq<u8>>,
    dangerous_allow_all_host: bool,
) -> bool {
    ||| dangerous_allow_all_host
    ||| !listener_loopback
    ||| (cors_origin matches Some(o) && !origin_loopback_host(o))
}

/// Whether Basic Auth is required when no password is configured.
pub fn default_requires_auth(
    listener_ip: &IpAddress,
    cors_origin: Option<&Vec<u8>>,
    dangerous_allow_all_host: bool,
) -> (r: bool)
    ensures
        r == spec_default_requires_auth(
            listener_ip@.is_loopback(),
            match cors_origin {
                Some(o) => Some(o@),
                None => None,
            },
            dangerous_allow_all_host,
        ),
{
    if dangerous_allow_all_host {
        return true;
    }
    if !listener_ip.is_loopback() {
        return true;
    }
    match cors_origin {
        Some(o) => !origin_host_is_loopback(o.as_slice()),
        None => false,
    }
}

// ---------------------------------------------------------------------------
// Laws
// ---------------------------------------------------------------------------

/// The policy built without a CORS origin and without the dangerous flag.
pub open spec fn default_policy(server_port: u16) -> SecurityPolicy {
    SecurityPolicy {
        origin_policy: OriginPolicy::Loopback { server_port },
        host_policy: HostPolicy::Loopback { server_port },
    }
}

/// Without a CORS origin, a request passes exactly when its `Host` is a
/// loopback host on the server port and its `Origin`, if it has one, is an
/// `http` or `https` loopback origin on the server port.
pub proof fn lemma_default_policy_allows_only_loopback(server_port: u16, h: HeadersView)
    ensures
        default_policy(server_port).spec_allows(h) <==> {
            &&& host_header_loopback_on_port(h.host, server_port)
            &&& match h.origin {
                None => true,
                Some(o) => origin_loopback_on_port(o, server_port),
            }
        },
{
}

/// With the dangerous flag every `Host` and `Origin` passes.
pub proof fn lemma_dangerous_policy_allows_all(h: HeadersView)
    ensures
        (SecurityPolicy { origin_policy: OriginPolicy::AllowAll, host_policy: HostPolicy::AllowAll })
            .spec_allows(h),
{
}

/// With a CORS origin, a request passes exactly when its `Host` is a
/// loopback host on the server port and its `Origin`, if it has one, is
/// byte for byte the configured one.
pub proof fn lemma_explicit_origin_policy(origin: Vec<u8>, server_port: u16, h: HeadersView)
    ensures
        (SecurityPolicy {
            origin_policy: OriginPolicy::Exact(origin),
            host_policy: HostPolicy::Loopback { server_port },
        }).spec_allows(h) <==> {
            &&& host_header_loopback_on_port(h.host, server_port)
            &&& match h.origin {
                None => true,
                Some(o) => o == origin@,
            }
        },
{
}

/// Unless the dangerous flag is set, a request without a `Host` header is
/// refused.
pub proof fn lemma_missing_host_refused(p: SecurityPolicy, h: HeadersView)
    requires
        p.host_policy is Loopback,
        h.host is None,
    ensures
        !p.spec_allows(h),
{
}

/// An origin is a loopback origin on one port at most: a loopback origin
/// on another port than the server's is refused.
pub proof fn lemma_loopback_origin_names_one_port(origin: Seq<u8>, p: u16, q: u16)
    requires
        origin_loopback_on_port(origin, p),
        origin_loopback_on_port(origin, q),
    ensures
        p == q,
{
}

/// A loopback origin on the server port is a loopback origin.
pub proof fn lemma_loopback_on_port_is_loopback(origin: Seq<u8>, p: u16)
    requires
        origin_loopback_on_port(origin, p),
    ensures
        origin_loopback_host(origin),
{
}

/// With the dangerous flag Basic Auth is on by default, whatever the
/// listener and the CORS origin.
pub proof fn lemma_dangerous_flag_requires_auth(listener_loopback: bool, cors_origin: Option<Seq<u8>>)
    ensures
        spec_default_requires_auth(listener_loopback, cors_origin, true),
{
}

/// A loopback listener without a CORS origin, and without the dangerous
/// flag, does not require Basic Auth by default; a listener that is not
/// loopback always does.
pub proof fn lemma_default_auth_for_listener(listener_loopback: bool, cors_origin: Option<Seq<u8>>)
    ensures
        !spec_default_requires_auth(true, None, false),
        !listener_loopback ==> spec_default_requires_auth(listener_loopback, cors_origin, false),
{
}

/// The port of an origin is the one it names, or 80 when it names none,
/// as for the `Host` header: an `http` or `https` origin with a loopback
/// host and no port is a loopback origin on port 80, and on no other port.
pub proof fn lemma_origin_port_defaults_to_80(origin: Seq<u8>, port: u16, a: AuthorityView)
    requires
        origin_authority(origin) == Some(a),
    ensures
        origin_loopback_on_port(origin, port) <==> ({
            &&& match a.port {
                Some(q) => q == port,
                None => port == 80,
            }
            &&& host_is_loopback(a.host)
        }),
{
}

} // verus!

