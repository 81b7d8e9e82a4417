//! Basic Auth: the credentials (from `~/.browser-terminalrc`, or a random
//! password), the parser of that file, and the check of the
//! `Authorization` header.
use vstd::prelude::*;
use vstd::string::StringSliceAdditionalSpecFns;
use vstd::utf8::{
    encode_scalar, encode_utf8, has_width_1_encoding, last_continuation_byte, leading_byte_width_2,
    leading_byte_width_3, leading_byte_width_4, second_last_continuation_byte,
    third_last_continuation_byte, valid_utf8,
};

use base64::Engine;

use crate::random::random_alphanumeric;
use crate::security::{
    all_visible_ascii, is_visible_ascii, is_visible_text, spec_default_requires_auth, HeadersView, RequestHeaders,
};
use crate::text::{
    ascii_lower, bytes_equal, chars_equal, chars_of, copy_bytes, copy_range, decimal,
    decimal_chars, find_byte, find_char, find_first, is_ascii_alphanumeric, is_unicode_whitespace,
    lemma_find_first, push_all, push_str, string_of, to_ascii_lowercase, trim, trim_bounds,
    trim_end, trim_start, trimmed,
};

verus! {

/// The user name when the configuration names none.
pub open spec fn default_username() -> Seq<char> {
    "admin"@
}

/// The length of a generated password.
pub const GENERATED_PASSWORD_LEN: usize = 24;

// ---------------------------------------------------------------------------
// Credentials
// ---------------------------------------------------------------------------

/// Where the password came from.
#[derive(Clone, Debug)]
pub enum PasswordSource {
    /// Drawn at random for this run.
    Generated,
    /// Read from the configuration file at this path.
    Config(String),
}

impl PasswordSource {
    /// How the source is shown: `generated`, or the path of the file.
    pub open spec fn spec_describe(&self) -> Seq<char> {
        match *self {
            PasswordSource::Generated => "generated"@,
            PasswordSource::Config(path) => path@,
        }
    }

    /// Describes the source of the password.
    pub fn describe(&self) -> (s: String)
        ensures
            s@ == self.spec_describe(),
    {
        match self {
            PasswordSource::Generated => "generated".to_string(),
            PasswordSource::Config(path) => path.clone(),
        }
    }
}

/// The user name and password that requests must present.
#[derive(Clone, Debug)]
pub struct BasicAuthCredentials {
    pub username: String,
    pub password: String,
    pub password_source: PasswordSource,
}

/// Basic Auth, on (with credentials) or off.
#[derive(Clone, Debug)]
pub struct BasicAuth {
    pub credentials: Option<BasicAuthCredentials>,
}

/// The configuration file: its path and the user name and password it
/// sets.
#[derive(Clone, Debug)]
pub struct ConfigFile {
    pub path: String,
    pub username: Option<String>,
    pub password: Option<String>,
}

/// A configuration file as read from disk: its path and its text.
#[derive(Clone, Debug)]
pub struct ConfigSource {
    pub path: String,
    pub content: String,
}

/// The characters of an optional string.
pub open spec fn opt_text(s: Option<String>) -> Option<Seq<char>> {
    match s {
        Some(t) => Some(t@),
        None => None,
    }
}

/// The model of a [`ConfigFile`].
pub struct ConfigView {
    pub path: Seq<char>,
    pub username: Option<Seq<char>>,
    pub password: Option<Seq<char>>,
}

impl View for ConfigFile {
    type V = ConfigView;

    open spec fn view(&self) -> ConfigView {
        ConfigView { path: self.path@, username: opt_text(self.username), password: opt_text(self.password) }
    }
}

/// The model of an optional [`ConfigFile`].
pub open spec fn opt_config(c: Option<ConfigFile>) -> Option<ConfigView> {
    match c {
        Some(f) => Some(f@),
        None => None,
    }
}

// ---------------------------------------------------------------------------
// The Authorization header
// ---------------------------------------------------------------------------

/// `"Basic "`.
pub open spec fn basic_prefix() -> Seq<u8> {
    seq![66u8, 97, 115, 105, 99, 32]
}

/// What `base64::engine::general_purpose::STANDARD.decode` gives for the
/// input (none where it refuses it).
pub uninterp spec fn base64_standard_decode(input: Seq<u8>) -> Option<Seq<u8>>;

/// Calls `STANDARD.decode` of `base64` (standard alphabet, padded).
///
/// Claims only that the result is a function of the input, named
/// `base64_standard_decode`; the alphabet and padding rules are not
/// restated.
#[verifier::external_body]
fn decode_base64(input: &[u8]) -> (r: Option<Vec<u8>>)
    ensures
        match r {
            Some(d) => base64_standard_decode(input@) == Some(d@),
            None => base64_standard_decode(input@) is None,
        },
{
    base64::engine::general_purpose::STANDARD.decode(input).ok()
}

/// Whether decoded `user:password` bytes are UTF-8 and split, at their
/// first colon, into the given user name and password.
pub open spec fn decoded_pair_matches(d: Seq<u8>, username: Seq<char>, password: Seq<char>) -> bool {
    valid_utf8(d) && match find_first(d, 58u8) {
        None => false,
        Some(i) => d.take(i as int) == encode_utf8(username) && d.skip((i + 1) as int) == encode_utf8(
            password,
        ),
    }
}

/// Whether an `Authorization` header presents these credentials: visible
/// ASCII, `Basic ` and then the standard base64 encoding of
/// `username:password`.
pub open spec fn authorization_matches(
    header: Option<Seq<u8>>,
    username: Seq<char>,
    password: Seq<char>,
) -> bool {
    match header {
        None => false,
        Some(v) => {
            &&& all_visible_ascii(v)
            &&& v.len() >= 6
            &&& v.take(6) == basic_prefix()
            &&& match base64_standard_decode(v.skip(6)) {
                None => false,
                Some(d) => decoded_pair_matches(d, username, password),
            }
        },
    }
}

proof fn lemma_colon_utf8()
    ensures
        valid_utf8(seq![58u8]),
{
    let c = seq![':'];
    vstd::utf8::is_ascii_chars_encode_utf8(c);
    vstd::utf8::encode_utf8_valid_utf8(c);
    assert(encode_utf8(c) =~= seq![58u8]);
}

impl BasicAuthCredentials {
    /// Whether the headers present these credentials.
    pub open spec fn spec_allows(&self, h: HeadersView) -> bool {
        authorization_matches(h.authorization, self.username@, self.password@)
    }

    /// Whether the `Authorization` header presents these credentials.
    pub fn allows_headers(&self, headers: &RequestHeaders) -> (r: bool)
        ensures
            r == self.spec_allows(headers@),
    {
        let value = match &headers.authorization {
            None => return false,
            Some(v) => v,
        };
        if !is_visible_text(value.as_slice()) {
            return false;
        }
        let n = value.len();
        if n < 6 {
            return false;
        }
        let prefix: [u8; 6] = [66, 97, 115, 105, 99, 32];
        assert(prefix@ =~= basic_prefix());
        let head = copy_bytes(value.as_slice(), 0, 6);
        if !bytes_equal(head.as_slice(), prefix.as_slice()) {
            return false;
        }
        let encoded = copy_bytes(value.as_slice(), 6, n);
        assert(encoded@ =~= value@.skip(6));
        let decoded = match decode_base64(encoded.as_slice()) {
            None => return false,
            Some(d) => d,
        };
        let colon = match find_byte(decoded.as_slice(), 58) {
            None => return false,
            Some(i) => i,
        };
        let dn = decoded.len();
        assert(colon < dn);
        let user = copy_bytes(decoded.as_slice(), 0, colon);
        let pass = copy_bytes(decoded.as_slice(), colon + 1, dn);
        assert(user@ =~= decoded@.take(colon as int));
        assert(pass@ =~= decoded@.skip(colon + 1));
        let expected_user = self.username.as_str().as_bytes();
        let expected_pass = self.password.as_str().as_bytes();
        let r = bytes_equal(user.as_slice(), expected_user) && bytes_equal(
            pass.as_slice(),
            expected_pass,
        );
        proof {
            if r {
                lemma_colon_utf8();
                vstd::utf8::encode_utf8_valid_utf8(self.username@);
                vstd::utf8::encode_utf8_valid_utf8(self.password@);
                vstd::utf8::valid_utf8_concat(user@, seq![58u8]);
                vstd::utf8::valid_utf8_concat(user@ + seq![58u8], pass@);
                assert(decoded@ =~= decoded@.take(colon as int) + seq![58u8] + decoded@.skip(
                    colon + 1,
                ));
            }
        }
        r
    }
}

impl BasicAuth {
    /// Whether the headers pass: always when Basic Auth is off.
    pub open spec fn spec_allows(&self, h: HeadersView) -> bool {
        match self.credentials {
            None => true,
            Some(c) => c.spec_allows(h),
        }
    }

    /// Whether a request with these headers passes Basic Auth.
    pub fn allows_headers(&self, headers: &RequestHeaders) -> (r: bool)
        ensures
            r == self.spec_allows(headers@),
    {
        match &self.credentials {
            None => true,
            Some(c) => c.allows_headers(headers),
        }
    }

    /// The credentials, when Basic Auth is on.
    pub fn credentials(&self) -> (r: Option<&BasicAuthCredentials>)
        ensures
            match self.credentials {
                Some(c) => r == Some(&c),
                None => r is None,
            },
    {
        self.credentials.as_ref()
    }

    /// Basic Auth on, with these credentials and a generated password.
    pub fn enabled_for_test(username: &str, password: &str) -> (a: BasicAuth)
        ensures
            a.credentials matches Some(c) && c.username@ == username@ && c.password@ == password@
                && c.password_source is Generated,
    {
        BasicAuth {
            credentials: Some(
                BasicAuthCredentials {
                    username: username.to_string(),
                    password: password.to_string(),
                    password_source: PasswordSource::Generated,
                },
            ),
        }
    }

    /// Basic Auth off.
    pub fn disabled_for_test() -> (a: BasicAuth)
        ensures
            a.credentials is None,
    {
        BasicAuth { credentials: None }
    }

    /// Basic Auth for a configuration: off when it is not required by
    /// default and no password is configured; otherwise on, with the
    /// configured user name (`admin` by default) and the configured
    /// password, or a generated one.
    pub fn from_config(config: Option<ConfigFile>, default_requires_auth: bool) -> (a: BasicAuth)
        ensures
            auth_for_config(opt_config(config), default_requires_auth, a),
    {
        let username = match &config {
            Some(c) => match &c.username {
                Some(u) => u.clone(),
                None => "admin".to_string(),
            },
            None => "admin".to_string(),
        };
        let has_configured_password = match &config {
            Some(c) => c.password.is_some(),
            None => false,
        };
        if !default_requires_auth && !has_configured_password {
            return BasicAuth { credentials: None };
        }
        let (password, password_source) = match config {
            Some(c) => match c.password {
                Some(p) => (p, PasswordSource::Config(c.path)),
                None => (generate_password(), PasswordSource::Generated),
            },
            None => (generate_password(), PasswordSource::Generated),
        };
        BasicAuth { credentials: Some(BasicAuthCredentials { username, password, password_source }) }
    }

    /// Basic Auth from the configuration file, if there is one: parses it
    /// and applies [`BasicAuth::from_config`]; a file that does not parse
    /// is an error.
    pub fn load(source: Option<ConfigSource>, default_requires_auth: bool) -> (r: Result<
        BasicAuth,
        ConfigLoadError,
    >)
        ensures
            match source {
                None => r is Ok,
                Some(s) => match parse_config_spec(s.content@) {
                    Ok(_) => r is Ok,
                    Err(p) => r matches Err(e) && e.path@ == s.path@ && e.cause@ == p,
                },
            },
            r matches Ok(a) ==> match source {
                None => auth_for_config(None, default_requires_auth, a),
                Some(s) => parse_config_spec(s.content@) matches Ok(f) && auth_for_config(
                    Some(ConfigView { path: s.path@, username: f.username, password: f.password }),
                    default_requires_auth,
                    a,
                ),
            },
    {
        let config = ConfigFile::load(source)?;
        Ok(BasicAuth::from_config(config, default_requires_auth))
    }
}

/// Basic Auth as a configuration gives it: off when it is not required by
/// default and no password is configured; otherwise on, with the configured
/// user name (`admin` by default) and either the configured password, whose
/// source is the file's path, or a generated one.
pub open spec fn auth_for_config(config: Option<ConfigView>, default_requires_auth: bool, a: BasicAuth) -> bool {
    let has_password = config matches Some(c) && c.password is Some;
    &&& a.credentials is Some <==> basic_auth_enabled(default_requires_auth, has_password)
    &&& a.credentials matches Some(cred) ==> {
        &&& cred.username@ == match config {
            Some(c) => match c.username {
                Some(u) => u,
                None => default_username(),
            },
            None => default_username(),
        }
        &&& match config {
            Some(c) => match c.password {
                Some(p) => {
                    &&& cred.password@ == p
                    &&& cred.password_source matches PasswordSource::Config(path) && path@ == c.path
                },
                None => generated_password(cred),
            },
            None => generated_password(cred),
        }
    }
}

/// Whether Basic Auth is on: when it is required by default, or when a
/// password is configured.
pub open spec fn basic_auth_enabled(default_requires_auth: bool, has_configured_password: bool) -> bool {
    default_requires_auth || has_configured_password
}

/// A generated password: 24 ASCII letters and digits.
pub open spec fn generated_password(c: BasicAuthCredentials) -> bool {
    &&& c.password_source is Generated
    &&& c.password@.len() == 24
    &&& forall|i: int| 0 <= i < 24 ==> is_ascii_alphanumeric(#[trigger] c.password@[i])
}

/// A random password of 24 ASCII letters and digits.
pub fn generate_password() -> (s: String)
    ensures
        s@.len() == 24,
        forall|i: int| 0 <= i < 24 ==> is_ascii_alphanumeric(#[trigger] s@[i]),
{
    random_alphanumeric(GENERATED_PASSWORD_LEN)
}

// ---------------------------------------------------------------------------
// The configuration file
// ---------------------------------------------------------------------------

/// The lines of `s`, split at each `\n` (the last line is what follows the
/// last `\n`, possibly nothing).
pub open spec fn split_lines(s: Seq<char>) -> Seq<Seq<char>>
    decreases s.len(),
{
    if s.len() == 0 {
        seq![seq![]]
    } else {
        let prev = split_lines(s.drop_last());
        if s.last() == '\n' {
            prev.push(seq![])
        } else {
            prev.update(prev.len() - 1, prev.last().push(s.last()))
        }
    }
}

/// `key=value` or `key: value`: the text before the first `=` or `:`,
/// whichever comes first, and the text after it.
pub open spec fn split_key_value_spec(line: Seq<char>) -> Option<(Seq<char>, Seq<char>)> {
    let sep = match (find_first(line, '='), find_first(line, ':')) {
        (Some(e), Some(c)) => Some(
            if e < c {
                e
            } else {
                c
            },
        ),
        (Some(e), None) => Some(e),
        (None, Some(c)) => Some(c),
        (None, None) => None,
    };
    match sep {
        Some(p) => Some((line.take(p as int), line.skip((p + 1) as int))),
        None => None,
    }
}

/// What a line of the configuration file says.
pub enum LineMeaning {
    /// Empty, blank or a `#` comment.
    Blank,
    Username(Seq<char>),
    Password(Seq<char>),
    /// A key that is not known, ignored.
    Unknown,
    /// No `=` or `:`.
    MissingSeparator,
    /// A key (in small letters) with nothing after the separator.
    EmptyValue(Seq<char>),
}

/// The meaning of a line: trimmed; blank lines and `#` comments say
/// nothing; otherwise the key, trimmed and in small ASCII letters, is
/// `username` or `user`, or `password` or `basic_auth_password`, and the
/// trimmed value must not be empty.
pub open spec fn line_meaning(raw: Seq<char>) -> LineMeaning {
    let line = trim(raw);
    if line.len() == 0 || line[0] == '#' {
        LineMeaning::Blank
    } else {
        match split_key_value_spec(line) {
            None => LineMeaning::MissingSeparator,
            Some((k, v)) => {
                let key = ascii_lower(trim(k));
                let value = trim(v);
                if value.len() == 0 {
                    LineMeaning::EmptyValue(key)
                } else if key == "username"@ || key == "user"@ {
                    LineMeaning::Username(value)
                } else if key == "password"@ || key == "basic_auth_password"@ {
                    LineMeaning::Password(value)
                } else {
                    LineMeaning::Unknown
                }
            },
        }
    }
}

/// The user name and password that a configuration sets.
pub struct ConfigFields {
    pub username: Option<Seq<char>>,
    pub password: Option<Seq<char>>,
}

/// Why a configuration file does not parse, with the line number (from 1).
pub enum ConfigProblem {
    MissingSeparator(nat),
    EmptyValue(nat, Seq<char>),
}

/// The configuration after its first `n` lines: a later setting replaces
/// an earlier one, and the first bad line is an error.
pub open spec fn parse_lines(lines: Seq<Seq<char>>, n: nat) -> Result<ConfigFields, ConfigProblem>
    decreases n,
{
    if n == 0 {
        Ok(ConfigFields { username: None, password: None })
    } else {
        match parse_lines(lines, (n - 1) as nat) {
            Err(e) => Err(e),
            Ok(f) => match line_meaning(lines[n - 1]) {
                LineMeaning::Blank => Ok(f),
                LineMeaning::Unknown => Ok(f),
                LineMeaning::Username(v) => Ok(ConfigFields { username: Some(v), password: f.password }),
                LineMeaning::Password(v) => Ok(ConfigFields { username: f.username, password: Some(v) }),
                LineMeaning::MissingSeparator => Err(ConfigProblem::MissingSeparator(n)),
                LineMeaning::EmptyValue(k) => Err(ConfigProblem::EmptyValue(n, k)),
            },
        }
    }
}

/// What a configuration text sets, or its first bad line.
pub open spec fn parse_config_spec(content: Seq<char>) -> Result<ConfigFields, ConfigProblem> {
    let lines = split_lines(content);
    parse_lines(lines, lines.len())
}

/// A line of the configuration file that does not parse.
#[derive(Clone, Debug)]
pub enum ConfigParseError {
    /// The line (numbered from 1) has neither `=` nor `:`.
    MissingSeparator { line: usize },
    /// The line has an empty value for the key.
    EmptyValue { line: usize, key: String },
}

impl View for ConfigParseError {
    type V = ConfigProblem;

    open spec fn view(&self) -> ConfigProblem {
        match *self {
            ConfigParseError::MissingSeparator { line } => ConfigProblem::MissingSeparator(line as nat),
            ConfigParseError::EmptyValue { line, key } => ConfigProblem::EmptyValue(line as nat, key@),
        }
    }
}

/// The message for a configuration problem.
pub open spec fn config_problem_message(p: ConfigProblem) -> Seq<char> {
    match p {
        ConfigProblem::MissingSeparator(n) => "line "@ + decimal(n) + " must use key=value or key: value"@,
        ConfigProblem::EmptyValue(n, k) => "line "@ + decimal(n) + " has an empty value for "@ + k,
    }
}

impl ConfigParseError {
    /// The message for this problem.
    pub fn message(&self) -> (s: String)
        ensures
            s@ == config_problem_message(self@),
    {
        let mut out: Vec<char> = Vec::new();
        push_str(&mut out, "line ");
        match self {
            ConfigParseError::MissingSeparator { line } => {
                let n = decimal_chars(*line as u64);
                push_all(&mut out, n.as_slice());
                push_str(&mut out, " must use key=value or key: value");
            },
            ConfigParseError::EmptyValue { line, key } => {
                let n = decimal_chars(*line as u64);
                push_all(&mut out, n.as_slice());
                push_str(&mut out, " has an empty value for ");
                push_str(&mut out, key.as_str());
            },
        }
        string_of(out.as_slice())
    }
}

/// A configuration file that does not parse: its path and the problem.
#[derive(Clone, Debug)]
pub struct ConfigLoadError {
    pub path: String,
    pub cause: ConfigParseError,
}

impl ConfigLoadError {
    /// `failed to parse <path>`.
    pub fn message(&self) -> (s: String)
        ensures
            s@ == "failed to parse "@ + self.path@,
    {
        let mut out: Vec<char> = Vec::new();
        push_str(&mut out, "failed to parse ");
        push_str(&mut out, self.path.as_str());
        string_of(out.as_slice())
    }
}

/// Splits `key=value` or `key: value` at the first `=` or `:`.
pub fn split_key_value(line: &[char]) -> (r: Option<(Vec<char>, Vec<char>)>)
    ensures
        match r {
            Some((k, v)) => split_key_value_spec(line@) == Some((k@, v@)),
            None => split_key_value_spec(line@) is None,
        },
{
    let n = line.len();
    let sep = match (find_char(line, '='), find_char(line, ':')) {
        (Some(e), Some(c)) => if e < c {
            e
        } else {
            c
        },
        (Some(e), None) => e,
        (None, Some(c)) => c,
        (None, None) => return None,
    };
    let key = copy_range(line, 0, sep);
    let value = copy_range(line, sep + 1, n);
    assert(key@ =~= line@.take(sep as int));
    assert(value@ =~= line@.skip(sep + 1));
    Some((key, value))
}

/// The exec form of [`LineMeaning`].
pub enum LineResult {
    Blank,
    Username(Vec<char>),
    Password(Vec<char>),
    Unknown,
    MissingSeparator,
    EmptyValue(Vec<char>),
}

impl View for LineResult {
    type V = LineMeaning;

    open spec fn view(&self) -> LineMeaning {
        match *self {
            LineResult::Blank => LineMeaning::Blank,
            LineResult::Username(v) => LineMeaning::Username(v@),
            LineResult::Password(v) => LineMeaning::Password(v@),
            LineResult::Unknown => LineMeaning::Unknown,
            LineResult::MissingSeparator => LineMeaning::MissingSeparator,
            LineResult::EmptyValue(k) => LineMeaning::EmptyValue(k@),
        }
    }
}

fn classify_line(raw: &[char]) -> (r: LineResult)
    ensures
        r@ == line_meaning(raw@),
{
    let line = trimmed(raw);
    if line.len() == 0 || line[0] == '#' {
        return LineResult::Blank;
    }
    let (k, v) = match split_key_value(line.as_slice()) {
        None => return LineResult::MissingSeparator,
        Some(kv) => kv,
    };
    let k = trimmed(k.as_slice());
    let key = to_ascii_lowercase(k.as_slice());
    let value = trimmed(v.as_slice());
    if value.len() == 0 {
        return LineResult::EmptyValue(key);
    }
    let username = chars_of("username");
    let user = chars_of("user");
    let password = chars_of("password");
    let basic_auth_password = chars_of("basic_auth_password");
    if chars_equal(key.as_slice(), username.as_slice()) || chars_equal(key.as_slice(), user.as_slice()) {
        LineResult::Username(value)
    } else if chars_equal(key.as_slice(), password.as_slice()) || chars_equal(
        key.as_slice(),
        basic_auth_password.as_slice(),
    ) {
        LineResult::Password(value)
    } else {
        LineResult::Unknown
    }
}

/// Lines that agree on their first `n` items parse alike that far.
proof fn lemma_parse_lines_prefix(a: Seq<Seq<char>>, b: Seq<Seq<char>>, n: nat)
    requires
        n <= a.len(),
        n <= b.len(),
        a.take(n as int) == b.take(n as int),
    ensures
        parse_lines(a, n) == parse_lines(b, n),
    decreases n,
{
    if n > 0 {
        assert(a.take(n - 1) =~= a.take(n as int).take(n - 1));
        assert(b.take(n - 1) =~= b.take(n as int).take(n - 1));
        lemma_parse_lines_prefix(a, b, (n - 1) as nat);
        assert(a[n - 1] == a.take(n as int)[n - 1]);
        assert(b[n - 1] == b.take(n as int)[n - 1]);
    }
}

/// An error stays the result as more lines are read.
proof fn lemma_parse_lines_err(lines: Seq<Seq<char>>, k: nat, m: nat)
    requires
        k <= m,
        parse_lines(lines, k) is Err,
    ensures
        parse_lines(lines, m) == parse_lines(lines, k),
    decreases m - k,
{
    if k < m {
        lemma_parse_lines_err(lines, k, (m - 1) as nat);
    }
}

/// The lines completed within a prefix stay lines of the whole text.
proof fn lemma_split_lines_prefix(s: Seq<char>, j: nat, i: nat)
    requires
        j <= i <= s.len(),
    ensures
        split_lines(s.take(j as int)).len() <= split_lines(s.take(i as int)).len(),
        split_lines(s.take(j as int)).len() >= 1,
        split_lines(s.take(j as int)).take(split_lines(s.take(j as int)).len() - 1)
            == split_lines(s.take(i as int)).take(split_lines(s.take(j as int)).len() - 1),
    decreases i - j,
{
    lemma_split_lines_nonempty(s.take(j as int));
    if j < i {
        lemma_split_lines_prefix(s, j, (i - 1) as nat);
        let a = split_lines(s.take(j as int));
        let b = split_lines(s.take(i - 1));
        let c = split_lines(s.take(i as int));
        lemma_split_lines_nonempty(s.take(i - 1));
        assert(s.take(i as int).drop_last() =~= s.take(i - 1));
        let k = a.len() - 1;
        assert(c.take(k) =~= b.take(k));
    }
}

proof fn lemma_split_lines_nonempty(s: Seq<char>)
    ensures
        split_lines(s).len() >= 1,
    decreases s.len(),
{
    if s.len() > 0 {
        lemma_split_lines_nonempty(s.drop_last());
    }
}

/// A bad line ends the parse of the whole text with its error.
proof fn lemma_failed_line(s: Seq<char>, i: nat, line_no: nat)
    requires
        i <= s.len(),
        split_lines(s.take(i as int)).len() == line_no + 2,
        parse_lines(split_lines(s.take(i as int)), line_no + 1) is Err,
    ensures
        parse_config_spec(s) == parse_lines(split_lines(s.take(i as int)), line_no + 1),
{
    lemma_split_lines_prefix(s, i, s.len());
    assert(s.take(s.len() as int) =~= s);
    let a = split_lines(s.take(i as int));
    let full = split_lines(s);
    assert(a.take((line_no + 1) as int) =~= full.take((line_no + 1) as int));
    lemma_parse_lines_prefix(a, full, line_no + 1);
    lemma_parse_lines_err(full, line_no + 1, full.len());
}

/// Parses the configuration file text: lines of `key=value` or
/// `key: value`, with blank lines and `#` comments ignored.
pub fn parse_config_file(content: &str) -> (r: Result<ConfigFile, ConfigParseError>)
    ensures
        match parse_config_spec(content@) {
            Ok(f) => r matches Ok(c) && c.path@.len() == 0 && opt_text(c.username) == f.username
                && opt_text(c.password) == f.password,
            Err(p) => r matches Err(e) && e@ == p,
        },
{
    let chars = chars_of(content);
    let n = chars.len();
    let mut username: Option<String> = None;
    let mut password: Option<String> = None;
    let mut line_start: usize = 0;
    let mut line_no: usize = 0;
    let mut i: usize = 0;
    assert(chars@.take(0) =~= Seq::<char>::empty());
    while i < n
        invariant
            n == chars@.len(),
            chars@ == content@,
            line_start <= i <= n,
            line_no <= line_start,
            split_lines(chars@.take(i as int)).len() == line_no + 1,
            split_lines(chars@.take(i as int)).last() == chars@.subrange(
                line_start as int,
                i as int,
            ),
            parse_lines(split_lines(chars@.take(i as int)), line_no as nat) == Ok::<
                ConfigFields,
                ConfigProblem,
            >(ConfigFields { username: opt_text(username), password: opt_text(password) }),
        decreases n - i,
    {
        let ghost before = split_lines(chars@.take(i as int));
        assert(chars@.take(i + 1).drop_last() =~= chars@.take(i as int));
        assert(chars@.take(i + 1).last() == chars@[i as int]);
        if chars[i] == '\n' {
            let line = copy_range(chars.as_slice(), line_start, i);
            let meaning = classify_line(line.as_slice());
            let ghost after = split_lines(chars@.take(i + 1));
            proof {
                assert(after == before.push(seq![]));
                assert(after.take(line_no as int) =~= before.take(line_no as int));
                lemma_parse_lines_prefix(after, before, line_no as nat);
                assert(after[line_no as int] == before[line_no as int]);
            }
            match meaning {
                LineResult::Blank => {},
                LineResult::Unknown => {},
                LineResult::Username(v) => {
                    username = Some(string_of(v.as_slice()));
                },
                LineResult::Password(v) => {
                    password = Some(string_of(v.as_slice()));
                },
                LineResult::MissingSeparator => {
                    proof {
                        lemma_failed_line(chars@, (i + 1) as nat, line_no as nat);
                    }
                    return Err(ConfigParseError::MissingSeparator { line: line_no + 1 });
                },
                LineResult::EmptyValue(k) => {
                    let key = string_of(k.as_slice());
                    proof {
                        lemma_failed_line(chars@, (i + 1) as nat, line_no as nat);
                    }
                    return Err(ConfigParseError::EmptyValue { line: line_no + 1, key });
                },
            }
            line_start = i + 1;
            line_no = line_no + 1;
        } else {
            let ghost after = split_lines(chars@.take(i + 1));
            proof {
                assert(after.take(line_no as int) =~= before.take(line_no as int));
                lemma_parse_lines_prefix(after, before, line_no as nat);
                assert(chars@.subrange(line_start as int, i + 1) =~= chars@.subrange(
                    line_start as int,
                    i as int,
                ).push(chars@[i as int]));
            }
        }
        i = i + 1;
    }
    assert(chars@.take(n as int) =~= chars@);
    let line = copy_range(chars.as_slice(), line_start, n);
    let meaning = classify_line(line.as_slice());
    match meaning {
        LineResult::Blank => {},
        LineResult::Unknown => {},
        LineResult::Username(v) => {
            username = Some(string_of(v.as_slice()));
        },
        LineResult::Password(v) => {
            password = Some(string_of(v.as_slice()));
        },
        LineResult::MissingSeparator => {
            return Err(ConfigParseError::MissingSeparator { line: line_no + 1 });
        },
        LineResult::EmptyValue(k) => {
            return Err(ConfigParseError::EmptyValue { line: line_no + 1, key: string_of(k.as_slice()) });
        },
    }
    Ok(ConfigFile { path: String::new(), username, password })
}

impl ConfigFile {
    /// The configuration from the file's text, if there is a file; a file
    /// that does not parse is an error naming its path.
    pub fn load(source: Option<ConfigSource>) -> (r: Result<Option<ConfigFile>, ConfigLoadError>)
        ensures
            match source {
                None => r == Ok::<Option<ConfigFile>, ConfigLoadError>(None),
                Some(s) => match parse_config_spec(s.content@) {
                    Ok(f) => r matches Ok(Some(c)) && c.path == s.path && opt_text(c.username)
                        == f.username && opt_text(c.password) == f.password,
                    Err(p) => r matches Err(e) && e.path@ == s.path@ && e.cause@ == p,
                },
            },
    {
        let source = match source {
            None => return Ok(None),
            Some(s) => s,
        };
        match parse_config_file(source.content.as_str()) {
            Ok(mut config) => {
                config.path = source.path;
                Ok(Some(config))
            },
            Err(cause) => Err(ConfigLoadError { path: source.path, cause }),
        }
    }
}

// ---------------------------------------------------------------------------
// Laws
// ---------------------------------------------------------------------------

/// With Basic Auth off every request passes it.
pub proof fn lemma_disabled_auth_allows_all(h: HeadersView)
    ensures
        (BasicAuth { credentials: None }).spec_allows(h),
{
}

/// With Basic Auth on, a request without an `Authorization` header is
/// refused.
pub proof fn lemma_enabled_auth_needs_authorization(c: BasicAuthCredentials, h: HeadersView)
    requires
        h.authorization is None,
    ensures
        !(BasicAuth { credentials: Some(c) }).spec_allows(h),
{
}

/// A configured password turns Basic Auth on, whatever the default; without
/// one it is on exactly when the default requires it.
pub proof fn lemma_configured_password_enables_auth(default_requires_auth: bool)
    ensures
        basic_auth_enabled(default_requires_auth, true),
        basic_auth_enabled(default_requires_auth, false) == default_requires_auth,
{
}

/// With the dangerous flag Basic Auth stays on, whatever the listener, the
/// CORS origin and the configuration file.
pub proof fn lemma_dangerous_mode_keeps_auth(
    listener_loopback: bool,
    cors_origin: Option<Seq<u8>>,
    config: Option<ConfigView>,
    a: BasicAuth,
)
    requires
        auth_for_config(config, spec_default_requires_auth(listener_loopback, cors_origin, true), a),
    ensures
        a.credentials is Some,
{
}

/// The credentials match only a header that starts with `Basic ` and is
/// visible ASCII.
pub proof fn lemma_authorization_shape(header: Seq<u8>, username: Seq<char>, password: Seq<char>)
    requires
        authorization_matches(Some(header), username, password),
    ensures
        header.take(6) == basic_prefix(),
        all_visible_ascii(header),
{
}

/// Once a line of the configuration is bad, no later line matters.
pub proof fn lemma_config_error_is_final(lines: Seq<Seq<char>>, k: nat, m: nat)
    requires
        k <= m,
        parse_lines(lines, k) is Err,
    ensures
        parse_lines(lines, m) == parse_lines(lines, k),
{
    lemma_parse_lines_err(lines, k, m);
}

/// A later setting of the user name or password replaces an earlier one:
/// after a good line, the configuration holds what that line sets.
pub proof fn lemma_config_last_setting_wins(lines: Seq<Seq<char>>, n: nat)
    requires
        0 < n <= lines.len(),
        parse_lines(lines, (n - 1) as nat) is Ok,
    ensures
        line_meaning(lines[n - 1]) matches LineMeaning::Username(v) ==> (parse_lines(lines, n) matches Ok(
            f,
        ) && f.username == Some(v)),
        line_meaning(lines[n - 1]) matches LineMeaning::Password(v) ==> (parse_lines(lines, n) matches Ok(
            f,
        ) && f.password == Some(v)),
{
}

/// What `find_first` finds: the first position that holds `x`.
proof fn lemma_find_first_found<T>(s: Seq<T>, x: T)
    ensures
        find_first(s, x) matches Some(i) ==> i < s.len() && s[i as int] == x && forall|j: int|
            0 <= j < i ==> s[j] != x,
        find_first(s, x) is None ==> forall|j: int| 0 <= j < s.len() ==> s[j] != x,
    decreases s.len(),
{
    if s.len() > 0 {
        lemma_find_first_found(s.drop_first(), x);
        if s[0] != x {
            assert forall|j: int| 0 < j < s.len() implies s[j] == s.drop_first()[j - 1] by {}
        }
    }
}

/// A password line gives its value as it stands, whatever characters it
/// holds (a `#` in it included): the line `password = v`, with `v` not
/// starting or ending in whitespace, sets the password to exactly `v`.
#[verifier::spinoff_prover]
pub proof fn lemma_password_line_keeps_value(v: Seq<char>)
    requires
        v.len() > 0,
        !is_unicode_whitespace(v[0]),
        !is_unicode_whitespace(v.last()),
    ensures
        line_meaning("password = "@ + v) == LineMeaning::Password(v),
{
    reveal_strlit("password = ");
    reveal_strlit("password");
    reveal_strlit("username");
    reveal_strlit("user");
    let p = "password = "@;
    let line = p + v;
    assert(line[0] == 'p');
    assert(line.last() == v.last());
    assert(trim_start(line) == line);
    assert(trim_end(line) == line);
    assert(trim(line) == line);
    assert forall|j: int| 0 <= j < 9 implies line[j] != '=' by {}
    assert(line[9] == '=');
    lemma_find_first(line, '=', 9);
    lemma_find_first_found(line, ':');
    assert forall|j: int| 0 <= j < 11 implies line[j] != ':' by {}
    let k = line.take(9);
    assert(k =~= "password "@) by {
        reveal_strlit("password ");
    }
    reveal_strlit("password ");
    assert(trim_start(k) == k);
    assert(k.drop_last() =~= "password"@);
    assert(trim_end(k) == trim_end(k.drop_last()));
    assert(trim_end("password"@) == "password"@);
    assert(trim(k) == "password"@);
    assert(ascii_lower("password"@) =~= "password"@);
    let rest = line.skip(10);
    assert(rest =~= seq![' '] + v);
    assert(rest.drop_first() =~= v);
    assert(trim_start(rest) == trim_start(v));
    assert(trim_start(v) == v);
    assert(trim_end(v) == v);
    assert(trim(rest) == v);
    assert("password"@ != "username"@) by {
        assert("password"@[0] != "username"@[0]);
    }
    assert("password"@ != "user"@) by {
        assert("password"@[0] != "user"@[0]);
    }
}

/// The UTF-8 encoding of a concatenation is the concatenation of the
/// encodings.
proof fn lemma_encode_utf8_concat(a: Seq<char>, b: Seq<char>)
    ensures
        encode_utf8(a + b) == encode_utf8(a) + encode_utf8(b),
    decreases a.len(),
{
    if a.len() > 0 {
        assert((a + b).drop_first() =~= a.drop_first() + b);
        lemma_encode_utf8_concat(a.drop_first(), b);
        assert(encode_utf8(a + b) == encode_scalar((a + b)[0] as u32) + encode_utf8(
            (a + b).drop_first(),
        ));
    } else {
        assert(a + b =~= b);
    }
}

/// A character other than `:` has no byte `:` in its UTF-8 encoding.
proof fn lemma_scalar_without_colon(c: char)
    requires
        c != ':',
    ensures
        forall|j: int| 0 <= j < encode_scalar(c as u32).len() ==> #[trigger] encode_scalar(c as u32)[j] != 58u8,
{
    let s = c as u32;
    vstd::utf8::char_is_scalar(c);
    if s == 58 {
        vstd::utf8::char_u32_cast(c, s);
        assert(c == ':');
    }
    if has_width_1_encoding(s) {
        assert((s & 0x7F) as u8 != 58u8) by (bit_vector)
            requires
                s <= 0x7F,
                s != 58,
        ;
    } else {
        assert(leading_byte_width_2(s) != 58u8) by (bit_vector);
        assert(leading_byte_width_3(s) != 58u8) by (bit_vector);
        assert(leading_byte_width_4(s) != 58u8) by (bit_vector);
        assert(last_continuation_byte(s) != 58u8) by (bit_vector);
        assert(second_last_continuation_byte(s) != 58u8) by (bit_vector);
        assert(third_last_continuation_byte(s) != 58u8) by (bit_vector);
    }
}

/// Text without `:` has no byte `:` in its UTF-8 encoding.
proof fn lemma_utf8_without_colon(u: Seq<char>)
    requires
        !u.contains(':'),
    ensures
        forall|j: int| 0 <= j < encode_utf8(u).len() ==> #[trigger] encode_utf8(u)[j] != 58u8,
    decreases u.len(),
{
    if u.len() > 0 {
        assert(u[0] != ':');
        assert(!u.drop_first().contains(':')) by {
            if u.drop_first().contains(':') {
                let k = choose|k: int| 0 <= k < u.drop_first().len() && u.drop_first()[k] == ':';
                assert(u[k + 1] == ':');
            }
        }
        lemma_scalar_without_colon(u[0]);
        lemma_utf8_without_colon(u.drop_first());
        let head = encode_scalar(u[0] as u32);
        let tail = encode_utf8(u.drop_first());
        assert(encode_utf8(u) == head + tail);
        assert forall|j: int| 0 <= j < encode_utf8(u).len() implies #[trigger] encode_utf8(u)[j]
            != 58u8 by {
            if j < head.len() {
                assert(encode_utf8(u)[j] == head[j]);
            } else {
                assert(encode_utf8(u)[j] == tail[j - head.len()]);
            }
        }
    }
}

/// A base64 character: `A`-`Z`, `a`-`z`, `0`-`9`, `+`, `/` or the padding
/// `=`.
pub open spec fn is_base64_byte(b: u8) -> bool {
    (65 <= b <= 90) || (97 <= b <= 122) || (48 <= b <= 57) || b == 43 || b == 47 || b == 61
}

/// The credentials pass whatever text they hold: for a user name without
/// `:` and any password, `Basic ` followed by base64 text that decodes to
/// the UTF-8 bytes of `user:password` presents those credentials.
#[verifier::spinoff_prover]
pub proof fn lemma_encoded_credentials_pass(
    encoded: Seq<u8>,
    username: Seq<char>,
    password: Seq<char>,
)
    requires
        !username.contains(':'),
        forall|i: int| 0 <= i < encoded.len() ==> is_base64_byte(#[trigger] encoded[i]),
        base64_standard_decode(encoded) == Some(encode_utf8(username + seq![':'] + password)),
    ensures
        authorization_matches(
            Some(seq![66u8, 97, 115, 105, 99, 32] + encoded),
            username,
            password,
        ),
{
    let header = seq![66u8, 97, 115, 105, 99, 32] + encoded;
    assert(header.take(6) =~= basic_prefix());
    assert(header.skip(6) =~= encoded);
    assert forall|i: int| 0 <= i < header.len() implies is_visible_ascii(#[trigger] header[i]) by {
        if i >= 6 {
            assert(header[i] == encoded[i - 6]);
        }
    }
    let eu = encode_utf8(username);
    let ep = encode_utf8(password);
    lemma_encode_utf8_concat(username + seq![':'], password);
    lemma_encode_utf8_concat(username, seq![':']);
    assert(seq![':'].drop_first() =~= Seq::<char>::empty());
    assert(encode_utf8(seq![':']) =~= seq![58u8]) by {
        let c: u32 = 58;
        assert((':' as u32) == c);
        assert(has_width_1_encoding(c));
        assert((c & 0x7F) as u8 == 58u8) by (bit_vector)
            requires
                c == 58,
        ;
        assert(encode_scalar(c) == seq![58u8]);
        assert(encode_utf8(seq![':']) == encode_scalar(c) + encode_utf8(seq![':'].drop_first()));
        assert(encode_utf8(Seq::<char>::empty()) == Seq::<u8>::empty());
    }
    let d = encode_utf8(username + seq![':'] + password);
    assert(d =~= eu + seq![58u8] + ep);
    vstd::utf8::encode_utf8_valid_utf8(username + seq![':'] + password);
    lemma_utf8_without_colon(username);
    assert forall|j: int| 0 <= j < eu.len() implies d[j] != 58u8 by {
        assert(d[j] == eu[j]);
    }
    lemma_find_first(d, 58u8, eu.len());
    assert(d.take(eu.len() as int) =~= eu);
    assert(d.skip((eu.len() + 1) as int) =~= ep);
}

/// The keys that the configuration file knows.
pub open spec fn is_setting_key(key: Seq<char>) -> bool {
    key == "username"@ || key == "user"@ || key == "password"@ || key == "basic_auth_password"@
}

/// A known key is a word of small letters and `_`: no whitespace, no `=`,
/// no `:` and no `#` in it.
proof fn lemma_setting_key_chars(key: Seq<char>)
    requires
        is_setting_key(key),
    ensures
        key.len() > 0,
        forall|j: int| 0 <= j < key.len() ==> ('a' <= #[trigger] key[j] <= 'z' || key[j] == '_'),
{
    reveal_strlit("username");
    reveal_strlit("user");
    reveal_strlit("password");
    reveal_strlit("basic_auth_password");
}

/// A setting line gives its value as it stands, whatever characters it
/// holds: `key = v` or `key : v`, for each known key, with `v` not starting
/// or ending in whitespace, sets the user name (for `username` and `user`)
/// or the password (for `password` and `basic_auth_password`) to exactly
/// `v`.
#[verifier::spinoff_prover]
pub proof fn lemma_setting_line_keeps_value(key: Seq<char>, sep: char, v: Seq<char>)
    requires
        is_setting_key(key),
        sep == '=' || sep == ':',
        v.len() > 0,
        !is_unicode_whitespace(v[0]),
        !is_unicode_whitespace(v.last()),
    ensures
        line_meaning(key + seq![' ', sep, ' '] + v) == if key == "username"@ || key == "user"@ {
            LineMeaning::Username(v)
        } else {
            LineMeaning::Password(v)
        },
{
    reveal_strlit("username");
    reveal_strlit("user");
    reveal_strlit("password");
    reveal_strlit("basic_auth_password");
    lemma_setting_key_chars(key);
    let n: int = key.len() as int;
    let line = key + seq![' ', sep, ' '] + v;
    assert(line[0] == key[0]);
    assert(line.last() == v.last());
    assert(trim_start(line) == line);
    assert(trim_end(line) == line);
    assert(trim(line) == line);
    assert(line[0] != '#');
    assert forall|j: int| 0 <= j <= n implies line[j] != '=' && line[j] != ':' by {
        if j < n {
            assert(line[j] == key[j]);
        }
    }
    assert(line[n + 1] == sep);
    let other = if sep == '=' {
        ':'
    } else {
        '='
    };
    lemma_find_first(line, sep, (n + 1) as nat);
    lemma_find_first_found(line, other);
    assert(split_key_value_spec(line) == Some((line.take(n + 1), line.skip(n + 2))));
    let k = line.take(n + 1);
    assert(k =~= key.push(' '));
    assert(k.drop_last() =~= key);
    assert(trim_start(k) == k);
    assert(trim_end(k) == trim_end(k.drop_last()));
    assert(trim_end(key) == key);
    assert(trim(k) == key);
    assert(ascii_lower(key) =~= key);
    let rest = line.skip(n + 2);
    assert(rest =~= seq![' '] + v);
    assert(rest.drop_first() =~= v);
    assert(trim_start(rest) == trim_start(v));
    assert(trim_start(v) == v);
    assert(trim_end(v) == v);
    assert(trim(rest) == v);
    assert("password"@ != "username"@) by {
        assert("password"@[0] != "username"@[0]);
    }
    assert("basic_auth_password"@ != "username"@) by {
        assert("basic_auth_password"@[0] != "username"@[0]);
    }
    assert("password"@ != "user"@) by {
        assert("password"@[0] != "user"@[0]);
    }
    assert("basic_auth_password"@ != "user"@) by {
        assert("basic_auth_password"@[0] != "user"@[0]);
    }
}

} // verus!

