use base64::Engine;
use browser_terminal::auth::{
    parse_config_file, split_key_value, BasicAuth, ConfigFile, ConfigParseError, ConfigSource,
    PasswordSource,
};
use browser_terminal::security::RequestHeaders;

fn basic_auth_header(username: &str, password: &str) -> Vec<u8> {
    let encoded =
        base64::engine::general_purpose::STANDARD.encode(format!("{username}:{password}"));
    format!("Basic {encoded}").into_bytes()
}

fn with_authorization(value: Vec<u8>) -> RequestHeaders {
    let mut h = RequestHeaders::new();
    h.authorization = Some(value);
    h
}

#[test]
fn basic_auth_accepts_expected_credentials() {
    let auth = BasicAuth::enabled_for_test("admin", "secret");
    let headers = with_authorization(basic_auth_header("admin", "secret"));

    assert!(auth.allows_headers(&headers));
}

#[test]
fn basic_auth_rejects_missing_credentials() {
    let auth = BasicAuth::enabled_for_test("admin", "secret");

    assert!(!auth.allows_headers(&RequestHeaders::new()));
}

#[test]
fn disabled_basic_auth_accepts_missing_credentials() {
    let auth = BasicAuth::disabled_for_test();

    assert!(auth.allows_headers(&RequestHeaders::new()));
}

#[test]
fn loopback_default_disables_auth_without_configured_password() {
    let auth = BasicAuth::from_config(None, false);

    assert!(auth.credentials().is_none());
}

#[test]
fn configured_password_enables_auth_even_when_loopback_default_is_disabled() {
    let auth = BasicAuth::from_config(
        Some(ConfigFile {
            path: "/tmp/test-browser-terminalrc".to_string(),
            username: Some("admin".to_string()),
            password: Some("fixed-password".to_string()),
        }),
        false,
    );

    assert!(auth.credentials().is_some());
    assert!(!auth.allows_headers(&RequestHeaders::new()));
}

#[test]
fn config_file_parses_key_value_auth_settings() {
    let config = parse_config_file(
        r#"
            # Browser Terminal
            username = admin
            password: fixed-password
            "#,
    )
    .unwrap();

    assert_eq!(config.username.as_deref(), Some("admin"));
    assert_eq!(config.password.as_deref(), Some("fixed-password"));
}

// ---------------------------------------------------------------------------

#[test]
fn wrong_password_or_user_is_refused() {
    let auth = BasicAuth::enabled_for_test("admin", "secret");
    assert!(!auth.allows_headers(&with_authorization(basic_auth_header("admin", "secreT"))));
    assert!(!auth.allows_headers(&with_authorization(basic_auth_header("root", "secret"))));
    assert!(!auth.allows_headers(&with_authorization(b"Bearer abc".to_vec())));
    assert!(!auth.allows_headers(&with_authorization(b"Basic !!!".to_vec())));
    let no_colon = base64::engine::general_purpose::STANDARD.encode("adminsecret");
    assert!(!auth.allows_headers(&with_authorization(format!("Basic {no_colon}").into_bytes())));
}

#[test]
fn password_may_contain_colons() {
    let auth = BasicAuth::enabled_for_test("admin", "a:b:c");
    assert!(auth.allows_headers(&with_authorization(basic_auth_header("admin", "a:b:c"))));
    let auth = BasicAuth::enabled_for_test("ad:min", "x");
    assert!(!auth.allows_headers(&with_authorization(basic_auth_header("ad:min", "x"))));
}

#[test]
fn non_utf8_credentials_are_refused() {
    let auth = BasicAuth::enabled_for_test("admin", "secret");
    let mut raw = b"admin:".to_vec();
    raw.push(0xff);
    let encoded = base64::engine::general_purpose::STANDARD.encode(raw);
    assert!(!auth.allows_headers(&with_authorization(format!("Basic {encoded}").into_bytes())));
}

#[test]
fn generated_password_when_required_without_config() {
    let auth = BasicAuth::from_config(None, true);
    let credentials = auth.credentials().unwrap();
    assert_eq!(credentials.username, "admin");
    assert_eq!(credentials.password.len(), 24);
    assert!(credentials.password.chars().all(|c| c.is_ascii_alphanumeric()));
    assert_eq!(credentials.password_source.describe(), "generated");
}

#[test]
fn configured_user_without_password_keeps_generated_password() {
    let config = ConfigFile {
        path: "/home/u/.browser-terminalrc".to_string(),
        username: Some("me".to_string()),
        password: None,
    };
    let auth = BasicAuth::from_config(Some(config.clone()), false);
    assert!(auth.credentials().is_none());
    let auth = BasicAuth::from_config(Some(config), true);
    let credentials = auth.credentials().unwrap();
    assert_eq!(credentials.username, "me");
    assert_eq!(credentials.password.len(), 24);
}

#[test]
fn configured_password_source_is_the_path() {
    let auth = BasicAuth::from_config(
        Some(ConfigFile {
            path: "/home/u/.browser-terminalrc".to_string(),
            username: None,
            password: Some("pw".to_string()),
        }),
        true,
    );
    let credentials = auth.credentials().unwrap();
    assert_eq!(credentials.username, "admin");
    assert_eq!(credentials.password, "pw");
    assert!(matches!(credentials.password_source, PasswordSource::Config(_)));
    assert_eq!(credentials.password_source.describe(), "/home/u/.browser-terminalrc");
}

#[test]
fn config_aliases_and_case() {
    let config = parse_config_file("USER=bob\nbasic_auth_password = hunter2\r\nother = x\n").unwrap();
    assert_eq!(config.username.as_deref(), Some("bob"));
    assert_eq!(config.password.as_deref(), Some("hunter2"));
    let config = parse_config_file("user=a\nusername=b").unwrap();
    assert_eq!(config.username.as_deref(), Some("b"));
    assert_eq!(config.password, None);
}

#[test]
fn config_first_separator_wins() {
    let config = parse_config_file("password = a:b=c").unwrap();
    assert_eq!(config.password.as_deref(), Some("a:b=c"));
    let config = parse_config_file("password: a=b").unwrap();
    assert_eq!(config.password.as_deref(), Some("a=b"));
}

#[test]
fn config_errors_name_the_line() {
    let err = parse_config_file("# c\n\nusername\n").unwrap_err();
    assert!(matches!(err, ConfigParseError::MissingSeparator { line: 3 }));
    assert_eq!(err.message(), "line 3 must use key=value or key: value");
    let err = parse_config_file("user = x\nPassword =   \n").unwrap_err();
    assert!(matches!(err, ConfigParseError::EmptyValue { line: 2, .. }));
    assert_eq!(err.message(), "line 2 has an empty value for password");
    let err = parse_config_file("unknown =").unwrap_err();
    assert_eq!(err.message(), "line 1 has an empty value for unknown");
}

#[test]
fn config_unicode_whitespace_is_trimmed() {
    let config = parse_config_file("\u{3000}username\u{a0}=\u{2003}zoë\u{85}").unwrap();
    assert_eq!(config.username.as_deref(), Some("zoë"));
}

#[test]
fn split_key_value_picks_first_separator() {
    let line: Vec<char> = "a:b=c".chars().collect();
    let (k, v) = split_key_value(&line).unwrap();
    assert_eq!(k.iter().collect::<String>(), "a");
    assert_eq!(v.iter().collect::<String>(), "b=c");
    let line: Vec<char> = "abc".chars().collect();
    assert!(split_key_value(&line).is_none());
}

#[test]
fn load_reads_the_config_text() {
    let auth = BasicAuth::load(None, false).unwrap();
    assert!(auth.credentials().is_none());
    let auth = BasicAuth::load(
        Some(ConfigSource {
            path: "/x/rc".to_string(),
            content: "password=pw\n".to_string(),
        }),
        false,
    )
    .unwrap();
    let credentials = auth.credentials().unwrap();
    assert_eq!(credentials.password, "pw");
    assert_eq!(credentials.password_source.describe(), "/x/rc");
    let err = BasicAuth::load(
        Some(ConfigSource {
            path: "/x/rc".to_string(),
            content: "nonsense\n".to_string(),
        }),
        false,
    )
    .unwrap_err();
    assert_eq!(err.message(), "failed to parse /x/rc");
    assert_eq!(err.cause.message(), "line 1 must use key=value or key: value");
}

#[test]
fn dangerous_mode_keeps_basic_auth() {
    let listener = browser_terminal::ip::IpAddress::parse("127.0.0.1").unwrap();
    let required = browser_terminal::security::default_requires_auth(&listener, None, true);
    let auth = BasicAuth::from_config(None, required);

    let credentials = auth.credentials().unwrap();
    assert_eq!(credentials.username, "admin");
    assert_eq!(credentials.password.len(), 24);
    assert!(!auth.allows_headers(&RequestHeaders::new()));
}
