use browser_terminal::browser::{channel_open_result, open_outcome};
use browser_terminal::api::{new_channel_id, new_window};
use browser_terminal::browser::BrowserLauncher;
use browser_terminal::ip::IpAddress;
use browser_terminal::session::{lsof_reported_cwd, split_lines_of, SessionCwdError, SessionStore};

fn cwd_of(process_id: u32) -> Result<String, String> {
    Ok(format!("/proc/{process_id}/cwd"))
}

#[test]
fn pending_start_dir_is_consumed_once() {
    let mut sessions = SessionStore::new();
    let channel = "next".to_string();
    let start_dir = "/tmp".to_string();

    sessions.set_start_dir(channel.clone(), start_dir.clone());

    assert_eq!(sessions.take_start_dir(&channel), Some(start_dir));
    assert_eq!(sessions.take_start_dir(&channel), None);
}

#[test]
fn active_session_unregister_requires_matching_process_id() {
    let mut sessions = SessionStore::new();
    let channel = "main".to_string();
    let process_id = 4242;

    sessions.register(channel.clone(), Some(process_id));
    sessions.unregister(&channel, Some(process_id + 1));
    assert!(sessions.cwd_for_channel(&channel, cwd_of).is_ok());

    sessions.unregister(&channel, Some(process_id));
    assert!(matches!(
        sessions.cwd_for_channel(&channel, cwd_of),
        Err(SessionCwdError::NotFound)
    ));
}

#[test]
fn generated_channel_ids_are_url_safe() {
    let channel = new_channel_id();

    assert!(channel.starts_with("server-"));
    assert!(channel
        .chars()
        .all(|character| character.is_ascii_alphanumeric() || character == '-'));
    assert_eq!(channel.len(), 31);
}

// ---------------------------------------------------------------------------

#[test]
fn register_without_process_id_records_nothing() {
    let mut sessions = SessionStore::new();
    sessions.register("a".to_string(), None);
    assert!(matches!(
        sessions.cwd_for_channel("a", cwd_of),
        Err(SessionCwdError::NotFound)
    ));
}

#[test]
fn cwd_lookup_passes_the_process_id_and_its_failure() {
    let mut sessions = SessionStore::new();
    sessions.register("a".to_string(), Some(7));
    assert_eq!(sessions.cwd_for_channel("a", cwd_of).unwrap(), "/proc/7/cwd");
    let failing = |pid: u32| -> Result<String, String> { Err(format!("no process {pid}")) };
    match sessions.cwd_for_channel("a", failing) {
        Err(SessionCwdError::LookupFailed(m)) => assert_eq!(m, "no process 7"),
        other => panic!("unexpected {other:?}"),
    }
}

#[test]
fn clear_and_replace_start_dirs() {
    let mut sessions = SessionStore::new();
    sessions.set_start_dir("c".to_string(), "/a".to_string());
    sessions.set_start_dir("c".to_string(), "/b".to_string());
    sessions.set_start_dir("d".to_string(), "/d".to_string());
    sessions.clear_start_dir("d");
    assert_eq!(sessions.take_start_dir("d"), None);
    assert_eq!(sessions.take_start_dir("c"), Some("/b".to_string()));
    assert_eq!(sessions.read_inner().pending_start_dirs.get("c"), None);
}

#[test]
fn newer_session_replaces_older_on_the_same_channel() {
    let mut sessions = SessionStore::new();
    sessions.register("m".to_string(), Some(1));
    sessions.register("m".to_string(), Some(2));
    sessions.unregister("m", Some(1));
    assert_eq!(sessions.cwd_for_channel("m", cwd_of).unwrap(), "/proc/2/cwd");
    sessions.unregister("m", None);
    assert!(sessions.cwd_for_channel("m", cwd_of).is_ok());
}

#[test]
fn new_window_refuses_missing_channel_and_unknown_session() {
    let mut sessions = SessionStore::new();
    let browser = BrowserLauncher::new(IpAddress::V4([127, 0, 0, 1]), 3000);
    let err = new_window(&mut sessions, &browser, "  \t", cwd_of).unwrap_err();
    assert_eq!(err.status, 400);
    assert_eq!(err.message, "channel is required");
    let err = new_window(&mut sessions, &browser, "main", cwd_of).unwrap_err();
    assert_eq!(err.status, 404);
    assert_eq!(err.message, "session not found");
}

#[test]
fn new_window_reports_cwd_lookup_failure() {
    let mut sessions = SessionStore::new();
    sessions.register("main".to_string(), Some(9));
    let browser = BrowserLauncher::new(IpAddress::V4([127, 0, 0, 1]), 3000);
    let failing = |_pid: u32| -> Result<String, String> { Err("gone".to_string()) };
    let err = new_window(&mut sessions, &browser, "main", failing).unwrap_err();
    assert_eq!(err.status, 500);
    assert_eq!(err.message, "failed to inspect session cwd: gone");
}

#[test]
fn lsof_output_names_the_cwd() {
    assert_eq!(
        lsof_reported_cwd("p4242\nfcwd\nn/Users/me/work\n"),
        Some("/Users/me/work".to_string())
    );
    assert_eq!(lsof_reported_cwd("p1\r\nfcwd\r\nn/tmp\r\n"), Some("/tmp".to_string()));
    assert_eq!(lsof_reported_cwd("n/first\nn/second\n"), Some("/first".to_string()));
    assert_eq!(lsof_reported_cwd("n"), Some(String::new()));
}

#[test]
fn lsof_output_without_name_field() {
    assert_eq!(lsof_reported_cwd(""), None);
    assert_eq!(lsof_reported_cwd("p1\nfcwd\n"), None);
    assert_eq!(lsof_reported_cwd("\nN/upper\n"), None);
}

#[test]
fn last_line_keeps_a_lone_carriage_return() {
    assert_eq!(lsof_reported_cwd("p1\nn/x\r"), Some("/x\r".to_string()));
}

#[test]
fn lines_are_split_at_newlines() {
    let chars: Vec<char> = "a\n\nbc\n".chars().collect();
    let lines: Vec<String> = split_lines_of(&chars)
        .into_iter()
        .map(|l| l.into_iter().collect())
        .collect();
    assert_eq!(lines, vec!["a", "", "bc", ""]);
}

#[test]
fn finishing_a_new_window_after_the_browser_opened() {
    let mut sessions = SessionStore::new();
    sessions.set_start_dir("server-x".to_string(), "/tmp".to_string());
    let url = "http://127.0.0.1:3000/?channel=server-x".to_string();

    let resp = browser_terminal::api::finish_new_window(&mut sessions, "server-x".to_string(), Ok(url.clone()))
        .unwrap();

    assert_eq!(resp.channel, "server-x");
    assert_eq!(resp.url, url);
    assert_eq!(sessions.take_start_dir("server-x"), Some("/tmp".to_string()));
}

#[test]
fn finishing_a_new_window_after_the_browser_failed() {
    let mut sessions = SessionStore::new();
    sessions.set_start_dir("server-x".to_string(), "/tmp".to_string());
    let err = browser_terminal::browser::BrowserError {
        url: "http://127.0.0.1:3000/?channel=server-x".to_string(),
        reason: "no browser".to_string(),
    };

    let e = browser_terminal::api::finish_new_window(&mut sessions, "server-x".to_string(), Err(err))
        .err()
        .unwrap();

    assert_eq!(e.status, 500);
    assert_eq!(
        e.message,
        "failed to open browser window: failed to open http://127.0.0.1:3000/?channel=server-x"
    );
    assert_eq!(sessions.take_start_dir("server-x"), None);
}

#[test]
fn browser_outcomes_map_to_results() {
    assert!(open_outcome("http://a/", Ok(())).is_ok());
    let e = open_outcome("http://a/", Err("boom".to_string())).err().unwrap();
    assert_eq!(e.url, "http://a/");
    assert_eq!(e.reason, "boom");
    assert_eq!(e.message(), "failed to open http://a/");

    assert_eq!(channel_open_result("u".to_string(), Ok(())).unwrap(), "u");
    let again = channel_open_result("u".to_string(), Err(e)).err().unwrap();
    assert_eq!(again.url, "http://a/");

    let launcher = BrowserLauncher::new(IpAddress::parse("0.0.0.0").unwrap(), 3000);
    assert_eq!(launcher.channel_url("main"), "http://127.0.0.1:3000/?channel=main");
}
