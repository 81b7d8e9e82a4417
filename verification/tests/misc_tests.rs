use browser_terminal::assets::{asset_content_type, static_asset_path};
use browser_terminal::auth::BasicAuth;
use browser_terminal::guard::{basic_auth_challenge, guard_request, rejection, GuardDecision};
use browser_terminal::security::{RequestHeaders, SecurityPolicy};
use browser_terminal::terminal::{
    initial_size, pty_read_step, resize_request, shell_command, socket_step, ClientMessage,
    ReadOutcome, ReadStep, SocketAction, SocketEvent, TerminalSize,
};

#[test]
fn static_asset_path_maps_root_to_index() {
    let uri = "/".parse::<axum::http::Uri>().unwrap();

    assert_eq!(static_asset_path(uri.path()), Some("index.html".to_string()));
}

#[test]
fn static_asset_path_rejects_parent_segments() {
    let uri = "/../Cargo.toml".parse::<axum::http::Uri>().unwrap();

    assert_eq!(static_asset_path(uri.path()), None);
}

// ---------------------------------------------------------------------------

#[test]
fn static_asset_paths() {
    assert_eq!(static_asset_path("///app.js"), Some("app.js".to_string()));
    assert_eq!(static_asset_path("/js/socket.js"), Some("js/socket.js".to_string()));
    assert_eq!(static_asset_path("/js/./socket.js"), None);
    assert_eq!(static_asset_path("/js/.."), None);
    assert_eq!(static_asset_path("/a\\b"), None);
    assert_eq!(static_asset_path("/.hidden"), Some(".hidden".to_string()));
    assert_eq!(static_asset_path("/a/.../b"), Some("a/.../b".to_string()));
    assert_eq!(static_asset_path(""), Some("index.html".to_string()));
}

#[test]
fn content_types() {
    assert_eq!(asset_content_type("index.html"), "text/html");
    assert_eq!(asset_content_type("app.js"), "text/javascript");
    assert_eq!(asset_content_type("noext"), "application/octet-stream");
}

#[test]
fn guard_checks_policy_before_auth() {
    let security = SecurityPolicy::new(None, false, 3000);
    let auth = BasicAuth::enabled_for_test("admin", "secret");
    let mut h = RequestHeaders::new();
    h.host = Some(b"evil.example:3000".to_vec());
    assert_eq!(guard_request(&security, &auth, &h), GuardDecision::Forbidden);
    h.host = Some(b"localhost:3000".to_vec());
    assert_eq!(guard_request(&security, &auth, &h), GuardDecision::Unauthorized);
    let open = BasicAuth::disabled_for_test();
    assert_eq!(guard_request(&security, &open, &h), GuardDecision::Allow);
}

#[test]
fn rejections() {
    assert!(rejection(GuardDecision::Allow).is_none());
    let r = rejection(GuardDecision::Forbidden).unwrap();
    assert_eq!(r.status, 403);
    assert_eq!(r.body, "forbidden host or origin");
    let c = basic_auth_challenge();
    assert_eq!(c.status, 401);
    assert_eq!(
        c.www_authenticate.as_deref(),
        Some("Basic realm=\"Browser Terminal\", charset=\"UTF-8\"")
    );
    assert_eq!(c.body, "authentication required");
}

#[test]
fn resize_messages_are_clamped() {
    assert_eq!(
        resize_request(Some(ClientMessage::Resize { cols: 1, rows: 9000 })),
        Some(TerminalSize { rows: 512, cols: 2, pixel_width: 0, pixel_height: 0 })
    );
    assert_eq!(
        resize_request(Some(ClientMessage::Resize { cols: 100, rows: 40 })),
        Some(TerminalSize { rows: 40, cols: 100, pixel_width: 0, pixel_height: 0 })
    );
    assert_eq!(resize_request(None), None);
    assert_eq!(initial_size(), TerminalSize { rows: 24, cols: 80, pixel_width: 0, pixel_height: 0 });
}

#[test]
fn socket_events_lead_to_actions() {
    assert_eq!(socket_step(SocketEvent::PtyOutput(vec![1, 2])), SocketAction::ToClient(vec![1, 2]));
    assert_eq!(socket_step(SocketEvent::Binary(vec![3])), SocketAction::ToPty(vec![3]));
    assert_eq!(
        socket_step(SocketEvent::Text { bytes: b"ls\n".to_vec(), message: None }),
        SocketAction::ToPty(b"ls\n".to_vec())
    );
    assert_eq!(
        socket_step(SocketEvent::Text {
            bytes: b"{}".to_vec(),
            message: Some(ClientMessage::Resize { cols: 80, rows: 1 })
        }),
        SocketAction::Resize(TerminalSize { rows: 2, cols: 80, pixel_width: 0, pixel_height: 0 })
    );
    assert_eq!(socket_step(SocketEvent::Ping), SocketAction::Ignore);
    assert_eq!(socket_step(SocketEvent::Pong), SocketAction::Ignore);
    assert_eq!(socket_step(SocketEvent::Close), SocketAction::Stop);
    assert_eq!(socket_step(SocketEvent::PtyClosed), SocketAction::Stop);
    assert_eq!(socket_step(SocketEvent::ReceiveError), SocketAction::Stop);
    assert_eq!(socket_step(SocketEvent::ClientGone), SocketAction::Stop);
}

#[test]
fn reader_steps() {
    assert_eq!(pty_read_step(ReadOutcome::Data(0)), ReadStep::Stop);
    assert_eq!(pty_read_step(ReadOutcome::Data(5)), ReadStep::Forward(5));
    assert_eq!(pty_read_step(ReadOutcome::Interrupted), ReadStep::Retry);
    assert_eq!(pty_read_step(ReadOutcome::Failed), ReadStep::Stop);
}

#[test]
fn shell_command_defaults() {
    let c = shell_command(None, None);
    assert_eq!(c.program, "/bin/sh");
    assert_eq!(c.cwd, None);
    assert_eq!(
        c.env,
        vec![
            ("TERM".to_string(), "xterm-256color".to_string()),
            ("COLORTERM".to_string(), "truecolor".to_string())
        ]
    );
    let c = shell_command(Some("/bin/zsh".to_string()), Some("/home/u".to_string()));
    assert_eq!(c.program, "/bin/zsh");
    assert_eq!(c.cwd.as_deref(), Some("/home/u"));
}
