//! The terminal session behind a WebSocket: the size of the pseudo
//! terminal, the shell it runs, and what each event of the session leads
//! to.
use vstd::prelude::*;

verus! {

/// The size of a pseudo terminal.
#[derive(Clone, Copy, Debug, PartialEq, Eq)]
pub struct TerminalSize {
    pub rows: u16,
    pub cols: u16,
    pub pixel_width: u16,
    pub pixel_height: u16,
}

/// The size a session starts with: 24 rows of 80 columns.
pub fn initial_size() -> (s: TerminalSize)
    ensures
        s == (TerminalSize { rows: 24, cols: 80, pixel_width: 0, pixel_height: 0 }),
{
    TerminalSize { rows: 24, cols: 80, pixel_width: 0, pixel_height: 0 }
}

/// A control message from the browser (JSON `{"type": "resize", ...}`).
#[derive(Clone, Copy, Debug, PartialEq, Eq)]
pub enum ClientMessage {
    Resize { cols: u16, rows: u16 },
}

/// `v` brought into `lo..=hi`.
pub open spec fn clamp(v: u16, lo: u16, hi: u16) -> u16 {
    if v < lo {
        lo
    } else if v > hi {
        hi
    } else {
        v
    }
}

fn clamp_u16(v: u16, lo: u16, hi: u16) -> (r: u16)
    requires
        lo <= hi,
    ensures
        r == clamp(v, lo, hi),
{
    if v < lo {
        lo
    } else if v > hi {
        hi
    } else {
        v
    }
}

/// The size a resize message asks for, each side kept within 2 to 512.
pub fn resize_size(message: &ClientMessage) -> (s: TerminalSize)
    ensures
        match *message {
            ClientMessage::Resize { cols, rows } => s == (TerminalSize {
                rows: clamp(rows, 2, 512),
                cols: clamp(cols, 2, 512),
                pixel_width: 0,
                pixel_height: 0,
            }),
        },
{
    match message {
        ClientMessage::Resize { cols, rows } => TerminalSize {
            rows: clamp_u16(*rows, 2, 512),
            cols: clamp_u16(*cols, 2, 512),
            pixel_width: 0,
            pixel_height: 0,
        },
    }
}

/// The resize that a text message asks for: none unless it parsed as a
/// control message.
pub fn resize_request(message: Option<ClientMessage>) -> (r: Option<TerminalSize>)
    ensures
        match message {
            None => r is None,
            Some(ClientMessage::Resize { cols, rows }) => r == Some(
                TerminalSize {
                    rows: clamp(rows, 2, 512),
                    cols: clamp(cols, 2, 512),
                    pixel_width: 0,
                    pixel_height: 0,
                },
            ),
        },
{
    match message {
        None => None,
        Some(m) => Some(resize_size(&m)),
    }
}

/// Something that happened in a session.
#[derive(Debug)]
pub enum SocketEvent {
    /// The shell wrote these bytes.
    PtyOutput(Vec<u8>),
    /// The shell's output ended.
    PtyClosed,
    /// The browser sent binary data.
    Binary(Vec<u8>),
    /// The browser sent text: its bytes, and the control message it is, if
    /// it parses as one.
    Text { bytes: Vec<u8>, message: Option<ClientMessage> },
    /// The browser closed the socket.
    Close,
    Ping,
    Pong,
    /// Reading from the socket failed.
    ReceiveError,
    /// The socket's stream ended.
    ClientGone,
}

/// What to do about an event. Where the bytes cannot be delivered, or the
/// resize fails, the session ends too.
#[derive(Debug, PartialEq, Eq)]
pub enum SocketAction {
    /// Send these bytes to the browser.
    ToClient(Vec<u8>),
    /// Write these bytes to the shell.
    ToPty(Vec<u8>),
    /// Resize the pseudo terminal.
    Resize(TerminalSize),
    /// Nothing to do.
    Ignore,
    /// End the session.
    Stop,
}

/// The action for an event: output goes to the browser, input to the
/// shell, a text control message resizes the terminal, pings and pongs
/// are ignored, and the end of either side or an error stops the session.
pub fn socket_step(event: SocketEvent) -> (a: SocketAction)
    ensures
        match event {
            SocketEvent::PtyOutput(b) => a == SocketAction::ToClient(b),
            SocketEvent::Binary(b) => a == SocketAction::ToPty(b),
            SocketEvent::Text { bytes, message } => match message {
                Some(ClientMessage::Resize { cols, rows }) => a == SocketAction::Resize(
                    TerminalSize {
                        rows: clamp(rows, 2, 512),
                        cols: clamp(cols, 2, 512),
                        pixel_width: 0,
                        pixel_height: 0,
                    },
                ),
                None => a == SocketAction::ToPty(bytes),
            },
            SocketEvent::Ping => a == SocketAction::Ignore,
            SocketEvent::Pong => a == SocketAction::Ignore,
            _ => a == SocketAction::Stop,
        },
{
    match event {
        SocketEvent::PtyOutput(b) => SocketAction::ToClient(b),
        SocketEvent::PtyClosed => SocketAction::Stop,
        SocketEvent::Binary(b) => SocketAction::ToPty(b),
        SocketEvent::Text { bytes, message } => match resize_request(message) {
            Some(size) => SocketAction::Resize(size),
            None => SocketAction::ToPty(bytes),
        },
        SocketEvent::Close => SocketAction::Stop,
        SocketEvent::Ping => SocketAction::Ignore,
        SocketEvent::Pong => SocketAction::Ignore,
        SocketEvent::ReceiveError => SocketAction::Stop,
        SocketEvent::ClientGone => SocketAction::Stop,
    }
}

/// What a read from the pseudo terminal gave.
#[derive(Clone, Copy, Debug, PartialEq, Eq)]
pub enum ReadOutcome {
    /// This many bytes; none at the end of the output.
    Data(usize),
    /// The read was interrupted by a signal.
    Interrupted,
    /// Any other error.
    Failed,
}

/// What the reader does next.
#[derive(Clone, Copy, Debug, PartialEq, Eq)]
pub enum ReadStep {
    /// Forward the bytes read, then read again.
    Forward(usize),
    /// Read again.
    Retry,
    /// Stop reading.
    Stop,
}

/// The reader's next step: forward what was read, retry an interrupted
/// read, stop at the end (a read of nothing) or on an error.
pub fn pty_read_step(outcome: ReadOutcome) -> (s: ReadStep)
    ensures
        match outcome {
            ReadOutcome::Data(n) => s == if n == 0 {
                ReadStep::Stop
            } else {
                ReadStep::Forward(n)
            },
            ReadOutcome::Interrupted => s == ReadStep::Retry,
            ReadOutcome::Failed => s == ReadStep::Stop,
        },
{
    match outcome {
        ReadOutcome::Data(n) => if n == 0 {
            ReadStep::Stop
        } else {
            ReadStep::Forward(n)
        },
        ReadOutcome::Interrupted => ReadStep::Retry,
        ReadOutcome::Failed => ReadStep::Stop,
    }
}

/// The shell that a session runs.
#[derive(Debug)]
pub struct ShellCommand {
    pub program: String,
    /// Environment variables set for the shell.
    pub env: Vec<(String, String)>,
    /// The directory it starts in, if any.
    pub cwd: Option<String>,
}

/// The shell command: `$SHELL` (or `/bin/sh`), with `TERM=xterm-256color`
/// and `COLORTERM=truecolor`, started in the home directory when there is
/// one.
pub fn shell_command(shell_env: Option<String>, home: Option<String>) -> (c: ShellCommand)
    ensures
        c.program@ == match shell_env {
            Some(s) => s@,
            None => "/bin/sh"@,
        },
        c.env@.len() == 2,
        c.env@[0].0@ == "TERM"@ && c.env@[0].1@ == "xterm-256color"@,
        c.env@[1].0@ == "COLORTERM"@ && c.env@[1].1@ == "truecolor"@,
        c.cwd == home,
{
    let program = match shell_env {
        Some(s) => s,
        None => "/bin/sh".to_string(),
    };
    let mut env: Vec<(String, String)> = Vec::new();
    env.push(("TERM".to_string(), "xterm-256color".to_string()));
    env.push(("COLORTERM".to_string(), "truecolor".to_string()));
    ShellCommand { program, env, cwd: home }
}

/// A resized terminal has between 2 and 512 rows and columns.
pub proof fn lemma_resize_within_bounds(cols: u16, rows: u16)
    ensures
        2 <= clamp(cols, 2, 512) <= 512,
        2 <= clamp(rows, 2, 512) <= 512,
        2 <= cols <= 512 ==> clamp(cols, 2, 512) == cols,
{
}

} // verus!
