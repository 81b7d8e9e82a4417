//! The "new window" request: open a new terminal window in the browser
//! that starts in the working directory of an existing session.
use vstd::prelude::*;

use crate::browser::{BrowserError, BrowserLauncher};
use crate::random::random_alphanumeric;
use crate::session::{SessionCwdError, SessionStore};
use crate::text::{chars_of, is_ascii_alphanumeric, push_all, push_str, string_of, trim, trim_bounds};

verus! {

/// A channel id made by the server: `server-` and 24 ASCII letters and
/// digits.
pub open spec fn is_server_channel_id(c: Seq<char>) -> bool {
    &&& c.len() == 31
    &&& c.take(7) == "server-"@
    &&& forall|i: int| 7 <= i < 31 ==> is_ascii_alphanumeric(#[trigger] c[i])
}

/// A fresh random channel id.
pub fn new_channel_id() -> (c: String)
    ensures
        is_server_channel_id(c@),
{
    let mut out = chars_of("server-");
    let suffix = random_alphanumeric(24);
    let tail = chars_of(suffix.as_str());
    push_all(&mut out, tail.as_slice());
    proof {
        reveal_strlit("server-");
        assert(out@.take(7) =~= "server-"@);
        assert forall|i: int| 7 <= i < 31 implies is_ascii_alphanumeric(#[trigger] out@[i]) by {
            assert(out@[i] == suffix@[i - 7]);
        }
    }
    string_of(out.as_slice())
}

/// The answer to a successful request: the new channel and its URL.
#[derive(Debug)]
pub struct NewWindowResponse {
    pub channel: String,
    pub url: String,
}

/// A refused request: the HTTP status and the message.
#[derive(Debug)]
pub struct ApiError {
    pub status: u16,
    pub message: String,
}

fn api_error(status: u16, message: &str) -> (e: ApiError)
    ensures
        e.status == status,
        e.message@ == message@,
{
    ApiError { status, message: message.to_string() }
}

fn api_error_with(status: u16, prefix: &str, detail: &str) -> (e: ApiError)
    ensures
        e.status == status,
        e.message@ == prefix@ + detail@,
{
    let mut out = chars_of(prefix);
    push_str(&mut out, detail);
    ApiError { status, message: string_of(out.as_slice()) }
}

/// Opens a new window whose shell starts where the shell of
/// `request_channel` is: `400` without a channel, `404` when no session is
/// open on it, `500` when its directory cannot be found or the browser
/// cannot be opened (the start directory is then dropped again). On success
/// the new channel's start directory is pending, and the answer names the
/// channel and its URL.
pub fn new_window<F: Fn(u32) -> Result<String, String>>(
    sessions: &mut SessionStore,
    browser: &BrowserLauncher,
    request_channel: &str,
    process_cwd: F,
) -> (r: Result<NewWindowResponse, ApiError>)
    requires
        old(sessions).wf(),
        forall|pid: u32| process_cwd.requires((pid,)),
    ensures
        final(sessions).wf(),
        final(sessions).active() == old(sessions).active(),
        trim(request_channel@).len() == 0 ==> {
            &&& r matches Err(e) && e.status == 400 && e.message@ == "channel is required"@
            &&& final(sessions).pending() == old(sessions).pending()
        },
        trim(request_channel@).len() > 0 && !old(sessions).active().contains_key(request_channel@)
            ==> {
            &&& r matches Err(e) && e.status == 404 && e.message@ == "session not found"@
            &&& final(sessions).pending() == old(sessions).pending()
        },
        trim(request_channel@).len() > 0 && old(sessions).active().contains_key(request_channel@)
            ==> {
            let pid = old(sessions).active()[request_channel@];
            match r {
                Ok(resp) => {
                    &&& is_server_channel_id(resp.channel@)
                    &&& resp.url@ == browser.spec_channel_url(resp.channel@)
                    &&& exists|dir: String|
                        #[trigger] process_cwd.ensures((pid,), Ok::<String, String>(dir))
                            && final(sessions).pending() == old(sessions).pending().insert(
                            resp.channel@,
                            dir,
                        )
                },
                Err(e) => e.status == 500 && ({
                    ||| exists|m: String|
                        #[trigger] process_cwd.ensures((pid,), Err::<String, String>(m))
                            && e.message@ == "failed to inspect session cwd: "@ + m@
                            && final(sessions).pending() == old(sessions).pending()
                    ||| (exists|dir: String|
                        #[trigger] process_cwd.ensures((pid,), Ok::<String, String>(dir)))
                        && exists|c: Seq<char>|
                        #[trigger] is_server_channel_id(c) && e.message@
                            == "failed to open browser window: "@ + ("failed to open "@
                            + browser.spec_channel_url(c)) && final(sessions).pending() == old(
                            sessions,
                        ).pending().remove(c)
                }),
            }
        },
{
    let requested = chars_of(request_channel);
    let (start, end) = trim_bounds(requested.as_slice());
    if start == end {
        return Err(api_error(400, "channel is required"));
    }
    let ghost before = old(sessions).pending();
    let ghost pid = old(sessions).active()[request_channel@];
    let start_dir = match sessions.cwd_for_channel(request_channel, process_cwd) {
        Ok(cwd) => cwd,
        Err(SessionCwdError::NotFound) => {
            return Err(api_error(404, "session not found"));
        },
        Err(SessionCwdError::LookupFailed(m)) => {
            let e = api_error_with(500, "failed to inspect session cwd: ", m.as_str());
            proof {
                assert(process_cwd.ensures((pid,), Err::<String, String>(m)));
            }
            return Err(e);
        },
    };
    proof {
        assert(process_cwd.ensures((pid,), Ok::<String, String>(start_dir)));
    }
    let channel = new_channel_id();
    sessions.set_start_dir(channel.clone(), start_dir.clone());
    let opened = browser.open_channel(channel.as_str());
    let r = finish_new_window(sessions, channel, opened);
    proof {
        if r is Err {
            assert(before.insert(channel@, start_dir).remove(channel@) =~= before.remove(channel@));
        }
    }
    r
}

/// The answer once the browser was asked to open the new channel's page:
/// with the page open, the new channel and its URL, the start directory
/// left pending; otherwise `500` naming the URL that could not be opened,
/// the start directory dropped again.
pub fn finish_new_window(
    sessions: &mut SessionStore,
    channel: String,
    opened: Result<String, BrowserError>,
) -> (r: Result<NewWindowResponse, ApiError>)
    requires
        old(sessions).wf(),
    ensures
        final(sessions).wf(),
        final(sessions).active() == old(sessions).active(),
        match opened {
            Ok(url) => {
                &&& r matches Ok(resp) && resp.channel@ == channel@ && resp.url@ == url@
                &&& final(sessions).pending() == old(sessions).pending()
            },
            Err(e) => {
                &&& r matches Err(x) && x.status == 500 && x.message@
                    == "failed to open browser window: "@ + ("failed to open "@ + e.url@)
                &&& final(sessions).pending() == old(sessions).pending().remove(channel@)
            },
        },
{
    match opened {
        Ok(url) => Ok(NewWindowResponse { channel, url }),
        Err(err) => {
            sessions.clear_start_dir(channel.as_str());
            let detail = err.message();
            Err(api_error_with(500, "failed to open browser window: ", detail.as_str()))
        },
    }
}

/// A channel id made by the server is safe in a URL: only ASCII letters,
/// digits and `-`.
pub proof fn lemma_server_channel_id_url_safe(c: Seq<char>)
    requires
        is_server_channel_id(c),
    ensures
        forall|i: int| 0 <= i < c.len() ==> is_ascii_alphanumeric(#[trigger] c[i]) || c[i] == '-',
{
    reveal_strlit("server-");
    assert forall|i: int| 0 <= i < c.len() implies is_ascii_alphanumeric(#[trigger] c[i]) || c[i]
        == '-' by {
        if i < 7 {
            assert(c[i] == c.take(7)[i]);
        }
    }
}

} // verus!
