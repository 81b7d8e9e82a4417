//! Opening terminal windows in the user's browser: the URLs of the server
//! and of a channel, and the call that hands a URL to the browser.
use vstd::prelude::*;

use crate::ip::{ip_text, IpAddress, IpModel};
use crate::text::{chars_of, decimal, decimal_chars, push_all, push_str, string_of};

verus! {

/// The host part of the server's URL: a loopback address in place of the
/// unspecified one, and IPv6 addresses in brackets.
pub open spec fn browser_host(ip: IpModel) -> Seq<char> {
    if ip.is_unspecified() {
        match ip {
            IpModel::V4(_) => "127.0.0.1"@,
            IpModel::V6(_) => "[::1]"@,
        }
    } else {
        match ip {
            IpModel::V4(_) => ip_text(ip),
            IpModel::V6(_) => seq!['['] + ip_text(ip) + seq![']'],
        }
    }
}

/// `http://<host>:<port>`.
pub open spec fn base_url(ip: IpModel, port: u16) -> Seq<char> {
    "http://"@ + browser_host(ip) + seq![':'] + decimal(port as nat)
}

/// A URL that could not be opened.
#[derive(Debug)]
pub struct BrowserError {
    pub url: String,
    /// What the system reported.
    pub reason: String,
}

impl BrowserError {
    /// `failed to open <url>`.
    pub fn message(&self) -> (s: String)
        ensures
            s@ == "failed to open "@ + self.url@,
    {
        let mut out: Vec<char> = Vec::new();
        push_str(&mut out, "failed to open ");
        push_str(&mut out, self.url.as_str());
        string_of(out.as_slice())
    }
}

/// Calls `open::that(url)` of `open`, which hands the URL to the system's
/// default browser, and turns a failure into its message.
///
/// Claims nothing of the outcome: it rests on the system.
#[verifier::external_body]
fn open_in_browser(url: &str) -> (r: Result<(), String>) {
    open::that(url).map_err(|e| e.to_string())
}

/// What opening `url` comes to, given what the system reported: `Ok` when
/// the browser took it, otherwise an error naming the URL and the reason.
pub fn open_outcome(url: &str, outcome: Result<(), String>) -> (r: Result<(), BrowserError>)
    ensures
        match outcome {
            Ok(()) => r is Ok,
            Err(reason) => r matches Err(e) && e.url@ == url@ && e.reason == reason,
        },
{
    match outcome {
        Ok(()) => Ok(()),
        Err(reason) => Err(BrowserError { url: url.to_string(), reason }),
    }
}

/// What opening a channel's page comes to: its URL when the page opened,
/// the error otherwise.
pub fn channel_open_result(url: String, opened: Result<(), BrowserError>) -> (r: Result<
    String,
    BrowserError,
>)
    ensures
        match opened {
            Ok(()) => r == Ok::<String, BrowserError>(url),
            Err(e) => r == Err::<String, BrowserError>(e),
        },
{
    match opened {
        Ok(()) => Ok(url),
        Err(e) => Err(e),
    }
}

fn browser_host_chars(ip: &IpAddress) -> (out: Vec<char>)
    ensures
        out@ == browser_host(ip@),
{
    if ip.is_unspecified() {
        match ip {
            IpAddress::V4(_) => chars_of("127.0.0.1"),
            IpAddress::V6(_) => chars_of("[::1]"),
        }
    } else {
        match ip {
            IpAddress::V4(_) => ip.text(),
            IpAddress::V6(_) => {
                let mut out: Vec<char> = Vec::new();
                out.push('[');
                let t = ip.text();
                push_all(&mut out, t.as_slice());
                out.push(']');
                out
            },
        }
    }
}

/// Opens URLs of this server in the browser.
#[derive(Clone, Debug)]
pub struct BrowserLauncher {
    pub base_url: String,
}

impl BrowserLauncher {
    /// The launcher for a server listening on `ip` and `port`.
    pub fn new(ip: IpAddress, port: u16) -> (b: BrowserLauncher)
        ensures
            b.base_url@ == base_url(ip@, port),
    {
        let mut out: Vec<char> = Vec::new();
        push_str(&mut out, "http://");
        let host = browser_host_chars(&ip);
        push_all(&mut out, host.as_slice());
        out.push(':');
        let p = decimal_chars(port as u64);
        push_all(&mut out, p.as_slice());
        BrowserLauncher { base_url: string_of(out.as_slice()) }
    }

    /// The URL of the page without a channel.
    pub open spec fn spec_root_url(&self) -> Seq<char> {
        self.base_url@ + seq!['/']
    }

    /// The URL of the page for a channel.
    pub open spec fn spec_channel_url(&self, channel: Seq<char>) -> Seq<char> {
        self.base_url@ + "/?channel="@ + channel
    }

    /// `<base>/`.
    pub fn root_url(&self) -> (s: String)
        ensures
            s@ == self.spec_root_url(),
    {
        let mut out = chars_of(self.base_url.as_str());
        out.push('/');
        string_of(out.as_slice())
    }

    fn open_url(&self, url: &str) -> (r: Result<(), BrowserError>)
        ensures
            r matches Err(e) ==> e.url@ == url@,
    {
        let outcome = open_in_browser(url);
        open_outcome(url, outcome)
    }

    /// Opens the page without a channel.
    pub fn open_root(&self) -> (r: Result<(), BrowserError>)
        ensures
            r matches Err(e) ==> e.url@ == self.spec_root_url(),
    {
        let url = self.root_url();
        self.open_url(url.as_str())
    }

    /// The URL of the page for a channel.
    pub fn channel_url(&self, channel: &str) -> (s: String)
        ensures
            s@ == self.spec_channel_url(channel@),
    {
        let mut out = chars_of(self.base_url.as_str());
        push_str(&mut out, "/?channel=");
        push_str(&mut out, channel);
        string_of(out.as_slice())
    }

    /// Opens the page for a channel and gives its URL.
    pub fn open_channel(&self, channel: &str) -> (r: Result<String, BrowserError>)
        ensures
            match r {
                Ok(url) => url@ == self.spec_channel_url(channel@),
                Err(e) => e.url@ == self.spec_channel_url(channel@),
            },
    {
        let url = self.channel_url(channel);
        let opened = self.open_url(url.as_str());
        channel_open_result(url, opened)
    }
}

} // verus!
