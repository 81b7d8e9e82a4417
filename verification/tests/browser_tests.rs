use browser_terminal::browser::BrowserLauncher;
use browser_terminal::ip::IpAddress;

#[test]
fn browser_url_uses_loopback_for_unspecified_ipv4_listener() {
    let launcher = BrowserLauncher::new(IpAddress::parse("0.0.0.0").unwrap(), 3000);

    assert_eq!(launcher.root_url(), "http://127.0.0.1:3000/");
}

#[test]
fn browser_url_brackets_ipv6_listener() {
    let launcher = BrowserLauncher::new(IpAddress::parse("::1").unwrap(), 3000);

    assert_eq!(launcher.root_url(), "http://[::1]:3000/");
}

// ---------------------------------------------------------------------------

#[test]
fn browser_url_for_other_listeners() {
    let launcher = BrowserLauncher::new(IpAddress::parse("::").unwrap(), 80);
    assert_eq!(launcher.root_url(), "http://[::1]:80/");
    let launcher = BrowserLauncher::new(IpAddress::V4([192, 168, 10, 200]), 65535);
    assert_eq!(launcher.root_url(), "http://192.168.10.200:65535/");
    let launcher = BrowserLauncher::new(IpAddress::parse("fe80::1:2").unwrap(), 3000);
    assert_eq!(launcher.base_url, "http://[fe80::1:2]:3000");
}
