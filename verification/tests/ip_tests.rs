use browser_terminal::ip::IpAddress;

fn text(a: &IpAddress) -> String {
    a.text().into_iter().collect()
}

#[test]
fn parses_ipv4_addresses() {
    assert_eq!(IpAddress::parse("127.0.0.1"), Some(IpAddress::V4([127, 0, 0, 1])));
    assert_eq!(IpAddress::parse("255.255.255.255"), Some(IpAddress::V4([255, 255, 255, 255])));
    assert_eq!(IpAddress::parse("0.0.0.0"), Some(IpAddress::V4([0, 0, 0, 0])));
    assert_eq!(IpAddress::parse("256.0.0.1"), None);
    assert_eq!(IpAddress::parse("01.0.0.1"), None);
    assert_eq!(IpAddress::parse("1.2.3"), None);
    assert_eq!(IpAddress::parse("1.2.3.4.5"), None);
    assert_eq!(IpAddress::parse("1.2.3.4 "), None);
    assert_eq!(IpAddress::parse(""), None);
    assert_eq!(IpAddress::parse("localhost"), None);
}

#[test]
fn parses_ipv6_addresses() {
    assert_eq!(IpAddress::parse("::1"), Some(IpAddress::V6([0, 0, 0, 0, 0, 0, 0, 1])));
    assert_eq!(IpAddress::parse("::"), Some(IpAddress::V6([0; 8])));
    assert_eq!(
        IpAddress::parse("1:2:3:4:5:6:7:8"),
        Some(IpAddress::V6([1, 2, 3, 4, 5, 6, 7, 8]))
    );
    assert_eq!(
        IpAddress::parse("fe80::1:2"),
        Some(IpAddress::V6([0xfe80, 0, 0, 0, 0, 0, 1, 2]))
    );
    assert_eq!(
        IpAddress::parse("::ffff:1.2.3.4"),
        Some(IpAddress::V6([0, 0, 0, 0, 0, 0xffff, 0x0102, 0x0304]))
    );
    assert_eq!(
        IpAddress::parse("ABCD::"),
        Some(IpAddress::V6([0xabcd, 0, 0, 0, 0, 0, 0, 0]))
    );
    assert_eq!(IpAddress::parse("1:2:3:4:5:6:7:8:9"), None);
    assert_eq!(IpAddress::parse("1::2::3"), None);
    assert_eq!(IpAddress::parse("12345::"), None);
    assert_eq!(IpAddress::parse("1.2.3.4::"), None);
    assert_eq!(IpAddress::parse("[::1]"), None);
    assert_eq!(IpAddress::parse(":1"), None);
}

#[test]
fn classifies_addresses() {
    assert!(IpAddress::V4([127, 1, 2, 3]).is_loopback());
    assert!(!IpAddress::V4([126, 0, 0, 1]).is_loopback());
    assert!(IpAddress::V6([0, 0, 0, 0, 0, 0, 0, 1]).is_loopback());
    assert!(!IpAddress::V6([0, 0, 0, 0, 0, 0xffff, 0x7f00, 1]).is_loopback());
    assert!(IpAddress::V4([0, 0, 0, 0]).is_unspecified());
    assert!(IpAddress::V6([0; 8]).is_unspecified());
    assert!(!IpAddress::V6([0, 0, 0, 0, 0, 0, 0, 1]).is_unspecified());
}

#[test]
fn writes_canonical_text() {
    assert_eq!(text(&IpAddress::V4([10, 0, 255, 7])), "10.0.255.7");
    assert_eq!(text(&IpAddress::V6([0, 0, 0, 0, 0, 0, 0, 1])), "::1");
    assert_eq!(text(&IpAddress::V6([0; 8])), "::");
    assert_eq!(text(&IpAddress::V6([1, 0, 0, 2, 0, 0, 0, 3])), "1:0:0:2::3");
    assert_eq!(text(&IpAddress::V6([1, 0, 0, 2, 0, 0, 3, 4])), "1::2:0:0:3:4");
    assert_eq!(text(&IpAddress::V6([1, 0, 2, 3, 4, 5, 6, 7])), "1:0:2:3:4:5:6:7");
    assert_eq!(text(&IpAddress::V6([0xfe80, 0, 0, 0, 0xabc, 0, 0, 0])), "fe80::abc:0:0:0");
    assert_eq!(text(&IpAddress::V6([0, 0, 0, 0, 0, 0xffff, 0xc0a8, 0x0001])), "::ffff:192.168.0.1");
}
