//! IPv4 and IPv6 addresses: the textual grammar that `str::parse::<IpAddr>`
//! accepts, the loopback and unspecified classes, and the canonical text
//! (RFC 5952 for IPv6, with IPv4-mapped addresses written `::ffff:a.b.c.d`).
use vstd::prelude::*;
use vstd::string::StringSliceAdditionalSpecFns;

use crate::text::{decimal, decimal_chars, push_all, push_str};

verus! {

/// An IPv4 address (four octets) or an IPv6 address (eight segments).
#[derive(Clone, Copy, Debug, PartialEq, Eq)]
pub enum IpAddress {
    V4([u8; 4]),
    V6([u16; 8]),
}

/// The model of an [`IpAddress`]: its octets or its segments.
pub enum IpModel {
    V4(Seq<u8>),
    V6(Seq<u16>),
}

impl View for IpAddress {
    type V = IpModel;

    open spec fn view(&self) -> IpModel {
        match *self {
            IpAddress::V4(o) => IpModel::V4(o@),
            IpAddress::V6(s) => IpModel::V6(s@),
        }
    }
}

// ---------------------------------------------------------------------------
// Grammar
// ---------------------------------------------------------------------------

/// The value of the digit `b` in base `radix` (10 or 16), if it is one.
pub open spec fn digit_value(b: u8, radix: nat) -> Option<nat> {
    if 48 <= b <= 57 {
        Some((b - 48) as nat)
    } else if radix == 16 && 97 <= b <= 102 {
        Some((b - 87) as nat)
    } else if radix == 16 && 65 <= b <= 70 {
        Some((b - 55) as nat)
    } else {
        None
    }
}

/// The number of digits in base `radix` that follow position `pos`.
pub open spec fn run_len(s: Seq<u8>, pos: nat, radix: nat) -> nat
    decreases s.len() - pos,
{
    if pos < s.len() && digit_value(s[pos as int], radix) is Some {
        1 + run_len(s, pos + 1, radix)
    } else {
        0
    }
}

/// The value of the `n` digits at position `pos`, in base `radix`.
pub open spec fn run_value(s: Seq<u8>, pos: nat, n: nat, radix: nat) -> nat
    decreases n,
{
    if n == 0 {
        0
    } else {
        run_value(s, pos, (n - 1) as nat, radix) * radix + digit_value(
            s[pos + n - 1],
            radix,
        ).unwrap()
    }
}

/// A number at position `pos`: all the digits there, at least one and at
/// most `max_digits`, of value at most `max_value`, and, unless
/// `allow_zero_prefix`, no leading zero before further digits. Gives the
/// value and the position after the digits.
pub open spec fn number_at(
    s: Seq<u8>,
    pos: nat,
    radix: nat,
    max_digits: nat,
    max_value: nat,
    allow_zero_prefix: bool,
) -> Option<(nat, nat)> {
    let n = run_len(s, pos, radix);
    let v = run_value(s, pos, n, radix);
    if n == 0 || n > max_digits || v > max_value || (!allow_zero_prefix && s[pos as int] == 48
        && n > 1) {
        None
    } else {
        Some((v, pos + n))
    }
}

/// A decimal octet of an IPv4 address: one to three digits, at most 255,
/// no leading zero.
pub open spec fn octet_at(s: Seq<u8>, pos: nat) -> Option<(nat, nat)> {
    number_at(s, pos, 10, 3, 255, false)
}

/// A hexadecimal group of an IPv6 address: one to four digits.
pub open spec fn hex_group_at(s: Seq<u8>, pos: nat) -> Option<(nat, nat)> {
    number_at(s, pos, 16, 4, 65535, true)
}

/// Whether the byte at `pos` is `b`.
pub open spec fn byte_at(s: Seq<u8>, pos: nat, b: u8) -> bool {
    pos < s.len() && s[pos as int] == b
}

/// An IPv4 address at `pos`: four octets separated by dots. Gives the
/// octets and the position after them.
pub open spec fn ipv4_at(s: Seq<u8>, pos: nat) -> Option<(Seq<u8>, nat)> {
    match octet_at(s, pos) {
        None => None,
        Some((a, p1)) => if !byte_at(s, p1, 46) {
            None
        } else {
            match octet_at(s, p1 + 1) {
                None => None,
                Some((b, p2)) => if !byte_at(s, p2, 46) {
                    None
                } else {
                    match octet_at(s, p2 + 1) {
                        None => None,
                        Some((c, p3)) => if !byte_at(s, p3, 46) {
                            None
                        } else {
                            match octet_at(s, p3 + 1) {
                                None => None,
                                Some((d, p4)) => Some(
                                    (seq![a as u8, b as u8, c as u8, d as u8], p4),
                                ),
                            }
                        },
                    }
                },
            }
        },
    }
}

/// The position where the `i`-th item of a `sep`-separated list starts
/// when the previous one ended at `pos`.
pub open spec fn item_start(s: Seq<u8>, pos: nat, i: nat, sep: u8) -> Option<nat> {
    if i == 0 {
        Some(pos)
    } else if byte_at(s, pos, sep) {
        Some(pos + 1)
    } else {
        None
    }
}

/// The groups of an IPv6 address read from `pos` on, as items `i`, `i + 1`,
/// ... of a colon-separated list of at most `limit` groups; while at least
/// two groups are left, an embedded IPv4 address may stand for the last
/// two. Gives the groups, the position after them, and whether an IPv4
/// address ended the list.
pub open spec fn groups_at(s: Seq<u8>, pos: nat, i: nat, limit: nat) -> (Seq<u16>, nat, bool)
    decreases limit - i,
{
    if i >= limit {
        (seq![], pos, false)
    } else {
        match item_start(s, pos, i, 58) {
            None => (seq![], pos, false),
            Some(start) => if i + 1 < limit && ipv4_at(s, start) is Some {
                let (o, end) = ipv4_at(s, start).unwrap();
                (seq![(o[0] as nat * 256 + o[1] as nat) as u16, (o[2] as nat * 256 + o[3] as nat) as u16], end, true)
            } else {
                match hex_group_at(s, start) {
                    None => (seq![], pos, false),
                    Some((g, end)) => {
                        let rest = groups_at(s, end, i + 1, limit);
                        (seq![g as u16] + rest.0, rest.1, rest.2)
                    },
                }
            },
        }
    }
}

/// `n` zero segments.
pub open spec fn zeros(n: nat) -> Seq<u16> {
    Seq::new(n, |i: int| 0u16)
}

/// An IPv6 address at the start of `s`: eight groups, or the groups before
/// a `::` (with no embedded IPv4 address among them), and after it at most
/// `7 - head` groups, the `::` standing for the zeros between. Gives the
/// segments and the position after them.
pub open spec fn ipv6_at(s: Seq<u8>) -> Option<(Seq<u16>, nat)> {
    let (head, hpos, head_v4) = groups_at(s, 0, 0, 8);
    if head.len() == 8 {
        Some((head, hpos))
    } else if head_v4 {
        None
    } else if byte_at(s, hpos, 58) && byte_at(s, hpos + 1, 58) {
        let limit = (8 - (head.len() + 1)) as nat;
        let (tail, tpos, tail_v4) = groups_at(s, hpos + 2, 0, limit);
        Some((head + zeros((8 - head.len() - tail.len()) as nat) + tail, tpos))
    } else {
        None
    }
}

/// `str::parse::<IpAddr>` on the bytes `s`: an IPv4 address if one starts
/// the text, else an IPv6 address, and either must take the whole text.
pub open spec fn parse_ip_spec(s: Seq<u8>) -> Option<IpModel> {
    match ipv4_at(s, 0) {
        Some((o, end)) => if end == s.len() {
            Some(IpModel::V4(o))
        } else {
            None
        },
        None => match ipv6_at(s) {
            Some((g, end)) => if end == s.len() {
                Some(IpModel::V6(g))
            } else {
                None
            },
            None => None,
        },
    }
}

// ---------------------------------------------------------------------------
// Parsing
// ---------------------------------------------------------------------------

/// `16^n`.
pub open spec fn pow16(n: nat) -> nat
    decreases n,
{
    if n == 0 {
        1
    } else {
        16 * pow16((n - 1) as nat)
    }
}

proof fn lemma_run_len_split(s: Seq<u8>, pos: nat, k: nat, radix: nat)
    requires
        pos + k <= s.len(),
        forall|j: int| pos <= j < pos + k ==> digit_value(#[trigger] s[j], radix) is Some,
    ensures
        run_len(s, pos, radix) == k + run_len(s, pos + k, radix),
    decreases k,
{
    if k > 0 {
        lemma_run_len_split(s, pos + 1, (k - 1) as nat, radix);
    }
}

fn digit_of(b: u8, radix: u8) -> (r: Option<u32>)
    requires
        radix == 10 || radix == 16,
    ensures
        r matches Some(d) ==> digit_value(b, radix as nat) == Some(d as nat) && d < radix,
        r is None ==> digit_value(b, radix as nat) is None,
{
    if 48 <= b && b <= 57 {
        Some((b - 48) as u32)
    } else if radix == 16 && 97 <= b && b <= 102 {
        Some((b - 87) as u32)
    } else if radix == 16 && 65 <= b && b <= 70 {
        Some((b - 55) as u32)
    } else {
        None
    }
}

fn read_number(
    s: &[u8],
    pos: usize,
    radix: u8,
    max_digits: usize,
    max_value: u32,
    allow_zero_prefix: bool,
) -> (r: Option<(u32, usize)>)
    requires
        pos <= s@.len(),
        radix == 10 || radix == 16,
        1 <= max_digits <= 4,
    ensures
        r matches Some((v, e)) ==> number_at(
            s@,
            pos as nat,
            radix as nat,
            max_digits as nat,
            max_value as nat,
            allow_zero_prefix,
        ) == Some((v as nat, e as nat)) && e <= s@.len(),
        r is None ==> number_at(
            s@,
            pos as nat,
            radix as nat,
            max_digits as nat,
            max_value as nat,
            allow_zero_prefix,
        ) is None,
{
    let n = s.len();
    let mut count: usize = 0;
    let mut value: u32 = 0;
    loop
        invariant_except_break
            pos <= n == s@.len(),
            radix == 10 || radix == 16,
            1 <= max_digits <= 4,
            count <= max_digits,
            pos + count <= n,
            forall|j: int| pos <= j < pos + count ==> digit_value(#[trigger] s@[j], radix as nat) is Some,
            value as nat == run_value(s@, pos as nat, count as nat, radix as nat),
            value < pow16(count as nat),
        ensures
            pos + count <= n,
            count <= max_digits,
            forall|j: int| pos <= j < pos + count ==> digit_value(#[trigger] s@[j], radix as nat) is Some,
            value as nat == run_value(s@, pos as nat, count as nat, radix as nat),
            pos + count == n || digit_value(s@[pos + count], radix as nat) is None,
        decreases n - (pos + count),
    {
        if pos + count >= n {
            break;
        }
        let d = match digit_of(s[pos + count], radix) {
            Some(d) => d,
            None => {
                break;
            },
        };
        if count == max_digits {
            proof {
                lemma_run_len_split(s@, pos as nat, count as nat, radix as nat);
                assert(run_len(s@, (pos + count) as nat, radix as nat) >= 1);
            }
            return None;
        }
        assert(value * (radix as u32) + d < pow16((count + 1) as nat)) by (nonlinear_arith)
            requires
                value < pow16(count as nat),
                pow16((count + 1) as nat) == 16 * pow16(count as nat),
                radix <= 16,
                d < radix,
        ;
        assert(pow16((count + 1) as nat) <= 65536) by {
            assert(pow16(0) == 1);
            assert(pow16(1) == 16);
            assert(pow16(2) == 256);
            assert(pow16(3) == 4096);
            assert(pow16(4) == 65536);
        }
        value = value * (radix as u32) + d;
        count = count + 1;
    }
    proof {
        lemma_run_len_split(s@, pos as nat, count as nat, radix as nat);
    }
    if count == 0 {
        return None;
    }
    if value > max_value {
        return None;
    }
    if !allow_zero_prefix && s[pos] == 48 && count > 1 {
        return None;
    }
    Some((value, pos + count))
}

fn read_octet(s: &[u8], pos: usize) -> (r: Option<(u8, usize)>)
    requires
        pos <= s@.len(),
    ensures
        r matches Some((v, e)) ==> octet_at(s@, pos as nat) == Some((v as nat, e as nat)) && e
            <= s@.len(),
        r is None ==> octet_at(s@, pos as nat) is None,
{
    match read_number(s, pos, 10, 3, 255, false) {
        Some((v, e)) => Some((v as u8, e)),
        None => None,
    }
}

fn is_byte_at(s: &[u8], pos: usize, b: u8) -> (r: bool)
    ensures
        r == byte_at(s@, pos as nat, b),
        r ==> pos < s@.len() <= usize::MAX,
{
    pos < s.len() && s[pos] == b
}

fn read_ipv4(s: &[u8], pos: usize) -> (r: Option<([u8; 4], usize)>)
    requires
        pos <= s@.len(),
    ensures
        r matches Some((o, e)) ==> ipv4_at(s@, pos as nat) == Some((o@, e as nat)) && e <= s@.len(),
        r is None ==> ipv4_at(s@, pos as nat) is None,
{
    let (a, p1) = match read_octet(s, pos) {
        Some(x) => x,
        None => return None,
    };
    if !is_byte_at(s, p1, 46) {
        return None;
    }
    let (b, p2) = match read_octet(s, p1 + 1) {
        Some(x) => x,
        None => return None,
    };
    if !is_byte_at(s, p2, 46) {
        return None;
    }
    let (c, p3) = match read_octet(s, p2 + 1) {
        Some(x) => x,
        None => return None,
    };
    if !is_byte_at(s, p3, 46) {
        return None;
    }
    let (d, p4) = match read_octet(s, p3 + 1) {
        Some(x) => x,
        None => return None,
    };
    let o: [u8; 4] = [a, b, c, d];
    assert(o@ =~= seq![a, b, c, d]);
    Some((o, p4))
}

fn read_item_start(s: &[u8], pos: usize, i: usize, sep: u8) -> (r: Option<usize>)
    requires
        pos <= s@.len(),
    ensures
        r matches Some(p) ==> item_start(s@, pos as nat, i as nat, sep) == Some(p as nat)
            && p <= s@.len(),
        r is None ==> item_start(s@, pos as nat, i as nat, sep) is None,
{
    if i == 0 {
        Some(pos)
    } else if is_byte_at(s, pos, sep) {
        Some(pos + 1)
    } else {
        None
    }
}

fn read_groups(s: &[u8], pos: usize, i: usize, limit: usize) -> (r: (Vec<u16>, usize, bool))
    requires
        pos <= s@.len(),
        i <= limit <= 8,
    ensures
        r.0@ == groups_at(s@, pos as nat, i as nat, limit as nat).0,
        r.1 as nat == groups_at(s@, pos as nat, i as nat, limit as nat).1,
        r.2 == groups_at(s@, pos as nat, i as nat, limit as nat).2,
        r.1 <= s@.len(),
        r.0@.len() <= limit - i,
    decreases limit - i,
{
    if i >= limit {
        return (Vec::new(), pos, false);
    }
    let start = match read_item_start(s, pos, i, 58) {
        Some(p) => p,
        None => return (Vec::new(), pos, false),
    };
    if i + 1 < limit {
        if let Some((o, end)) = read_ipv4(s, start) {
            let hi: u16 = (o[0] as u16) * 256 + (o[1] as u16);
            let lo: u16 = (o[2] as u16) * 256 + (o[3] as u16);
            let mut v: Vec<u16> = Vec::new();
            v.push(hi);
            v.push(lo);
            assert(v@ =~= seq![hi, lo]);
            return (v, end, true);
        }
    }
    match read_number(s, start, 16, 4, 65535, true) {
        None => (Vec::new(), pos, false),
        Some((g, end)) => {
            let (mut rest, rpos, rv4) = read_groups(s, end, i + 1, limit);
            let mut v: Vec<u16> = Vec::new();
            v.push(g as u16);
            v.append(&mut rest);
            (v, rpos, rv4)
        },
    }
}

fn read_ipv6(s: &[u8]) -> (r: Option<([u16; 8], usize)>)
    ensures
        r matches Some((g, e)) ==> ipv6_at(s@) == Some((g@, e as nat)),
        r is None ==> ipv6_at(s@) is None,
{
    let (head, hpos, head_v4) = read_groups(s, 0, 0, 8);
    let mut all: Vec<u16> = Vec::new();
    if head.len() == 8 {
        all = head;
    } else if head_v4 {
        return None;
    } else if is_byte_at(s, hpos, 58) && is_byte_at(s, hpos + 1, 58) {
        let limit = 8 - (head.len() + 1);
        let (tail, tpos, _tail_v4) = read_groups(s, hpos + 2, 0, limit);
        let nz = 8 - head.len() - tail.len();
        all = head;
        let mut k: usize = 0;
        while k < nz
            invariant
                all@ == groups_at(s@, 0, 0, 8).0 + zeros(k as nat),
                k <= nz,
            decreases nz - k,
        {
            all.push(0);
            assert(zeros((k + 1) as nat) =~= zeros(k as nat).push(0));
            k = k + 1;
        }
        let mut t = tail;
        all.append(&mut t);
        assert(all@.len() == 8);
        let g: [u16; 8] = [all[0], all[1], all[2], all[3], all[4], all[5], all[6], all[7]];
        assert(g@ =~= all@);
        return Some((g, tpos));
    } else {
        return None;
    }
    let g: [u16; 8] = [all[0], all[1], all[2], all[3], all[4], all[5], all[6], all[7]];
    assert(g@ =~= all@);
    Some((g, hpos))
}

/// Parses an IPv4 or IPv6 address from the bytes `s`, as
/// `str::parse::<IpAddr>` does.
pub fn parse_ip(s: &[u8]) -> (r: Option<IpAddress>)
    ensures
        r matches Some(a) ==> parse_ip_spec(s@) == Some(a@),
        r is None ==> parse_ip_spec(s@) is None,
{
    match read_ipv4(s, 0) {
        Some((o, end)) => if end == s.len() {
            Some(IpAddress::V4(o))
        } else {
            None
        },
        None => match read_ipv6(s) {
            Some((g, end)) => if end == s.len() {
                Some(IpAddress::V6(g))
            } else {
                None
            },
            None => None,
        },
    }
}

// ---------------------------------------------------------------------------
// Classes of addresses
// ---------------------------------------------------------------------------

impl IpModel {
    /// `IpAddr::is_loopback`: `127.0.0.0/8` for IPv4, `::1` for IPv6.
    pub open spec fn is_loopback(self) -> bool {
        match self {
            IpModel::V4(o) => o[0] == 127,
            IpModel::V6(g) => g == seq![0u16, 0, 0, 0, 0, 0, 0, 1],
        }
    }

    /// `IpAddr::is_unspecified`: `0.0.0.0` for IPv4, `::` for IPv6.
    pub open spec fn is_unspecified(self) -> bool {
        match self {
            IpModel::V4(o) => o == seq![0u8, 0, 0, 0],
            IpModel::V6(g) => g == seq![0u16, 0, 0, 0, 0, 0, 0, 0],
        }
    }
}

impl IpAddress {
    /// Parses an IPv4 or IPv6 address the way `str::parse::<IpAddr>` does.
    pub fn parse(text: &str) -> (r: Option<IpAddress>)
        ensures
            r matches Some(a) ==> parse_ip_spec(text.spec_bytes()) == Some(a@),
            r is None ==> parse_ip_spec(text.spec_bytes()) is None,
    {
        parse_ip(text.as_bytes())
    }

    /// Whether this is a loopback address.
    pub fn is_loopback(&self) -> (r: bool)
        ensures
            r == self@.is_loopback(),
    {
        match self {
            IpAddress::V4(o) => o[0] == 127,
            IpAddress::V6(g) => {
                let r = g[0] == 0 && g[1] == 0 && g[2] == 0 && g[3] == 0 && g[4] == 0 && g[5] == 0
                    && g[6] == 0 && g[7] == 1;
                proof {
                    if r {
                        assert(g@ =~= seq![0u16, 0, 0, 0, 0, 0, 0, 1]);
                    }
                }
                r
            },
        }
    }

    /// Whether this is the unspecified address.
    pub fn is_unspecified(&self) -> (r: bool)
        ensures
            r == self@.is_unspecified(),
    {
        match self {
            IpAddress::V4(o) => {
                let r = o[0] == 0 && o[1] == 0 && o[2] == 0 && o[3] == 0;
                proof {
                    if r {
                        assert(o@ =~= seq![0u8, 0, 0, 0]);
                    }
                }
                r
            },
            IpAddress::V6(g) => {
                let r = g[0] == 0 && g[1] == 0 && g[2] == 0 && g[3] == 0 && g[4] == 0 && g[5] == 0
                    && g[6] == 0 && g[7] == 0;
                proof {
                    if r {
                        assert(g@ =~= seq![0u16, 0, 0, 0, 0, 0, 0, 0]);
                    }
                }
                r
            },
        }
    }

    /// The text of this address, as `Display` for `IpAddr` writes it.
    pub fn text(&self) -> (out: Vec<char>)
        ensures
            out@ == ip_text(self@),
    {
        match self {
            IpAddress::V4(o) => ipv4_chars(o[0], o[1], o[2], o[3]),
            IpAddress::V6(g) => ipv6_chars(g),
        }
    }
}

// ---------------------------------------------------------------------------
// Text
// ---------------------------------------------------------------------------

/// Dotted decimal notation of the octets `o`.
pub open spec fn ipv4_text(o: Seq<u8>) -> Seq<char> {
    decimal(o[0] as nat) + seq!['.'] + decimal(o[1] as nat) + seq!['.'] + decimal(o[2] as nat)
        + seq!['.'] + decimal(o[3] as nat)
}

/// A hexadecimal digit, small letters for ten to fifteen.
pub open spec fn hex_digit_char(d: nat) -> char {
    if d < 10 {
        ((d + 48) as u8) as char
    } else {
        ((d + 87) as u8) as char
    }
}

/// Hexadecimal notation of `v` without leading zeros (`{:x}`).
pub open spec fn hex_text(v: nat) -> Seq<char>
    decreases v,
{
    if v < 16 {
        seq![hex_digit_char(v)]
    } else {
        hex_text(v / 16).push(hex_digit_char(v % 16))
    }
}

/// The groups `g` in hexadecimal, separated by colons.
pub open spec fn join_groups(g: Seq<u16>) -> Seq<char>
    decreases g.len(),
{
    if g.len() == 0 {
        seq![]
    } else if g.len() == 1 {
        hex_text(g[0] as nat)
    } else {
        join_groups(g.drop_last()) + seq![':'] + hex_text(g.last() as nat)
    }
}

/// The first longest run of zero segments in `g`, as a start and a length:
/// the scan from position `i` on, with the run in progress `cur` and the
/// longest run so far `best`.
pub open spec fn zero_span(g: Seq<u16>, i: nat, cur: (nat, nat), best: (nat, nat)) -> (nat, nat)
    decreases g.len() - i,
{
    if i >= g.len() {
        best
    } else if g[i as int] == 0 {
        let start = if cur.1 == 0 {
            i
        } else {
            cur.0
        };
        let run = (start, cur.1 + 1);
        if run.1 > best.1 {
            zero_span(g, i + 1, run, run)
        } else {
            zero_span(g, i + 1, run, best)
        }
    } else {
        zero_span(g, i + 1, (0, 0), best)
    }
}

/// Whether the segments are those of an IPv4-mapped address
/// (`::ffff:a.b.c.d`).
pub open spec fn is_ipv4_mapped(g: Seq<u16>) -> bool {
    &&& g[0] == 0 && g[1] == 0 && g[2] == 0 && g[3] == 0 && g[4] == 0
    &&& g[5] == 0xffff
}

/// The text of an IPv6 address: an IPv4-mapped address as `::ffff:`
/// followed by the IPv4 address; otherwise the groups in hexadecimal with
/// the first longest run of at least two zero groups written `::`.
pub open spec fn ipv6_text(g: Seq<u16>) -> Seq<char> {
    if is_ipv4_mapped(g) {
        seq![':', ':', 'f', 'f', 'f', 'f', ':'] + ipv4_text(
            seq![(g[6] / 256) as u8, (g[6] % 256) as u8, (g[7] / 256) as u8, (g[7] % 256) as u8],
        )
    } else {
        let span = zero_span(g, 0, (0, 0), (0, 0));
        if span.1 > 1 {
            join_groups(g.take(span.0 as int)) + seq![':', ':'] + join_groups(
                g.skip((span.0 + span.1) as int),
            )
        } else {
            join_groups(g)
        }
    }
}

/// The text of an address (`Display` for `IpAddr`).
pub open spec fn ip_text(a: IpModel) -> Seq<char> {
    match a {
        IpModel::V4(o) => ipv4_text(o),
        IpModel::V6(g) => ipv6_text(g),
    }
}

fn ipv4_chars(a: u8, b: u8, c: u8, d: u8) -> (out: Vec<char>)
    ensures
        out@ == ipv4_text(seq![a, b, c, d]),
{
    let mut out = decimal_chars(a as u64);
    out.push('.');
    let t = decimal_chars(b as u64);
    push_all(&mut out, t.as_slice());
    out.push('.');
    let t = decimal_chars(c as u64);
    push_all(&mut out, t.as_slice());
    out.push('.');
    let t = decimal_chars(d as u64);
    push_all(&mut out, t.as_slice());
    out
}

fn hex_chars(v: u16) -> (out: Vec<char>)
    ensures
        out@ == hex_text(v as nat),
    decreases v,
{
    let d: u8 = (v % 16) as u8;
    let c: char = if d < 10 {
        (d + 48) as char
    } else {
        (d + 87) as char
    };
    if v < 16 {
        let mut out: Vec<char> = Vec::new();
        out.push(c);
        out
    } else {
        let mut out = hex_chars(v / 16);
        out.push(c);
        out
    }
}

fn push_groups(out: &mut Vec<char>, g: &[u16], from: usize, to: usize)
    requires
        from <= to <= g@.len(),
    ensures
        final(out)@ == old(out)@ + join_groups(g@.subrange(from as int, to as int)),
{
    let ghost start = out@;
    let mut k = from;
    assert(g@.subrange(from as int, from as int).len() == 0);
    while k < to
        invariant
            from <= k <= to <= g@.len(),
            out@ == start + join_groups(g@.subrange(from as int, k as int)),
        decreases to - k,
    {
        let ghost before = out@;
        if k > from {
            out.push(':');
        }
        let h = hex_chars(g[k]);
        push_all(out, h.as_slice());
        proof {
            let sub = g@.subrange(from as int, k + 1);
            assert(sub.drop_last() =~= g@.subrange(from as int, k as int));
            assert(sub.last() == g@[k as int]);
            if k == from {
                assert(sub.len() == 1);
            }
        }
        k = k + 1;
    }
}

fn ipv6_chars(g: &[u16; 8]) -> (out: Vec<char>)
    ensures
        out@ == ipv6_text(g@),
{
    if g[0] == 0 && g[1] == 0 && g[2] == 0 && g[3] == 0 && g[4] == 0 && g[5] == 0xffff {
        let mut out: Vec<char> = Vec::new();
        out.push(':');
        out.push(':');
        out.push('f');
        out.push('f');
        out.push('f');
        out.push('f');
        out.push(':');
        let v4 = ipv4_chars(
            (g[6] / 256) as u8,
            (g[6] % 256) as u8,
            (g[7] / 256) as u8,
            (g[7] % 256) as u8,
        );
        push_all(&mut out, v4.as_slice());
        return out;
    }
    let mut i: usize = 0;
    let mut cur_start: usize = 0;
    let mut cur_len: usize = 0;
    let mut best_start: usize = 0;
    let mut best_len: usize = 0;
    while i < 8
        invariant
            i <= 8,
            cur_start <= 8,
            cur_len <= i,
            best_start <= 8,
            best_len <= i,
            best_start + best_len <= 8,
            zero_span(g@, 0, (0, 0), (0, 0)) == zero_span(
                g@,
                i as nat,
                (cur_start as nat, cur_len as nat),
                (best_start as nat, best_len as nat),
            ),
            cur_len > 0 ==> cur_start + cur_len == i,
        decreases 8 - i,
    {
        if g[i] == 0 {
            if cur_len == 0 {
                cur_start = i;
            }
            cur_len = cur_len + 1;
            if cur_len > best_len {
                best_start = cur_start;
                best_len = cur_len;
            }
        } else {
            cur_start = 0;
            cur_len = 0;
        }
        i = i + 1;
    }
    let mut out: Vec<char> = Vec::new();
    let s = g.as_slice();
    if best_len > 1 {
        push_groups(&mut out, s, 0, best_start);
        out.push(':');
        out.push(':');
        push_groups(&mut out, s, best_start + best_len, 8);
        assert(g@.take(best_start as int) =~= g@.subrange(0, best_start as int));
        assert(g@.skip(best_start + best_len) =~= g@.subrange(best_start + best_len, 8));
    } else {
        push_groups(&mut out, s, 0, 8);
        assert(g@ =~= g@.subrange(0, 8));
    }
    out
}

} // verus!
