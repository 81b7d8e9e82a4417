//! The embedded frontend files: which file a request path names, and the
//! content type it is served with.
use vstd::prelude::*;
use vstd::string::StringSliceAdditionalSpecFns;
use vstd::utf8::encode_utf8;

use crate::security::{all_header_value_bytes, is_header_value};
use crate::text::{chars_of, copy_range, string_of};

verus! {

/// `s` without its leading `/`s.
pub open spec fn strip_leading_slashes(s: Seq<char>) -> Seq<char>
    decreases s.len(),
{
    if s.len() > 0 && s[0] == '/' {
        strip_leading_slashes(s.drop_first())
    } else {
        s
    }
}

/// Whether a `.` or `..` segment starts at `a`: it is all dots, one or two
/// of them, with a `/` or an end on each side.
pub open spec fn dot_segment_at(p: Seq<char>, a: int, len: int) -> bool {
    &&& 0 <= a
    &&& a + len <= p.len()
    &&& (a == 0 || p[a - 1] == '/')
    &&& (a + len == p.len() || p[a + len] == '/')
    &&& forall|j: int| a <= j < a + len ==> p[j] == '.'
}

/// Whether some `/`-separated segment of `p` is `.` or `..`.
pub open spec fn has_dot_segment(p: Seq<char>) -> bool {
    ||| exists|a: int| #[trigger] dot_segment_at(p, a, 1)
    ||| exists|a: int| #[trigger] dot_segment_at(p, a, 2)
}

/// The file a request path names: without leading `/`s, `index.html` for
/// nothing; none when it holds a backslash or a `.` or `..` segment.
pub open spec fn asset_path(path: Seq<char>) -> Option<Seq<char>> {
    let p0 = strip_leading_slashes(path);
    let p = if p0.len() == 0 {
        "index.html"@
    } else {
        p0
    };
    if p.contains('\\') || has_dot_segment(p) {
        None
    } else {
        Some(p)
    }
}

fn find_dot_segment(p: &[char]) -> (r: bool)
    ensures
        r == has_dot_segment(p@),
{
    let n = p.len();
    let mut a: usize = 0;
    while a < n
        invariant
            n == p@.len(),
            a <= n,
            forall|b: int| 0 <= b < a ==> !dot_segment_at(p@, b, 1) && !dot_segment_at(p@, b, 2),
        decreases n - a,
    {
        let starts = a == 0 || p[a - 1] == '/';
        if starts && p[a] == '.' {
            if a + 1 == n || p[a + 1] == '/' {
                assert(dot_segment_at(p@, a as int, 1));
                return true;
            }
            if p[a + 1] == '.' && (a + 2 == n || p[a + 2] == '/') {
                assert(dot_segment_at(p@, a as int, 2));
                return true;
            }
        }
        a = a + 1;
    }
    assert forall|b: int| #[trigger] dot_segment_at(p@, b, 1) implies false by {
        assert(p@[b] == '.');
    }
    assert forall|b: int| #[trigger] dot_segment_at(p@, b, 2) implies false by {
        assert(p@[b] == '.');
    }
    false
}

/// The file a request path names (see [`asset_path`]).
pub fn static_asset_path(path: &str) -> (r: Option<String>)
    ensures
        match r {
            Some(s) => asset_path(path@) == Some(s@),
            None => asset_path(path@) is None,
        },
{
    let chars = chars_of(path);
    let n = chars.len();
    let mut start: usize = 0;
    assert(chars@.skip(0) == chars@);
    while start < n && chars[start] == '/'
        invariant
            start <= n == chars@.len(),
            strip_leading_slashes(chars@) == strip_leading_slashes(chars@.skip(start as int)),
        decreases n - start,
    {
        assert(chars@.skip(start as int).drop_first() == chars@.skip(start + 1));
        start = start + 1;
    }
    assert(strip_leading_slashes(chars@) == chars@.skip(start as int));
    let p = if start == n {
        chars_of("index.html")
    } else {
        let p = copy_range(chars.as_slice(), start, n);
        assert(p@ =~= chars@.skip(start as int));
        p
    };
    let mut has_backslash = false;
    let m = p.len();
    for i in 0..m
        invariant
            m == p@.len(),
            has_backslash == exists|j: int| 0 <= j < i && p@[j] == '\\',
    {
        if p[i] == '\\' {
            has_backslash = true;
        }
    }
    if has_backslash || find_dot_segment(p.as_slice()) {
        return None;
    }
    Some(string_of(p.as_slice()))
}

/// The media type that `mime_guess` guesses from the path's extension,
/// `application/octet-stream` where it has none.
pub uninterp spec fn mime_guess_for(path: Seq<char>) -> Seq<char>;

/// Calls `mime_guess::from_path(path).first_or_octet_stream()` of
/// `mime_guess`.
///
/// Claims only that the media type is a function of the path, named
/// `mime_guess_for`; the extension table is not restated.
#[verifier::external_body]
fn guess_mime(path: &str) -> (m: String)
    ensures
        m@ == mime_guess_for(path@),
{
    mime_guess::from_path(path).first_or_octet_stream().as_ref().to_string()
}

/// The `Content-Type` for a file: the guessed media type, or
/// `application/octet-stream` where that is no valid header value.
pub fn asset_content_type(path: &str) -> (t: String)
    ensures
        t@ == if all_header_value_bytes(encode_utf8(mime_guess_for(path@))) {
            mime_guess_for(path@)
        } else {
            "application/octet-stream"@
        },
{
    let guessed = guess_mime(path);
    if is_header_value(guessed.as_str().as_bytes()) {
        guessed
    } else {
        "application/octet-stream".to_string()
    }
}

proof fn lemma_strip_leading_slashes(s: Seq<char>)
    ensures
        strip_leading_slashes(s).len() > 0 ==> strip_leading_slashes(s)[0] != '/',
    decreases s.len(),
{
    if s.len() > 0 && s[0] == '/' {
        lemma_strip_leading_slashes(s.drop_first());
    }
}

/// A served path never leaves the asset directory: it is not empty, does
/// not start with `/`, and holds neither a backslash nor a `.` or `..`
/// segment.
pub proof fn lemma_asset_path_stays_inside(path: Seq<char>)
    ensures
        asset_path(path) matches Some(p) ==> {
            &&& p.len() > 0
            &&& p[0] != '/'
            &&& !p.contains('\\')
            &&& !has_dot_segment(p)
        },
{
    reveal_strlit("index.html");
    lemma_strip_leading_slashes(path);
}

proof fn lemma_strip_slashes_prefix(k: nat, q: Seq<char>)
    requires
        q.len() == 0 || q[0] != '/',
    ensures
        strip_leading_slashes(Seq::new(k, |i: int| '/') + q) == q,
    decreases k,
{
    let s = Seq::new(k, |i: int| '/') + q;
    if k == 0 {
        assert(s =~= q);
    } else {
        assert(s.drop_first() =~= Seq::new((k - 1) as nat, |i: int| '/') + q);
        lemma_strip_slashes_prefix((k - 1) as nat, q);
    }
}

/// Only a backslash or a `.` or `..` segment refuses a path: any run of
/// `/`s followed by a name `q` that does not start with `/`, holds no
/// backslash, and has no segment made of one or two dots alone, names the
/// file `q`; a path of `/`s alone names `index.html`.
pub proof fn lemma_safe_paths_are_served(k: nat, q: Seq<char>)
    requires
        q.len() == 0 || q[0] != '/',
        forall|j: int| 0 <= j < q.len() ==> q[j] != '\\',
        forall|a: int|
            0 <= a && a + 1 <= q.len() && (a == 0 || q[a - 1] == '/') && (a + 1 == q.len() || q[a
                + 1] == '/') ==> #[trigger] q[a] != '.',
        forall|a: int|
            0 <= a && a + 2 <= q.len() && (a == 0 || q[a - 1] == '/') && (a + 2 == q.len() || q[a
                + 2] == '/') ==> !(#[trigger] q[a] == '.' && q[a + 1] == '.'),
    ensures
        q.len() > 0 ==> asset_path(Seq::new(k, |i: int| '/') + q) == Some(q),
        q.len() == 0 ==> asset_path(Seq::new(k, |i: int| '/')) == Some("index.html"@),
{
    reveal_strlit("index.html");
    lemma_strip_slashes_prefix(k, q);
    if q.len() == 0 {
        assert(Seq::new(k, |i: int| '/') + q =~= Seq::new(k, |i: int| '/'));
        let p = "index.html"@;
        assert(!p.contains('\\'));
        assert forall|a: int| !#[trigger] dot_segment_at(p, a, 1) by {
            if dot_segment_at(p, a, 1) {
                assert(p[a] == '.');
                assert(a == 5);
            }
        }
        assert forall|a: int| !#[trigger] dot_segment_at(p, a, 2) by {
            if dot_segment_at(p, a, 2) {
                assert(p[a] == '.');
                assert(p[a + 1] == '.');
            }
        }
    } else {
        assert forall|a: int| !#[trigger] dot_segment_at(q, a, 1) by {
            if dot_segment_at(q, a, 1) {
                assert(q[a] == '.');
            }
        }
        assert forall|a: int| !#[trigger] dot_segment_at(q, a, 2) by {
            if dot_segment_at(q, a, 2) {
                assert(q[a] == '.' && q[a + 1] == '.');
            }
        }
    }
}

} // verus!

