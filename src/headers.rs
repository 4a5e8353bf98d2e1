//! Reading what a probe's response headers and a URL say about a source.

use vstd::prelude::*;
use crate::types::HeadData;

verus! {

broadcast use vstd::array::group_array_axioms;

/// ASCII lower case of a byte.
pub open spec fn lower(c: u8) -> u8 {
    if 65 <= c <= 90 { (c + 32) as u8 } else { c }
}

/// `h` holds `n` at `i`, ignoring ASCII case in `h`.
pub open spec fn matches_at(h: Seq<u8>, n: Seq<u8>, i: int) -> bool {
    &&& 0 <= i
    &&& i + n.len() <= h.len()
    &&& forall|k: int| 0 <= k < n.len() ==> lower(#[trigger] h[i + k]) == n[k]
}

/// `h` holds `n` somewhere, ignoring ASCII case in `h`.
pub open spec fn contains_ci(h: Seq<u8>, n: Seq<u8>) -> bool {
    exists|i: int| matches_at(h, n, i)
}

pub open spec fn bytes_word() -> Seq<u8> {
    seq![98u8, 121, 116, 101, 115]
}

pub open spec fn html_word() -> Seq<u8> {
    seq![116u8, 101, 120, 116, 47, 104, 116, 109, 108]
}

pub open spec fn xhtml_word() -> Seq<u8> {
    seq![97u8, 112, 112, 108, 105, 99, 97, 116, 105, 111, 110, 47, 120, 104, 116, 109, 108, 43, 120, 109, 108]
}

pub open spec fn mpegurl_word() -> Seq<u8> {
    seq![109u8, 112, 101, 103, 117, 114, 108]
}

pub open spec fn m3u8_word() -> Seq<u8> {
    seq![46u8, 109, 51, 117, 56]
}

fn lower_byte(c: u8) -> (r: u8)
    ensures
        r == lower(c),
{
    if 65 <= c && c <= 90 { c + 32 } else { c }
}

fn matches_here(h: &[u8], n: &[u8], i: usize) -> (r: bool)
    requires
        i + n@.len() <= h@.len(),
    ensures
        r == matches_at(h@, n@, i as int),
{
    let hlen = h.len();
    let mut k: usize = 0;
    while k < n.len()
        invariant
            hlen == h@.len(),
            i + n@.len() <= h@.len(),
            k <= n@.len(),
            forall|j: int| 0 <= j < k ==> lower(#[trigger] h@[i + j]) == n@[j],
        decreases n@.len() - k,
    {
        if lower_byte(h[i + k]) != n[k] {
            return false;
        }
        k = k + 1;
    }
    true
}

/// Whether `h` holds `n` somewhere, ignoring ASCII case in `h`.
pub fn contains_ignore_case(h: &[u8], n: &[u8]) -> (r: bool)
    ensures
        r == contains_ci(h@, n@),
{
    if n.len() > h.len() {
        return false;
    }
    let last = h.len() - n.len();
    let mut i: usize = 0;
    loop
        invariant
            i <= last,
            last + n@.len() == h@.len(),
            forall|j: int| 0 <= j < i ==> !matches_at(h@, n@, j),
        decreases last - i,
    {
        if matches_here(h, n, i) {
            return true;
        }
        if i == last {
            proof {
                assert forall|j: int| !matches_at(h@, n@, j) by {
                    if 0 <= j < i {
                    } else if j == i as int {
                    } else {
                    }
                }
            }
            return false;
        }
        i = i + 1;
    }
}

/// Decimal value of the digits `s`; `None` when `s` is empty or holds a
/// non-digit.
pub open spec fn decimal(s: Seq<u8>) -> Option<nat>
    decreases s.len(),
{
    if s.len() == 0 {
        None
    } else if !(48 <= s.last() <= 57) {
        None
    } else if s.len() == 1 {
        Some((s.last() - 48) as nat)
    } else {
        match decimal(s.drop_last()) {
            Some(v) => Some(v * 10 + (s.last() - 48) as nat),
            None => None,
        }
    }
}

/// The number that `s` writes, as `u64` parsing reads it: an optional `+`
/// then decimal digits, with a value that fits.
pub open spec fn parsed_u64(s: Seq<u8>) -> Option<u64> {
    let digits = if s.len() > 0 && s[0] == 43 { s.skip(1) } else { s };
    match decimal(digits) {
        Some(v) => if v <= u64::MAX { Some(v as u64) } else { None },
        None => None,
    }
}

/// Reads a `Content-Length` value.
pub fn parse_content_length(v: &[u8]) -> (r: Option<u64>)
    ensures
        r == parsed_u64(v@),
{
    let start: usize = if v.len() > 0 && v[0] == 43 { 1 } else { 0 };
    let ghost digits = v@.subrange(start as int, v@.len() as int);
    assert(digits =~= (if v@.len() > 0 && v@[0] == 43 { v@.skip(1) } else { v@ }));
    if start == v.len() {
        return None;
    }
    let mut acc: u64 = 0;
    let mut i: usize = start;
    while i < v.len()
        invariant
            start < v@.len(),
            start <= i <= v@.len(),
            digits == v@.subrange(start as int, v@.len() as int),
            digits == (if v@.len() > 0 && v@[0] == 43 { v@.skip(1) } else { v@ }),
            i > start ==> decimal(v@.subrange(start as int, i as int)) == Some(acc as nat),
        decreases v@.len() - i,
    {
        let c = v[i];
        let ghost pre = v@.subrange(start as int, i as int);
        let ghost cur = v@.subrange(start as int, i + 1);
        assert(cur.drop_last() =~= pre);
        assert(cur.last() == c);
        assert(cur =~= digits.take(cur.len() as int));
        if c < 48 || c > 57 {
            proof {
                assert(decimal(cur) is None);
                if decimal(digits) is Some {
                    lemma_decimal_prefix(digits, cur.len() as int);
                }
            }
            return None;
        }
        let d = (c - 48) as u64;
        if i > start {
            if acc > (u64::MAX - d) / 10 {
                proof {
                    assert(acc * 10 + d > u64::MAX) by (nonlinear_arith)
                        requires acc > (u64::MAX - d) / 10, d <= 9;
                    assert(pre.len() > 0);
                    assert(decimal(cur) == Some((acc * 10 + d) as nat));
                    if decimal(digits) is Some {
                        lemma_decimal_prefix(digits, cur.len() as int);
                    }
                }
                return None;
            }
            assert(acc * 10 + d <= u64::MAX) by (nonlinear_arith)
                requires acc <= (u64::MAX - d) / 10, d <= 9;
            acc = acc * 10 + d;
        } else {
            acc = d;
        }
        i = i + 1;
    }
    assert(v@.subrange(start as int, i as int) =~= digits);
    Some(acc)
}

proof fn lemma_decimal_prefix(s: Seq<u8>, k: int)
    requires
        0 < k <= s.len(),
        decimal(s) is Some,
    ensures
        decimal(s.take(k)) matches Some(w) && w <= decimal(s)->Some_0,
    decreases s.len(),
{
    if k == s.len() {
        assert(s.take(k) =~= s);
    } else {
        let b = s.drop_last();
        assert(b.take(k) =~= s.take(k));
        lemma_decimal_prefix(b, k);
    }
}

/// Whether an `Accept-Ranges` value announces byte ranges.
pub fn accepts_byte_ranges(v: Option<&[u8]>) -> (r: bool)
    ensures
        r == (v matches Some(s) && contains_ci(s@, bytes_word())),
{
    match v {
        Some(s) => {
            let w: [u8; 5] = [98, 121, 116, 101, 115];
            assert(w@ =~= bytes_word());
            contains_ignore_case(s, w.as_slice())
        },
        None => false,
    }
}

/// Whether a content type names a web page.
pub fn is_webpage(content_type: Option<&[u8]>) -> (r: bool)
    ensures
        r == (content_type matches Some(s) && (contains_ci(s@, html_word()) || contains_ci(s@, xhtml_word()))),
{
    match content_type {
        Some(s) => {
            let a: [u8; 9] = [116, 101, 120, 116, 47, 104, 116, 109, 108];
            let b: [u8; 21] = [97, 112, 112, 108, 105, 99, 97, 116, 105, 111, 110, 47, 120, 104, 116, 109, 108, 43, 120, 109, 108];
            assert(a@ =~= html_word());
            assert(b@ =~= xhtml_word());
            contains_ignore_case(s, a.as_slice()) || contains_ignore_case(s, b.as_slice())
        },
        None => false,
    }
}

/// `p` ends the path of URL `u`: the first `?` or `#`, or the end.
pub open spec fn is_path_end(u: Seq<u8>, p: int) -> bool {
    &&& 0 <= p <= u.len()
    &&& p < u.len() ==> (u[p] == 63 || u[p] == 35)
    &&& forall|j: int| 0 <= j < p ==> (#[trigger] u[j]) != 63 && u[j] != 35
}

/// The URL's path ends with `.m3u8` (any case) or the content type names an
/// MPEG URL playlist: the source is a media manifest.
pub open spec fn manifest_spec(url: Seq<u8>, content_type: Option<Seq<u8>>) -> bool {
    ||| exists|p: int| #[trigger] is_path_end(url, p) && p >= 5 && matches_at(url, m3u8_word(), p - 5)
    ||| (content_type matches Some(c) && contains_ci(c, mpegurl_word()))
}

/// Whether the source at `url`, with the given content type, is a media manifest.
pub fn is_manifest(url: &[u8], content_type: Option<&[u8]>) -> (r: bool)
    ensures
        r == manifest_spec(url@, match content_type { Some(c) => Some(c@), None => None }),
{
    let mut p: usize = 0;
    while p < url.len() && url[p] != 63 && url[p] != 35
        invariant
            p <= url@.len(),
            forall|j: int| 0 <= j < p ==> (#[trigger] url@[j]) != 63 && url@[j] != 35,
        decreases url@.len() - p,
    {
        p = p + 1;
    }
    let by_path = if p >= 5 {
        let w: [u8; 5] = [46, 109, 51, 117, 56];
        assert(w@ =~= m3u8_word());
        matches_here(url, w.as_slice(), p - 5)
    } else {
        false
    };
    proof {
        assert(is_path_end(url@, p as int));
        assert forall|q: int| #[trigger] is_path_end(url@, q) implies q == p as int by {
            if q < p {
                assert(url@[q] != 63 && url@[q] != 35);
            }
            if q > p {
                assert(url@[p as int] != 63 && url@[p as int] != 35);
            }
        }
    }
    let by_type = match content_type {
        Some(c) => {
            let w: [u8; 7] = [109, 112, 101, 103, 117, 114, 108];
            assert(w@ =~= mpegurl_word());
            contains_ignore_case(c, w.as_slice())
        },
        None => false,
    };
    by_path || by_type
}

/// What the probe's headers say: the `Content-Length` read as a number, whether
/// `Accept-Ranges` announces bytes, and the content type as given.
pub fn head_data(content_length: Option<&[u8]>, accept_ranges: Option<&[u8]>, content_type: Option<String>) -> (r: HeadData)
    ensures
        r.total_size == (match content_length { Some(v) => parsed_u64(v@), None => None }),
        r.accept_ranges == (accept_ranges matches Some(s) && contains_ci(s@, bytes_word())),
        r.content_type == content_type,
{
    let total_size = match content_length {
        Some(v) => parse_content_length(v),
        None => None,
    };
    HeadData { total_size, accept_ranges: accepts_byte_ranges(accept_ranges), content_type }
}

} // verus!
