//! The file name that a `Content-Disposition` header gives.

use vstd::prelude::*;
use crate::manifest::append_range;

verus! {

/// White space in header text. Header values are visible ASCII and tabs, so
/// the ASCII white space characters are all the white space they can hold.
pub open spec fn is_space(c: u8) -> bool {
    c == 32 || (9 <= c <= 13)
}

/// `s` without leading white space.
pub open spec fn trim_start(s: Seq<u8>) -> Seq<u8>
    decreases s.len(),
{
    if s.len() > 0 && is_space(s[0]) { trim_start(s.skip(1)) } else { s }
}

/// `s` without trailing white space.
pub open spec fn trim_end(s: Seq<u8>) -> Seq<u8>
    decreases s.len(),
{
    if s.len() > 0 && is_space(s.last()) { trim_end(s.drop_last()) } else { s }
}

/// `s` without leading `"`.
pub open spec fn unquote_start(s: Seq<u8>) -> Seq<u8>
    decreases s.len(),
{
    if s.len() > 0 && s[0] == 34 { unquote_start(s.skip(1)) } else { s }
}

/// `s` without trailing `"`.
pub open spec fn unquote_end(s: Seq<u8>) -> Seq<u8>
    decreases s.len(),
{
    if s.len() > 0 && s.last() == 34 { unquote_end(s.drop_last()) } else { s }
}

pub open spec fn filename_word() -> Seq<u8> {
    seq![102u8, 105, 108, 101, 110, 97, 109, 101, 61]
}

/// `s` without the leading repetitions of `filename=`.
pub open spec fn strip_filename(s: Seq<u8>) -> Seq<u8>
    decreases s.len(),
{
    if s.len() >= 9 && s.take(9) == filename_word() { strip_filename(s.skip(9)) } else { s }
}

/// Index of the first `;` at or after `i`, or the length of `b`.
pub open spec fn part_end(b: Seq<u8>, i: int) -> int
    decreases b.len() - i,
{
    if i >= b.len() {
        b.len() as int
    } else if b[i] == 59 {
        i
    } else {
        part_end(b, i + 1)
    }
}

/// The file name in the `;`-separated parts of `b` from offset `i` on: in the
/// first part that, trimmed, begins with `filename=`, what follows those
/// leading `filename=` with the surrounding quotes removed.
pub open spec fn filename_from(b: Seq<u8>, i: int) -> Option<Seq<u8>>
    decreases b.len() - i,
{
    if i < 0 || i > b.len() {
        None
    } else {
        let e = part_end(b, i);
        let t = trim_end(trim_start(b.subrange(i, e)));
        if e < i || e > b.len() {
            None
        } else if t.len() >= 9 && t.take(9) == filename_word() {
            Some(unquote_end(unquote_start(strip_filename(t))))
        } else if e >= b.len() {
            None
        } else {
            filename_from(b, e + 1)
        }
    }
}

proof fn lemma_part_end(b: Seq<u8>, i: int)
    requires
        0 <= i <= b.len(),
    ensures
        i <= part_end(b, i) <= b.len(),
        part_end(b, i) < b.len() ==> b[part_end(b, i)] == 59,
        forall|j: int| i <= j < part_end(b, i) ==> b[j] != 59,
    decreases b.len() - i,
{
    if i < b.len() && b[i] != 59 {
        lemma_part_end(b, i + 1);
    }
}

/// Bounds of `b[i..e]` without leading and trailing white space.
fn trim_bounds(b: &[u8], i: usize, e: usize) -> (r: (usize, usize))
    requires
        i <= e <= b@.len(),
    ensures
        i <= r.0 <= r.1 <= e,
        b@.subrange(r.0 as int, r.1 as int) == trim_end(trim_start(b@.subrange(i as int, e as int))),
{
    let mut a = i;
    while a < e && (b[a] == 32 || (9 <= b[a] && b[a] <= 13))
        invariant
            i <= a <= e,
            e <= b@.len(),
            trim_start(b@.subrange(a as int, e as int)) == trim_start(b@.subrange(i as int, e as int)),
        decreases e - a,
    {
        assert(b@.subrange(a as int, e as int).skip(1) =~= b@.subrange(a + 1, e as int));
        a = a + 1;
    }
    assert(trim_start(b@.subrange(a as int, e as int)) == b@.subrange(a as int, e as int));
    let mut z = e;
    while z > a && (b[z - 1] == 32 || (9 <= b[z - 1] && b[z - 1] <= 13))
        invariant
            a <= z <= e,
            e <= b@.len(),
            trim_end(b@.subrange(a as int, z as int)) == trim_end(b@.subrange(a as int, e as int)),
        decreases z - a,
    {
        assert(b@.subrange(a as int, z as int).drop_last() =~= b@.subrange(a as int, z - 1));
        z = z - 1;
    }
    assert(trim_end(b@.subrange(a as int, z as int)) == b@.subrange(a as int, z as int));
    (a, z)
}

/// Whether `b[a..z]` begins with `filename=`.
fn at_filename(b: &[u8], a: usize, z: usize) -> (r: bool)
    requires
        a <= z <= b@.len(),
    ensures
        r == (z - a >= 9 && b@.subrange(a as int, z as int).take(9) == filename_word()),
{
    if z - a < 9 {
        return false;
    }
    let r = b[a] == 102 && b[a + 1] == 105 && b[a + 2] == 108 && b[a + 3] == 101 && b[a + 4] == 110
        && b[a + 5] == 97 && b[a + 6] == 109 && b[a + 7] == 101 && b[a + 8] == 61;
    proof {
        let t = b@.subrange(a as int, z as int).take(9);
        if r {
            assert(t =~= filename_word());
        } else {
            if t == filename_word() {
                assert(t[0] == 102 && t[1] == 105 && t[2] == 108 && t[3] == 101 && t[4] == 110);
                assert(t[5] == 97 && t[6] == 109 && t[7] == 101 && t[8] == 61);
            }
        }
    }
    r
}

/// The file name that a `Content-Disposition` value `v` gives, if any. `v` is
/// header text: visible ASCII and tabs.
pub fn disposition_filename(v: &[u8]) -> (r: Option<Vec<u8>>)
    ensures
        match filename_from(v@, 0) {
            Some(name) => r matches Some(x) && x@ == name,
            None => r is None,
        },
{
    let n = v.len();
    let mut i: usize = 0;
    loop
        invariant
            i <= n,
            n == v@.len(),
            filename_from(v@, i as int) == filename_from(v@, 0),
        decreases n - i,
    {
        let mut e = i;
        while e < n && v[e] != 59
            invariant
                i <= e <= n,
                n == v@.len(),
                forall|j: int| i <= j < e ==> v@[j] != 59,
            decreases n - e,
        {
            e = e + 1;
        }
        proof {
            lemma_part_end(v@, i as int);
            let pe = part_end(v@, i as int);
            if pe != e as int {
                if pe < e {
                    assert(v@[pe] == 59);
                } else {
                    assert(v@[e as int] == 59);
                }
            }
        }
        let (a, z) = trim_bounds(v, i, e);
        if at_filename(v, a, z) {
            let mut s = a;
            while z - s >= 9 && at_filename(v, s, z)
                invariant
                    a <= s <= z,
                    z <= v@.len(),
                    strip_filename(v@.subrange(s as int, z as int)) == strip_filename(v@.subrange(a as int, z as int)),
                decreases z - s,
            {
                assert(v@.subrange(s as int, z as int).skip(9) =~= v@.subrange(s + 9, z as int));
                s = s + 9;
            }
            assert(strip_filename(v@.subrange(s as int, z as int)) == v@.subrange(s as int, z as int));
            while s < z && v[s] == 34
                invariant
                    s <= z,
                    z <= v@.len(),
                    unquote_start(v@.subrange(s as int, z as int))
                        == unquote_start(strip_filename(v@.subrange(a as int, z as int))),
                decreases z - s,
            {
                assert(v@.subrange(s as int, z as int).skip(1) =~= v@.subrange(s + 1, z as int));
                s = s + 1;
            }
            assert(unquote_start(v@.subrange(s as int, z as int)) == v@.subrange(s as int, z as int));
            let mut t = z;
            while t > s && v[t - 1] == 34
                invariant
                    s <= t <= z,
                    z <= v@.len(),
                    unquote_end(v@.subrange(s as int, t as int)) == unquote_end(v@.subrange(s as int, z as int)),
                decreases t - s,
            {
                assert(v@.subrange(s as int, t as int).drop_last() =~= v@.subrange(s as int, t - 1));
                t = t - 1;
            }
            assert(unquote_end(v@.subrange(s as int, t as int)) == v@.subrange(s as int, t as int));
            let mut out: Vec<u8> = Vec::new();
            append_range(&mut out, v, s, t);
            assert(out@ =~= v@.subrange(s as int, t as int));
            return Some(out);
        }
        if e >= n {
            return None;
        }
        i = e + 1;
    }
}

} // verus!
