//! Reading a media manifest: a line-oriented index of segment URLs.

use vstd::prelude::*;
use vstd::string::StringExecFns;

verus! {

/// Index of the first `\n` at or after `i`, or the length of `b`.
pub open spec fn line_end(b: Seq<u8>, i: int) -> int
    decreases b.len() - i,
{
    if i >= b.len() {
        b.len() as int
    } else if b[i] == 10 {
        i
    } else {
        line_end(b, i + 1)
    }
}

/// A line without its trailing `\r`, if any.
pub open spec fn strip_cr(l: Seq<u8>) -> Seq<u8> {
    if l.len() > 0 && l.last() == 13 { l.drop_last() } else { l }
}

/// The lines of `b` from offset `i` on, split at `\n`, each without a
/// trailing `\r`; text after the last `\n` is a line when it is not empty.
pub open spec fn lines_from(b: Seq<u8>, i: int) -> Seq<Seq<u8>>
    decreases b.len() - i,
{
    if i < 0 || i >= b.len() {
        seq![]
    } else {
        let e = line_end(b, i);
        if e < i {
            seq![]
        } else if e >= b.len() {
            seq![strip_cr(b.subrange(i, e))]
        } else {
            seq![strip_cr(b.subrange(i, e))] + lines_from(b, e + 1)
        }
    }
}

/// A line names a segment when it is not empty and is not a `#` comment.
pub open spec fn is_entry(l: Seq<u8>) -> bool {
    l.len() > 0 && l[0] != 35
}

pub open spec fn http_word() -> Seq<u8> {
    seq![104u8, 116, 116, 112]
}

/// The directory of a URL: everything up to its last `/`, that included; a
/// lone `/` when it has none.
pub open spec fn base_of(u: Seq<u8>) -> Seq<u8>
    decreases u.len(),
{
    if u.len() == 0 {
        seq![47u8]
    } else if u.last() == 47 {
        u
    } else {
        base_of(u.drop_last())
    }
}

/// A segment line as a URL: as it stands when it begins with `http`, else
/// relative to `base`.
pub open spec fn resolve(l: Seq<u8>, base: Seq<u8>) -> Seq<u8> {
    if l.len() >= 4 && l.take(4) == http_word() { l } else { base + l }
}

/// The segment URLs that the lines `ls` name, in order.
pub open spec fn entries(ls: Seq<Seq<u8>>, base: Seq<u8>) -> Seq<Seq<u8>>
    decreases ls.len(),
{
    if ls.len() == 0 {
        seq![]
    } else {
        let rest = entries(ls.skip(1), base);
        if is_entry(ls[0]) { seq![resolve(ls[0], base)] + rest } else { rest }
    }
}

proof fn lemma_line_end(b: Seq<u8>, i: int)
    requires
        0 <= i <= b.len(),
    ensures
        i <= line_end(b, i) <= b.len(),
        line_end(b, i) < b.len() ==> b[line_end(b, i)] == 10,
        forall|j: int| i <= j < line_end(b, i) ==> b[j] != 10,
    decreases b.len() - i,
{
    if i < b.len() && b[i] != 10 {
        lemma_line_end(b, i + 1);
    }
}

pub(crate) fn append_range(out: &mut Vec<u8>, src: &[u8], from: usize, to: usize)
    requires
        from <= to <= src@.len(),
    ensures
        final(out)@ == old(out)@ + src@.subrange(from as int, to as int),
{
    let ghost o = out@;
    let mut k = from;
    while k < to
        invariant
            from <= k <= to,
            to <= src@.len(),
            out@ == o + src@.subrange(from as int, k as int),
        decreases to - k,
    {
        out.push(src[k]);
        k = k + 1;
        assert(out@ =~= o + src@.subrange(from as int, k as int));
    }
}

/// The directory of `url`, as `base_of` says.
fn base_url(url: &[u8]) -> (r: Vec<u8>)
    ensures
        r@ == base_of(url@),
{
    let mut n = url.len();
    assert(url@.take(n as int) =~= url@);
    while n > 0 && url[n - 1] != 47
        invariant
            n <= url@.len(),
            base_of(url@.take(n as int)) == base_of(url@),
        decreases n,
    {
        assert(url@.take(n as int).drop_last() =~= url@.take(n - 1));
        n = n - 1;
    }
    let mut r: Vec<u8> = Vec::new();
    if n == 0 {
        r.push(47);
        assert(r@ =~= seq![47u8]);
        assert(url@.take(0) =~= Seq::<u8>::empty());
    } else {
        append_range(&mut r, url, 0, n);
        assert(r@ =~= url@.take(n as int));
    }
    proof {
        assert(url@.take(url@.len() as int) =~= url@);
    }
    r
}

/// The segment URLs of the manifest `body` fetched from `url`: one for each
/// line that is neither empty nor a `#` comment, in order, relative lines
/// resolved against the manifest's directory.
pub fn parse_manifest(body: &[u8], url: &[u8]) -> (r: Vec<Vec<u8>>)
    ensures
        r@.len() == entries(lines_from(body@, 0), base_of(url@)).len(),
        forall|k: int| 0 <= k < r@.len() ==> (#[trigger] r@[k])@ == entries(lines_from(body@, 0), base_of(url@))[k],
{
    let base = base_url(url);
    let ghost bs = base_of(url@);
    let ghost all = entries(lines_from(body@, 0), bs);
    let mut out: Vec<Vec<u8>> = Vec::new();
    let ghost mut done: Seq<Seq<u8>> = seq![];
    let n = body.len();
    let mut i: usize = 0;
    while i < n
        invariant
            n == body@.len(),
            i <= n,
            base@ == bs,
            out@.len() == done.len(),
            forall|k: int| 0 <= k < out@.len() ==> (#[trigger] out@[k])@ == done[k],
            all == done + entries(lines_from(body@, i as int), bs),
        decreases n - i,
    {
        let mut e = i;
        while e < n && body[e] != 10
            invariant
                i <= e <= n,
                n == body@.len(),
                forall|j: int| i <= j < e ==> body@[j] != 10,
            decreases n - e,
        {
            e = e + 1;
        }
        proof {
            lemma_line_end(body@, i as int);
            if line_end(body@, i as int) != e as int {
                if line_end(body@, i as int) < e {
                    assert(body@[line_end(body@, i as int)] == 10);
                } else {
                    assert(body@[e as int] == 10);
                }
            }
        }
        let mut stop = e;
        if stop > i && body[stop - 1] == 13 {
            stop = stop - 1;
        }
        let ghost line = strip_cr(body@.subrange(i as int, e as int));
        assert(body@.subrange(i as int, stop as int) =~= line);
        let ghost rest_lines = lines_from(body@, e + 1);
        assert(lines_from(body@, i as int) =~= seq![line] + rest_lines);
        assert((seq![line] + rest_lines).skip(1) =~= rest_lines);
        assert((seq![line] + rest_lines)[0] == line);
        if stop > i && body[i] != 35 {
            let mut item: Vec<u8> = Vec::new();
            let is_abs = stop - i >= 4 && body[i] == 104 && body[i + 1] == 116 && body[i + 2] == 116 && body[i + 3] == 112;
            proof {
                assert(line.len() >= 4 ==> (line.take(4) == http_word() <==> (line[0] == 104 && line[1] == 116 && line[2] == 116 && line[3] == 112))) by {
                    if line.len() >= 4 {
                        if line[0] == 104 && line[1] == 116 && line[2] == 116 && line[3] == 112 {
                            assert(line.take(4) =~= http_word());
                        }
                    }
                }
            }
            if !is_abs {
                append_range(&mut item, base.as_slice(), 0, base.len());
                assert(base@.subrange(0, base@.len() as int) =~= base@);
            }
            append_range(&mut item, body, i, stop);
            assert(item@ =~= resolve(line, bs));
            out.push(item);
            proof {
                assert(entries(seq![line] + rest_lines, bs) == seq![resolve(line, bs)] + entries(rest_lines, bs));
                done = done.push(resolve(line, bs));
                assert(all =~= done + entries(rest_lines, bs));
            }
        } else {
            proof {
                assert(entries(seq![line] + rest_lines, bs) == entries(rest_lines, bs));
            }
        }
        if e == n {
            proof {
                assert(lines_from(body@, e + 1) == Seq::<Seq<u8>>::empty());
                assert(lines_from(body@, n as int) == Seq::<Seq<u8>>::empty());
            }
            i = n;
        } else {
            i = e + 1;
        }
    }
    proof {
        assert(lines_from(body@, i as int) == Seq::<Seq<u8>>::empty());
        assert(all =~= done);
    }
    out
}

/// The muxer's concat list for the segment files `paths`: one
/// `file '<path>'` line for each, in order.
pub open spec fn list_text(paths: Seq<String>) -> Seq<char>
    decreases paths.len(),
{
    if paths.len() == 0 {
        seq![]
    } else {
        list_text(paths.drop_last()) + "file '"@ + paths.last()@ + "'\n"@
    }
}

/// Writes the muxer's concat list for the segment files `paths`.
pub fn concat_list(paths: &Vec<String>) -> (r: String)
    ensures
        r@ == list_text(paths@),
{
    let mut out = String::new();
    let mut i: usize = 0;
    while i < paths.len()
        invariant
            i <= paths@.len(),
            out@ == list_text(paths@.take(i as int)),
        decreases paths@.len() - i,
    {
        out = out.concat("file '");
        out = out.concat(paths[i].as_str());
        out = out.concat("'\n");
        assert(paths@.take(i + 1).drop_last() =~= paths@.take(i as int));
        i = i + 1;
    }
    assert(paths@.take(i as int) =~= paths@);
    out
}

} // verus!
