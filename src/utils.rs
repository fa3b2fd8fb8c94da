//! Byte-level path helpers for Unix paths.
use vstd::prelude::*;

verus! {

/// The path separator `/`.
pub const SEPARATOR: u8 = 0x2f;

/// A path starts at the filesystem root.
pub open spec fn is_absolute(p: Seq<u8>) -> bool {
    p.len() > 0 && p[0] == SEPARATOR
}

/// `p` with all of its leading separators removed.
pub open spec fn strip_root(p: Seq<u8>) -> Seq<u8>
    decreases p.len(),
{
    if is_absolute(p) {
        strip_root(p.drop_first())
    } else {
        p
    }
}

/// Joining in the manner of `Path::join`: an absolute `p` replaces `r`;
/// a relative one is appended, with one separator in between unless `r`
/// is empty or already ends with one.
pub open spec fn join(r: Seq<u8>, p: Seq<u8>) -> Seq<u8> {
    if is_absolute(p) {
        p
    } else if r.len() > 0 && r.last() != SEPARATOR {
        r.push(SEPARATOR) + p
    } else {
        r + p
    }
}

/// `p` placed under the prefix `r`, its leading separators dropped.
pub open spec fn merged(r: Seq<u8>, p: Seq<u8>) -> Seq<u8> {
    join(r, strip_root(p))
}

proof fn lemma_strip_root(p: Seq<u8>)
    ensures
        !is_absolute(strip_root(p)),
        !is_absolute(p) ==> strip_root(p) == p,
    decreases p.len(),
{
    if is_absolute(p) {
        lemma_strip_root(p.drop_first());
    }
}

/// Merging an absolute path onto a prefix joins the path without its
/// leading separators; merging a relative path is a plain join. Either
/// way the merged part never replaces the prefix.
pub proof fn lemma_merge(r: Seq<u8>, p: Seq<u8>)
    ensures
        is_absolute(p) ==> merged(r, p) == join(r, strip_root(p)),
        !is_absolute(p) ==> merged(r, p) == join(r, p),
        !is_absolute(strip_root(p)),
        r.len() > 0 ==> merged(r, p).subrange(0, r.len() as int) == r,
{
    lemma_strip_root(p);
    let s = strip_root(p);
    if r.len() > 0 && r.last() != SEPARATOR {
        assert((r.push(SEPARATOR) + s).subrange(0, r.len() as int) =~= r);
    } else {
        assert((r + s).subrange(0, r.len() as int) =~= r);
    }
}

/// Appends `src[from..]` to `out`.
pub fn push_from(out: &mut Vec<u8>, src: &[u8], from: usize)
    requires
        from <= src@.len(),
    ensures
        final(out)@ == old(out)@ + src@.subrange(from as int, src@.len() as int),
{
    let mut i: usize = from;
    while i < src.len()
        invariant
            from <= i <= src@.len(),
            out@ == old(out)@ + src@.subrange(from as int, i as int),
        decreases src@.len() - i,
    {
        out.push(src[i]);
        i = i + 1;
        assert(out@ =~= old(out)@ + src@.subrange(from as int, i as int));
    }
}

/// A copy of `s` as an owned byte vector.
pub fn bytes_of(s: &[u8]) -> (r: Vec<u8>)
    ensures
        r@ == s@,
{
    let mut r: Vec<u8> = Vec::new();
    push_from(&mut r, s, 0);
    assert(s@.subrange(0, s@.len() as int) =~= s@);
    r
}

/// Places `p` under the prefix `r`: an absolute `p` loses its leading
/// separators first, so the result always lies under `r`.
pub fn merge(r: &[u8], p: &[u8]) -> (out: Vec<u8>)
    ensures
        out@ == merged(r@, p@),
{
    let mut start: usize = 0;
    assert(p@.subrange(0, p@.len() as int) =~= p@);
    while start < p.len() && p[start] == SEPARATOR
        invariant
            start <= p@.len(),
            strip_root(p@) == strip_root(p@.subrange(start as int, p@.len() as int)),
        decreases p@.len() - start,
    {
        let ghost rest = p@.subrange(start as int, p@.len() as int);
        assert(rest.drop_first() =~= p@.subrange(start + 1, p@.len() as int));
        start = start + 1;
    }
    let ghost s = p@.subrange(start as int, p@.len() as int);
    assert(!is_absolute(s));
    proof {
        lemma_strip_root(s);
    }
    let mut out = bytes_of(r);
    if r.len() > 0 && r[r.len() - 1] != SEPARATOR {
        out.push(SEPARATOR);
    }
    push_from(&mut out, p, start);
    out
}


/// The byte contents of each vector of a sequence.
pub open spec fn byte_views(s: Seq<Vec<u8>>) -> Seq<Seq<u8>> {
    s.map_values(|v: Vec<u8>| v@)
}

} // verus!
