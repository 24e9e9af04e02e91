//! Name similarity used to pair tensors across architectures: how many of
//! the last (up to three) `.`-separated segments of two names agree.
use vstd::prelude::*;
use crate::naming::{seg_end, lemma_seg_end_bounds};
use crate::text::utf8;

verus! {

/// The `.`-separated segments of the name from byte `p` on (the whole name
/// for `p == 0`; a name without dots is one segment).
pub open spec fn segments_from(h: Seq<u8>, p: int) -> Seq<Seq<u8>>
    decreases h.len() - p,
{
    if p < 0 || p > h.len() {
        Seq::empty()
    } else {
        let e = seg_end(h, p);
        if e >= h.len() {
            seq![h.subrange(p, h.len() as int)]
        } else {
            proof {
                lemma_seg_end_bounds(h, p);
            }
            seq![h.subrange(p, e)] + segments_from(h, e + 1)
        }
    }
}

/// The `.`-separated segments of a name.
pub open spec fn segments(h: Seq<u8>) -> Seq<Seq<u8>> {
    segments_from(h, 0)
}

/// Number of the last `n` segments that agree position by position from the
/// end.
pub open spec fn suffix_agree(a: Seq<Seq<u8>>, b: Seq<Seq<u8>>, n: int) -> int
    decreases n,
{
    if n <= 0 {
        0
    } else {
        suffix_agree(a, b, n - 1) + if a[a.len() - n] == b[b.len() - n] {
            1int
        } else {
            0int
        }
    }
}

/// Segments compared: as many as the shorter name has, at most three.
pub open spec fn compare_len(a: Seq<Seq<u8>>, b: Seq<Seq<u8>>) -> int {
    let m = if a.len() < b.len() {
        a.len() as int
    } else {
        b.len() as int
    };
    if m < 3 {
        m
    } else {
        3
    }
}

fn split_segments(h: &[u8]) -> (r: Vec<Vec<u8>>)
    ensures
        r@.len() == segments(h@).len(),
        forall|i: int| 0 <= i < r@.len() ==> (#[trigger] r@[i])@ == segments(h@)[i],
{
    let n = h.len();
    let mut out: Vec<Vec<u8>> = Vec::new();
    let mut p: usize = 0;
    loop
        invariant
            n == h@.len(),
            p <= n,
            forall|i: int| 0 <= i < out@.len() ==> (#[trigger] out@[i])@ == segments(h@)[i],
            segments(h@) == out@.map_values(|v: Vec<u8>| v@) + segments_from(h@, p as int),
        decreases n - p,
    {
        proof {
            lemma_seg_end_bounds(h@, p as int);
        }
        let mut e: usize = p;
        while e < n && h[e] != 46u8
            invariant
                p <= e <= n,
                n == h@.len(),
                seg_end(h@, p as int) == seg_end(h@, e as int),
            decreases n - e,
        {
            e = e + 1;
        }
        let seg = crate::text::sub_bytes(h, p, e);
        let ghost before = out@;
        out.push(seg);
        proof {
            assert(out@.map_values(|v: Vec<u8>| v@) =~= before.map_values(|v: Vec<u8>| v@).push(seg@));
        }
        if e >= n {
            proof {
                assert(segments(h@) =~= out@.map_values(|v: Vec<u8>| v@));
            }
            return out;
        }
        proof {
            assert(segments_from(h@, p as int) =~= seq![seg@] + segments_from(h@, e + 1));
            assert(segments(h@) =~= out@.map_values(|v: Vec<u8>| v@) + segments_from(h@, e + 1));
        }
        p = e + 1;
    }
}

/// Name similarity of two tensor names as `(agreeing, compared)`: the last
/// `compared` segments (as many as the shorter name has, at most three) are
/// compared from the end, `agreeing` of them are equal. The similarity is
/// their ratio.
pub fn name_similarity(a: &str, b: &str) -> (r: (usize, usize))
    ensures
        r.1 == compare_len(segments(utf8(a@)), segments(utf8(b@))),
        r.0 == suffix_agree(segments(utf8(a@)), segments(utf8(b@)), r.1 as int),
{
    let sa = split_segments(a.as_bytes());
    let sb = split_segments(b.as_bytes());
    let m = if sa.len() < sb.len() {
        sa.len()
    } else {
        sb.len()
    };
    let c = if m < 3 {
        m
    } else {
        3
    };
    let ghost ga = segments(utf8(a@));
    let ghost gb = segments(utf8(b@));
    let mut matches: usize = 0;
    let mut k: usize = 0;
    while k < c
        invariant
            c <= sa@.len(),
            c <= sb@.len(),
            sa@.len() == ga.len(),
            sb@.len() == gb.len(),
            forall|i: int| 0 <= i < sa@.len() ==> (#[trigger] sa@[i])@ == ga[i],
            forall|i: int| 0 <= i < sb@.len() ==> (#[trigger] sb@[i])@ == gb[i],
            k <= c,
            matches <= k,
            matches == suffix_agree(ga, gb, k as int),
        decreases c - k,
    {
        let x = &sa[sa.len() - 1 - k];
        let y = &sb[sb.len() - 1 - k];
        let same = crate::text::bytes_eq(x.as_slice(), y.as_slice());
        proof {
            assert(x@ == ga[ga.len() - (k + 1)]);
            assert(y@ == gb[gb.len() - (k + 1)]);
        }
        if same {
            matches = matches + 1;
        }
        k = k + 1;
    }
    (matches, c)
}

} // verus!
