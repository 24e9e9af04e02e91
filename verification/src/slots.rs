//! Slot-level planning over canonical tensor maps, given by their slot keys:
//! union/intersection coverage of a heterogeneous merge, and the
//! decoder/encoder block pairing of cross-attention fusion.
use vstd::prelude::*;
use crate::order::{has_str, insert_sorted, sorted_union, str_lt, strictly_sorted};
use crate::text::{ascii_lower, ascii_lowercase, bytes_eq, find, find_first, parse_usize, parse_usize_spec, utf8};

verus! {

// ---------------------------------------------------------------------------
// Heterogeneous merge coverage
// ---------------------------------------------------------------------------

/// Slot-coverage policy for heterogeneous merges.
#[derive(Debug, Clone, Copy, PartialEq, Eq, Structural)]
pub enum HeteroMode {
    /// Every slot any parent provides.
    Union,
    /// Only slots present in all parents.
    Intersection,
}

/// A coverage mode that is not `union`, `intersection` or `intersect`; it
/// holds the lowercased bytes of the request.
#[derive(Debug, Clone, PartialEq, Eq)]
pub enum HeteroError {
    UnknownMode(Vec<u8>),
}

/// The mode an ASCII-lowercased name selects.
pub open spec fn hetero_mode_of(lower: Seq<u8>) -> Option<HeteroMode> {
    if lower == utf8("union"@) {
        Some(HeteroMode::Union)
    } else if lower == utf8("intersection"@) || lower == utf8("intersect"@) {
        Some(HeteroMode::Intersection)
    } else {
        None
    }
}

impl HeteroMode {
    /// Parses a mode name, ignoring ASCII case.
    pub fn parse(s: &str) -> (r: Result<Self, HeteroError>)
        ensures
            match hetero_mode_of(ascii_lower(utf8(s@))) {
                Some(m) => r == Ok::<HeteroMode, HeteroError>(m),
                None => r matches Err(HeteroError::UnknownMode(l)) && l@ == ascii_lower(utf8(s@)),
            },
    {
        let low = ascii_lowercase(s.as_bytes());
        if bytes_eq(low.as_slice(), "union".as_bytes()) {
            Ok(HeteroMode::Union)
        } else if bytes_eq(low.as_slice(), "intersection".as_bytes()) || bytes_eq(
            low.as_slice(),
            "intersect".as_bytes(),
        ) {
            Ok(HeteroMode::Intersection)
        } else {
            Err(HeteroError::UnknownMode(low))
        }
    }
}

/// One planned slot: which parents hold it.
#[derive(Debug, Clone)]
pub struct SlotPlan {
    pub slot_key: String,
    pub holders: Vec<usize>,
}

/// Parent `i` holds slot `key`.
pub open spec fn holds(maps: Seq<Vec<String>>, i: int, key: Seq<char>) -> bool {
    has_str(maps[i]@, key)
}

/// Slot `key` is emitted under `mode`: some parent holds it, and under
/// intersection every parent does.
pub open spec fn slot_kept(mode: HeteroMode, maps: Seq<Vec<String>>, key: Seq<char>) -> bool {
    &&& exists|i: int| 0 <= i < maps.len() && #[trigger] holds(maps, i, key)
    &&& mode == HeteroMode::Intersection ==> forall|i: int| 0 <= i < maps.len() ==> #[trigger] holds(maps, i, key)
}

/// `h` lists, in increasing order, exactly the parents holding `key`.
pub open spec fn holders_of(maps: Seq<Vec<String>>, key: Seq<char>, h: Seq<usize>) -> bool {
    &&& forall|a: int, b: int| 0 <= a < b < h.len() ==> h[a] < h[b]
    &&& forall|a: int| 0 <= a < h.len() ==> #[trigger] h[a] < maps.len()
    &&& forall|i: int| 0 <= i < maps.len() ==> (h.contains(i as usize) <==> #[trigger] holds(maps, i, key))
}

/// Does the list hold the string?
pub fn contains_str(v: &Vec<String>, x: &String) -> (r: bool)
    ensures
        r == has_str(v@, x@),
{
    let mut i: usize = 0;
    while i < v.len()
        invariant
            i <= v.len(),
            forall|k: int| 0 <= k < i ==> v@[k]@ != x@,
        decreases v.len() - i,
    {
        if v[i] == *x {
            return true;
        }
        i = i + 1;
    }
    false
}

/// Plans slot coverage over the slot keys of each parent: one entry per
/// emitted slot, in increasing key order, with the parents holding it.
pub fn plan_slots(mode: HeteroMode, maps: &[Vec<String>]) -> (r: Vec<SlotPlan>)
    ensures
        forall|a: int, b: int| 0 <= a < b < r@.len() ==> str_lt(#[trigger] r@[a].slot_key@, #[trigger] r@[b].slot_key@),
        forall|key: Seq<char>|
            (exists|t: int| 0 <= t < r@.len() && #[trigger] r@[t].slot_key@ == key) <==> slot_kept(mode, maps@, key),
        forall|t: int| 0 <= t < r@.len() ==> holders_of(maps@, #[trigger] r@[t].slot_key@, r@[t].holders@),
{
    let keys = sorted_union(maps);
    let n = maps.len();
    let mut out: Vec<SlotPlan> = Vec::new();
    let mut k: usize = 0;
    while k < keys.len()
        invariant
            n == maps@.len(),
            strictly_sorted(keys@),
            forall|s: Seq<char>|
                has_str(keys@, s) <==> exists|i: int| 0 <= i < maps@.len() && has_str(#[trigger] maps@[i]@, s),
            k <= keys.len(),
            forall|t: int| 0 <= t < out@.len() ==> holders_of(maps@, #[trigger] out@[t].slot_key@, out@[t].holders@),
            forall|t: int| 0 <= t < out@.len() ==> slot_kept(mode, maps@, #[trigger] out@[t].slot_key@),
            forall|a: int, b: int|
                0 <= a < b < out@.len() ==> str_lt(#[trigger] out@[a].slot_key@, #[trigger] out@[b].slot_key@),
            forall|t: int, q: int|
                0 <= t < out@.len() && k <= q < keys@.len() ==> str_lt(#[trigger] out@[t].slot_key@, #[trigger] keys@[q]@),
            forall|q: int|
                0 <= q < k && slot_kept(mode, maps@, #[trigger] keys@[q]@) ==> exists|t: int|
                    0 <= t < out@.len() && #[trigger] out@[t].slot_key@ == keys@[q]@,
        decreases keys.len() - k,
    {
        let key = &keys[k];
        let mut holders: Vec<usize> = Vec::new();
        let mut all = true;
        let mut i: usize = 0;
        while i < n
            invariant
                n == maps@.len(),
                i <= n,
                key@ == keys@[k as int]@,
                forall|a: int, b: int| 0 <= a < b < holders@.len() ==> holders@[a] < holders@[b],
                forall|a: int| 0 <= a < holders@.len() ==> #[trigger] holders@[a] < i,
                forall|j: int| 0 <= j < i ==> (holders@.contains(j as usize) <==> #[trigger] holds(maps@, j, key@)),
                all <==> forall|j: int| 0 <= j < i ==> #[trigger] holds(maps@, j, key@),
            decreases n - i,
        {
            let h = contains_str(&maps[i], key);
            let ghost before = holders@;
            if h {
                holders.push(i);
            } else {
                all = false;
            }
            proof {
                assert(h == holds(maps@, i as int, key@));
                assert forall|j: int| 0 <= j < i + 1 implies (holders@.contains(j as usize) <==> #[trigger] holds(
                    maps@,
                    j,
                    key@,
                )) by {
                    if j < i {
                        if holders@.contains(j as usize) {
                            let a = choose|a: int| 0 <= a < holders@.len() && holders@[a] == j as usize;
                            if a < before.len() {
                                assert(before.contains(j as usize));
                            }
                        }
                        if before.contains(j as usize) {
                            let a = choose|a: int| 0 <= a < before.len() && before[a] == j as usize;
                            assert(holders@[a] == j as usize);
                        }
                    } else {
                        if h {
                            assert(holders@[holders@.len() - 1] == j as usize);
                        }
                        if holders@.contains(j as usize) {
                            let a = choose|a: int| 0 <= a < holders@.len() && holders@[a] == j as usize;
                            if a < before.len() {
                                assert(before[a] < i);
                            }
                        }
                    }
                }
            }
            i = i + 1;
        }
        proof {
            assert(has_str(keys@, key@)) by {
                assert(keys@[k as int]@ == key@);
            }
        }
        let keep = match mode {
            HeteroMode::Union => true,
            HeteroMode::Intersection => all,
        };
        let ghost old_out = out@;
        if keep {
            out.push(SlotPlan { slot_key: key.clone(), holders });
            proof {
                assert(out@[out@.len() - 1].slot_key@ == key@);
            }
        }
        proof {
            let kk = keys@[k as int]@;
            let i0 = choose|i: int| 0 <= i < maps@.len() && has_str(#[trigger] maps@[i]@, kk);
            assert(holds(maps@, i0, kk));
            assert(keep <==> slot_kept(mode, maps@, kk));
            assert forall|t: int, q: int|
                0 <= t < out@.len() && k + 1 <= q < keys@.len() implies str_lt(
                #[trigger] out@[t].slot_key@,
                #[trigger] keys@[q]@,
            ) by {
                if t < old_out.len() {
                    assert(str_lt(old_out[t].slot_key@, keys@[q]@));
                } else {
                    assert(str_lt(keys@[k as int]@, keys@[q]@));
                }
            }
            assert forall|a: int, b: int|
                0 <= a < b < out@.len() implies str_lt(#[trigger] out@[a].slot_key@, #[trigger] out@[b].slot_key@) by {
                if b >= old_out.len() {
                    assert(str_lt(old_out[a].slot_key@, keys@[k as int]@));
                }
            }
            assert forall|q: int|
                0 <= q < k + 1 && slot_kept(mode, maps@, #[trigger] keys@[q]@) implies exists|t: int|
                0 <= t < out@.len() && #[trigger] out@[t].slot_key@ == keys@[q]@ by {
                if q < k {
                    let t = choose|t: int| 0 <= t < old_out.len() && #[trigger] old_out[t].slot_key@ == keys@[q]@;
                    assert(out@[t].slot_key@ == keys@[q]@);
                } else {
                    assert(out@[out@.len() - 1].slot_key@ == keys@[q]@);
                }
            }
        }
        k = k + 1;
    }
    proof {
        assert forall|key: Seq<char>|
            (exists|t: int| 0 <= t < out@.len() && #[trigger] out@[t].slot_key@ == key) <==> slot_kept(
                mode,
                maps@,
                key,
            ) by {
            if exists|t: int| 0 <= t < out@.len() && #[trigger] out@[t].slot_key@ == key {
                let t = choose|t: int| 0 <= t < out@.len() && #[trigger] out@[t].slot_key@ == key;
                assert(slot_kept(mode, maps@, out@[t].slot_key@));
            }
            if slot_kept(mode, maps@, key) {
                let i = choose|i: int| 0 <= i < maps@.len() && #[trigger] holds(maps@, i, key);
                assert(has_str(maps@[i]@, key));
                assert(has_str(keys@, key));
                let q = choose|q: int| 0 <= q < keys@.len() && #[trigger] keys@[q]@ == key;
                assert(slot_kept(mode, maps@, keys@[q]@));
            }
        }
    }
    out
}

// ---------------------------------------------------------------------------
// Cross-attention encoder fusion
// ---------------------------------------------------------------------------

/// Block ordinal of a slot key `b{idx}.{role}`: the digits between the
/// leading `b` and the first `.`, parsed as a `usize`.
pub open spec fn block_ordinal(key: Seq<u8>) -> Option<nat> {
    if key.len() > 0 && key[0] == 98u8 {
        let rest = key.drop_first();
        match find_first(rest, seq![46u8]) {
            Some(p) => parse_usize_spec(rest.take(p)),
            None => None,
        }
    } else {
        None
    }
}

/// `s` lists, in increasing order, the distinct block ordinals of `keys`.
pub open spec fn is_ordinal_list(keys: Seq<String>, s: Seq<usize>) -> bool {
    &&& forall|a: int, b: int| 0 <= a < b < s.len() ==> s[a] < s[b]
    &&& forall|x: usize| s.contains(x) <==> exists|j: int| 0 <= j < keys.len() && block_ordinal(utf8(#[trigger] keys[j]@)) == Some(x as nat)
}

/// Distance of two ordinals.
pub open spec fn dist(a: int, b: int) -> int {
    if a >= b {
        a - b
    } else {
        b - a
    }
}

/// `r` is the block closest to `target`, the deeper one on a tie.
pub open spec fn is_nearest(blocks: Seq<usize>, target: int, r: int) -> bool {
    &&& exists|i: int| 0 <= i < blocks.len() && blocks[i] == r
    &&& forall|i: int|
        0 <= i < blocks.len() ==> dist(r, target) < dist(#[trigger] blocks[i] as int, target) || (dist(r, target)
            == dist(blocks[i] as int, target) && r >= blocks[i])
}

/// Why a fusion plan was refused.
#[derive(Debug, Clone, Copy, PartialEq, Eq)]
pub enum FuseError {
    NoEncoders,
    ZeroHeads,
    ZeroStride,
    DecoderWithoutBlocks,
    /// The encoder at this index has no block slots.
    EncoderWithoutBlocks(usize),
}

/// Pairing settings of a fusion plan.
#[derive(Debug, Clone, Copy)]
pub struct AttachConfig {
    pub heads: usize,
    /// Model width; 0 = infer later from tensor shapes.
    pub dim: usize,
    pub max_pairs: usize,
    /// Fuse every `stride`-th decoder block.
    pub stride: usize,
}

/// One fused (decoder block, encoder) pair.
#[derive(Debug, Clone, Copy, PartialEq, Eq)]
pub struct BlockPair {
    pub decoder_block: usize,
    pub encoder_idx: usize,
    pub encoder_block: usize,
}

/// Metadata-only fusion plan.
#[derive(Debug, Clone)]
pub struct AttachPlan {
    pub pairs: Vec<BlockPair>,
    pub heads: usize,
    pub dim: usize,
}

/// Cross-attention fusion planner.
pub struct EncoderFuser;

/// Pair `k` of a plan over decoder ordinals `dec`: the `k * stride`-th
/// decoder block, encoder `k mod n_enc`, and the block of `eb` nearest to it.
pub open spec fn pair_ok(p: BlockPair, k: int, dec: Seq<usize>, stride: int, n_enc: int, eb: Seq<usize>) -> bool {
    &&& 0 <= k * stride < dec.len()
    &&& p.decoder_block == dec[k * stride]
    &&& p.encoder_idx == k % n_enc
    &&& is_nearest(eb, p.decoder_block as int, p.encoder_block as int)
}

/// The keys hold at least one block ordinal.
pub open spec fn has_blocks(keys: Seq<String>) -> bool {
    exists|s: Seq<usize>| #[trigger] is_ordinal_list(keys, s) && s.len() > 0
}

/// `pairs` is the plan over the decoder's increasing ordinals `dec`: every
/// `stride`-th one, at most `max_pairs`, pair `k` on encoder `k mod n` at the
/// block of that encoder nearest to the decoder block. (Ordinal lists are
/// unique, see `lemma_ordinal_list_unique`.)
pub open spec fn plan_matches(
    decoder: Seq<String>,
    encoders: Seq<Vec<String>>,
    stride: int,
    max_pairs: int,
    pairs: Seq<BlockPair>,
) -> bool {
    forall|dec: Seq<usize>|
        #[trigger] is_ordinal_list(decoder, dec) ==> pairs.len() == pair_count(dec.len() as int, stride, max_pairs)
            && forall|k: int, eb: Seq<usize>|
            0 <= k < pairs.len() && #[trigger] is_ordinal_list(encoders[k % (encoders.len() as int)]@, eb)
                ==> pair_ok(#[trigger] pairs[k], k, dec, stride, encoders.len() as int, eb)
}

/// Number of pairs a plan holds: every `stride`-th of `d` decoder blocks,
/// at most `max_pairs`.
pub open spec fn pair_count(d: int, stride: int, max_pairs: int) -> int {
    let stepped = (d + stride - 1) / stride;
    if stepped <= max_pairs {
        stepped
    } else {
        max_pairs
    }
}

/// Inserts `x` into a strictly increasing list unless it is there.
fn insert_sorted_usize(v: &mut Vec<usize>, x: usize)
    requires
        forall|a: int, b: int| 0 <= a < b < old(v)@.len() ==> old(v)@[a] < old(v)@[b],
    ensures
        forall|a: int, b: int| 0 <= a < b < final(v)@.len() ==> final(v)@[a] < final(v)@[b],
        forall|y: usize| final(v)@.contains(y) <==> (old(v)@.contains(y) || y == x),
{
    let mut i: usize = 0;
    while i < v.len()
        invariant
            i <= v.len(),
            v@ == old(v)@,
            forall|a: int, b: int| 0 <= a < b < v@.len() ==> v@[a] < v@[b],
            forall|k: int| 0 <= k < i ==> v@[k] < x,
        decreases v.len() - i,
    {
        if v[i] == x {
            assert(v@[i as int] == x);
            assert(old(v)@.contains(x));
            return;
        }
        if x < v[i] {
            let ghost before = v@;
            v.insert(i, x);
            proof {
                assert forall|y: usize| v@.contains(y) <==> (before.contains(y) || y == x) by {
                    if v@.contains(y) {
                        let k = choose|k: int| 0 <= k < v@.len() && v@[k] == y;
                        if k < i {
                            assert(before[k] == y);
                        } else if k > i {
                            assert(before[k - 1] == y);
                        }
                    }
                    if before.contains(y) {
                        let k = choose|k: int| 0 <= k < before.len() && before[k] == y;
                        if k < i {
                            assert(v@[k] == y);
                        } else {
                            assert(v@[k + 1] == y);
                        }
                    }
                    if y == x {
                        assert(v@[i as int] == y);
                    }
                }
            }
            return;
        }
        i = i + 1;
    }
    let ghost before = v@;
    v.push(x);
    proof {
        assert(before == old(v)@);
        assert forall|a: int, b: int| 0 <= a < b < v@.len() implies v@[a] < v@[b] by {
            if b == before.len() {
                assert(v@[a] == before[a]);
            }
        }
        assert forall|y: usize| #[trigger] v@.contains(y) <==> (old(v)@.contains(y) || y == x) by {
            if v@.contains(y) {
                let k = choose|k: int| 0 <= k < v@.len() && v@[k] == y;
                if k < before.len() {
                    assert(before[k] == y);
                }
            }
            if old(v)@.contains(y) {
                let k = choose|k: int| 0 <= k < before.len() && before[k] == y;
                assert(v@[k] == y);
            }
            if y == x {
                assert(v@[before.len() as int] == y);
            }
        }
    }
}

/// Block ordinal of one slot key.
fn key_ordinal(key: &String) -> (r: Option<usize>)
    ensures
        match r {
            Some(x) => block_ordinal(utf8(key@)) == Some(x as nat),
            None => block_ordinal(utf8(key@)) is None,
        },
{
    let bytes = key.as_str().as_bytes();
    if bytes.len() == 0 || bytes[0] != 98u8 {
        return None;
    }
    let n = bytes.len();
    let rest = crate::text::sub_bytes(bytes, 1, n);
    assert(rest@ =~= utf8(key@).drop_first());
    let dot: [u8; 1] = [46u8];
    assert(dot@ =~= seq![46u8]);
    match find(rest.as_slice(), &dot) {
        Some(p) => {
            proof {
                crate::text::lemma_find_from(rest@, dot@, 0);
            }
            let num = crate::text::sub_bytes(rest.as_slice(), 0, p);
            assert(num@ =~= rest@.take(p as int));
            match parse_usize(num.as_slice()) {
                Some(x) => Some(x),
                None => None,
            }
        },
        None => None,
    }
}

impl EncoderFuser {
    /// Distinct block ordinals of a map's slot keys, increasing.
    pub fn block_ordinals(keys: &[String]) -> (r: Vec<usize>)
        ensures
            is_ordinal_list(keys@, r@),
    {
        let mut out: Vec<usize> = Vec::new();
        let mut j: usize = 0;
        while j < keys.len()
            invariant
                j <= keys.len(),
                forall|a: int, b: int| 0 <= a < b < out@.len() ==> out@[a] < out@[b],
                forall|x: usize|
                    out@.contains(x) <==> exists|t: int|
                        0 <= t < j && block_ordinal(utf8(#[trigger] keys@[t]@)) == Some(x as nat),
            decreases keys.len() - j,
        {
            let o = key_ordinal(&keys[j]);
            let ghost before = out@;
            match o {
                Some(x) => {
                    insert_sorted_usize(&mut out, x);
                },
                None => {},
            }
            proof {
                assert forall|x: usize| out@.contains(x) <==> exists|t: int|
                    0 <= t < j + 1 && block_ordinal(utf8(#[trigger] keys@[t]@)) == Some(x as nat) by {
                    if exists|t: int| 0 <= t < j + 1 && block_ordinal(utf8(#[trigger] keys@[t]@)) == Some(x as nat) {
                        let t = choose|t: int| 0 <= t < j + 1 && block_ordinal(utf8(#[trigger] keys@[t]@)) == Some(x as nat);
                        if t < j {
                            assert(before.contains(x));
                        }
                    }
                    if out@.contains(x) && !(o == Some(x)) {
                        assert(before.contains(x));
                    }
                    if o == Some(x) {
                        assert(block_ordinal(utf8(keys@[j as int]@)) == Some(x as nat));
                    }
                }
            }
            j = j + 1;
        }
        out
    }

    /// The block closest to `target` (the deeper one on a tie).
    pub fn nearest_block(blocks: &[usize], target: usize) -> (r: usize)
        requires
            blocks@.len() > 0,
        ensures
            is_nearest(blocks@, target as int, r as int),
    {
        let mut best = blocks[0];
        let mut best_dist = usize::MAX;
        let mut i: usize = 0;
        while i < blocks.len()
            invariant
                blocks@.len() > 0,
                i <= blocks.len(),
                i == 0 ==> best == blocks@[0] && best_dist == usize::MAX,
                i > 0 ==> best_dist == dist(best as int, target as int),
                exists|k: int| 0 <= k < blocks@.len() && blocks@[k] == best,
                forall|k: int|
                    0 <= k < i ==> dist(best as int, target as int) < dist(#[trigger] blocks@[k] as int, target as int)
                        || (dist(best as int, target as int) == dist(blocks@[k] as int, target as int) && best
                        >= blocks@[k]),
            decreases blocks.len() - i,
        {
            let b = blocks[i];
            let d = if b >= target {
                b - target
            } else {
                target - b
            };
            if d < best_dist || (d == best_dist && b > best) {
                best = b;
                best_dist = d;
            }
            i = i + 1;
        }
        best
    }

    /// Builds a fusion plan from the slot keys of a decoder map and of each
    /// encoder map. Decoder block ordinals are taken in increasing order,
    /// every `stride`-th one up to `max_pairs`; pair `k` goes to encoder
    /// `k mod (number of encoders)` and targets that encoder's nearest block.
    pub fn attach(decoder: &[String], encoders: &[Vec<String>], config: &AttachConfig) -> (r: Result<
        AttachPlan,
        FuseError,
    >)
        ensures
            encoders@.len() == 0 ==> r == Err::<AttachPlan, FuseError>(FuseError::NoEncoders),
            encoders@.len() > 0 && config.heads == 0 ==> r == Err::<AttachPlan, FuseError>(FuseError::ZeroHeads),
            encoders@.len() > 0 && config.heads > 0 && config.stride == 0 ==> r == Err::<AttachPlan, FuseError>(
                FuseError::ZeroStride,
            ),
            encoders@.len() > 0 && config.heads > 0 && config.stride > 0 ==> (r == Err::<AttachPlan, FuseError>(
                FuseError::DecoderWithoutBlocks,
            ) <==> forall|s: Seq<usize>| is_ordinal_list(decoder@, s) ==> s.len() == 0),
            r matches Err(FuseError::EncoderWithoutBlocks(i)) ==> i < encoders@.len() && (forall|s: Seq<usize>|
                is_ordinal_list(encoders@[i as int]@, s) ==> s.len() == 0) && forall|j: int|
                0 <= j < i ==> forall|s: Seq<usize>| is_ordinal_list(#[trigger] encoders@[j]@, s) ==> s.len() > 0,
            r is Ok <==> (encoders@.len() > 0 && config.heads > 0 && config.stride > 0 && has_blocks(decoder@)
                && forall|j: int| 0 <= j < encoders@.len() ==> has_blocks(#[trigger] encoders@[j]@)),
            r matches Ok(plan) ==> plan.heads == config.heads && plan.dim == config.dim && plan_matches(
                decoder@,
                encoders@,
                config.stride as int,
                config.max_pairs as int,
                plan.pairs@,
            ),
    {
        if encoders.len() == 0 {
            return Err(FuseError::NoEncoders);
        }
        if config.heads == 0 {
            return Err(FuseError::ZeroHeads);
        }
        if config.stride == 0 {
            return Err(FuseError::ZeroStride);
        }
        let dec = Self::block_ordinals(decoder);
        proof {
            lemma_ordinal_list_unique(decoder@, dec@);
        }
        if dec.len() == 0 {
            return Err(FuseError::DecoderWithoutBlocks);
        }
        let mut enc: Vec<Vec<usize>> = Vec::new();
        let mut i: usize = 0;
        while i < encoders.len()
            invariant
                encoders@.len() > 0,
                config.heads > 0,
                config.stride > 0,
                is_ordinal_list(decoder@, dec@),
                dec@.len() > 0,
                i <= encoders.len(),
                enc@.len() == i,
                forall|j: int| 0 <= j < i ==> is_ordinal_list(#[trigger] encoders@[j]@, enc@[j]@) && enc@[j]@.len() > 0,
            decreases encoders.len() - i,
        {
            let b = Self::block_ordinals(&encoders[i]);
            proof {
                lemma_ordinal_list_unique(encoders@[i as int]@, b@);
            }
            if b.len() == 0 {
                proof {
                    assert forall|j: int| 0 <= j < i implies forall|s: Seq<usize>|
                        is_ordinal_list(#[trigger] encoders@[j]@, s) ==> s.len() > 0 by {
                        assert forall|s: Seq<usize>| is_ordinal_list(#[trigger] encoders@[j]@, s) implies s.len() > 0 by {
                            lemma_ordinal_list_unique(encoders@[j]@, enc@[j]@);
                        }
                    }
                }
                return Err(FuseError::EncoderWithoutBlocks(i));
            }
            enc.push(b);
            i = i + 1;
        }
        let e = encoders.len();
        let stride = config.stride;
        let cap = config.max_pairs;
        let mut pairs: Vec<BlockPair> = Vec::new();
        let mut k: usize = 0;
        let mut pos: usize = 0;
        while pos < dec.len() && k < cap
            invariant
                e == encoders@.len(),
                e > 0,
                enc@.len() == e,
                forall|j: int| 0 <= j < e ==> is_ordinal_list(#[trigger] encoders@[j]@, enc@[j]@) && enc@[j]@.len() > 0,
                stride == config.stride,
                stride > 0,
                cap == config.max_pairs,
                pos <= dec@.len(),
                pos < dec@.len() ==> pos == k * stride,
                pos == dec@.len() ==> k * stride >= dec@.len(),
                k <= cap,
                pairs@.len() == k,
                k <= (dec@.len() + stride - 1) / (stride as int),
                forall|t: int|
                    0 <= t < pairs@.len() ==> pair_ok(
                        #[trigger] pairs@[t],
                        t,
                        dec@,
                        stride as int,
                        e as int,
                        enc@[t % (e as int)]@,
                    ),
            decreases dec.len() - pos,
        {
            let db = dec[pos];
            let ei = k % e;
            assert(ei < e) by (nonlinear_arith)
                requires
                    e > 0,
                    ei == k % e,
            ;
            assert(is_ordinal_list(encoders@[ei as int]@, enc@[ei as int]@));
            assert(enc@[ei as int]@.len() > 0);
            let eb = Self::nearest_block(enc[ei].as_slice(), db);
            let ghost before = pairs@;
            pairs.push(BlockPair { decoder_block: db, encoder_idx: ei, encoder_block: eb });
            proof {
                assert forall|t: int| 0 <= t < pairs@.len() implies pair_ok(
                    #[trigger] pairs@[t],
                    t,
                    dec@,
                    stride as int,
                    e as int,
                    enc@[t % (e as int)]@,
                ) by {
                    if t < before.len() {
                        assert(pairs@[t] == before[t]);
                    } else {
                        assert(t == k);
                        assert(0 <= k * stride) by (nonlinear_arith);
                    }
                }
            }
            proof {
                lemma_step_count(dec@.len() as int, stride as int, k as int);
                lemma_step_count(dec@.len() as int, stride as int, k + 1);
                assert((k + 1) * stride == k * stride + stride) by (nonlinear_arith);
            }
            k = k + 1;
            if dec.len() - pos <= stride {
                pos = dec.len();
            } else {
                pos = pos + stride;
            }
        }
        proof {
            lemma_step_count(dec@.len() as int, stride as int, k as int);
        }
        proof {
            assert forall|d: Seq<usize>| #[trigger] is_ordinal_list(decoder@, d) implies pairs@.len() == pair_count(
                d.len() as int,
                stride as int,
                cap as int,
            ) && forall|k: int, eb: Seq<usize>|
                0 <= k < pairs@.len() && #[trigger] is_ordinal_list(encoders@[k % (encoders@.len() as int)]@, eb)
                    ==> pair_ok(#[trigger] pairs@[k], k, d, stride as int, encoders@.len() as int, eb) by {
                lemma_ordinal_list_unique(decoder@, dec@);
                assert(d == dec@);
                assert forall|k: int, eb: Seq<usize>|
                    0 <= k < pairs@.len() && #[trigger] is_ordinal_list(encoders@[k % (encoders@.len() as int)]@, eb)
                        implies pair_ok(#[trigger] pairs@[k], k, d, stride as int, encoders@.len() as int, eb) by {
                    let j = k % (e as int);
                    assert(0 <= j < e) by (nonlinear_arith)
                        requires
                            e > 0,
                            j == k % (e as int),
                    ;
                    assert(is_ordinal_list(encoders@[j]@, enc@[j]@));
                    lemma_ordinal_list_unique(encoders@[j]@, enc@[j]@);
                    assert(eb == enc@[j]@);
                    assert(pair_ok(pairs@[k], k, dec@, stride as int, e as int, enc@[j]@));
                }
            }
            assert forall|j: int| 0 <= j < encoders@.len() implies has_blocks(#[trigger] encoders@[j]@) by {
                assert(is_ordinal_list(encoders@[j]@, enc@[j]@));
                assert(enc@[j]@.len() > 0);
            }
            assert(is_ordinal_list(decoder@, dec@));
            assert(has_blocks(decoder@));
            assert(pairs@.len() == pair_count(dec@.len() as int, stride as int, cap as int));
            assert(plan_matches(decoder@, encoders@, stride as int, cap as int, pairs@));
        }
        Ok(AttachPlan { pairs, heads: config.heads, dim: config.dim })
    }
}

/// Stepping `k` times by `stride` from 0 stays inside `d` exactly while
/// `k < ceil(d / stride)`.
proof fn lemma_step_count(d: int, stride: int, k: int)
    requires
        stride > 0,
        d >= 0,
        k >= 0,
    ensures
        k * stride < d <==> k < (d + stride - 1) / stride,
{
    assert(k * stride < d <==> k < (d + stride - 1) / stride) by (nonlinear_arith)
        requires
            stride > 0,
            d >= 0,
            k >= 0,
    ;
}

/// The nearest block never moves shallower as the target moves deeper.
pub proof fn lemma_nearest_monotone(blocks: Seq<usize>, t1: int, t2: int, r1: int, r2: int)
    requires
        is_nearest(blocks, t1, r1),
        is_nearest(blocks, t2, r2),
        t1 <= t2,
    ensures
        r1 <= r2,
{
    let i1 = choose|i: int| 0 <= i < blocks.len() && blocks[i] == r1;
    let i2 = choose|i: int| 0 <= i < blocks.len() && blocks[i] == r2;
    assert(dist(r1, t1) < dist(blocks[i2] as int, t1) || (dist(r1, t1) == dist(blocks[i2] as int, t1) && r1
        >= blocks[i2]));
    assert(dist(r2, t2) < dist(blocks[i1] as int, t2) || (dist(r2, t2) == dist(blocks[i1] as int, t2) && r2
        >= blocks[i1]));
}

/// A fusion plan preserves depth: later pairs sit on deeper decoder blocks,
/// and pairs on the same encoder never target a shallower encoder block.
pub proof fn lemma_plan_depth_order(
    decoder: Seq<String>,
    encoders: Seq<Vec<String>>,
    stride: int,
    max_pairs: int,
    pairs: Seq<BlockPair>,
    a: int,
    b: int,
)
    requires
        stride > 0,
        has_blocks(decoder),
        forall|j: int| 0 <= j < encoders.len() ==> has_blocks(#[trigger] encoders[j]@),
        encoders.len() > 0,
        plan_matches(decoder, encoders, stride, max_pairs, pairs),
        0 <= a < b < pairs.len(),
    ensures
        pairs[a].decoder_block < pairs[b].decoder_block,
        pairs[a].encoder_idx == pairs[b].encoder_idx ==> pairs[a].encoder_block <= pairs[b].encoder_block,
{
    let dec = choose|s: Seq<usize>| #[trigger] is_ordinal_list(decoder, s) && s.len() > 0;
    let n = encoders.len() as int;
    let ja = a % n;
    let jb = b % n;
    assert(0 <= ja < n && 0 <= jb < n) by (nonlinear_arith)
        requires
            n > 0,
            ja == a % n,
            jb == b % n,
    ;
    assert(has_blocks(encoders[ja]@));
    assert(has_blocks(encoders[jb]@));
    let ea = choose|s: Seq<usize>| #[trigger] is_ordinal_list(encoders[ja]@, s) && s.len() > 0;
    let eb = choose|s: Seq<usize>| #[trigger] is_ordinal_list(encoders[jb]@, s) && s.len() > 0;
    assert(pair_ok(pairs[a], a, dec, stride, n, ea));
    assert(pair_ok(pairs[b], b, dec, stride, n, eb));
    assert(a * stride < b * stride) by (nonlinear_arith)
        requires
            a < b,
            stride > 0,
    ;
    if pairs[a].encoder_idx == pairs[b].encoder_idx {
        assert(ja == jb);
        lemma_nearest_monotone(
            ea,
            pairs[a].decoder_block as int,
            pairs[b].decoder_block as int,
            pairs[a].encoder_block as int,
            pairs[b].encoder_block as int,
        );
    }
}

/// An increasing list with given members is unique.
pub proof fn lemma_ordinal_list_unique(keys: Seq<String>, s: Seq<usize>)
    requires
        is_ordinal_list(keys, s),
    ensures
        forall|t: Seq<usize>| is_ordinal_list(keys, t) ==> t == s,
{
    assert forall|t: Seq<usize>| is_ordinal_list(keys, t) implies t == s by {
        lemma_sorted_same_members(s, t);
    }
}

proof fn lemma_sorted_same_members(s: Seq<usize>, t: Seq<usize>)
    requires
        forall|a: int, b: int| 0 <= a < b < s.len() ==> s[a] < s[b],
        forall|a: int, b: int| 0 <= a < b < t.len() ==> t[a] < t[b],
        forall|x: usize| s.contains(x) <==> t.contains(x),
    ensures
        s == t,
    decreases s.len() + t.len(),
{
    if s.len() == 0 {
        if t.len() > 0 {
            assert(t.contains(t[0]));
        }
        assert(s =~= t);
    } else if t.len() == 0 {
        assert(s.contains(s[0]));
    } else {
        let ls = s.last();
        let lt = t.last();
        assert(s.contains(ls));
        assert(t.contains(lt));
        let is_ = choose|a: int| 0 <= a < s.len() && s[a] == lt;
        let it = choose|a: int| 0 <= a < t.len() && t[a] == ls;
        assert(ls == lt) by {
            if ls < lt {
                assert(s[is_] <= ls) by {
                    if is_ < s.len() - 1 {
                        assert(s[is_] < s[s.len() - 1]);
                    }
                }
            } else if lt < ls {
                assert(t[it] <= lt) by {
                    if it < t.len() - 1 {
                        assert(t[it] < t[t.len() - 1]);
                    }
                }
            }
        }
        let s2 = s.drop_last();
        let t2 = t.drop_last();
        assert forall|x: usize| s2.contains(x) <==> t2.contains(x) by {
            if s2.contains(x) {
                let a = choose|a: int| 0 <= a < s2.len() && s2[a] == x;
                assert(s[a] < ls);
                assert(t.contains(x));
                let b = choose|b: int| 0 <= b < t.len() && t[b] == x;
                assert(b != t.len() - 1);
                assert(t2[b] == x);
            }
            if t2.contains(x) {
                let a = choose|a: int| 0 <= a < t2.len() && t2[a] == x;
                assert(t[a] < lt);
                assert(s.contains(x));
                let b = choose|b: int| 0 <= b < s.len() && s[b] == x;
                assert(b != s.len() - 1);
                assert(s2[b] == x);
            }
        }
        lemma_sorted_same_members(s2, t2);
        assert(s =~= s2.push(ls));
        assert(t =~= t2.push(lt));
    }
}

} // verus!
