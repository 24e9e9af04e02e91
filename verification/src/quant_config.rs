//! Settings of the low-bit quantizers: the clamps their constructors apply,
//! the codebook check of BTC, the Haar work length of HBLLM, the width set of
//! QuEPT and the nibble layout of BSQAT blocks.
use vstd::prelude::*;
use crate::onecomp::clamp_spec;

verus! {

/// `v` raised to at least `lo`.
pub open spec fn at_least(v: int, lo: int) -> int {
    if v < lo {
        lo
    } else {
        v
    }
}

fn clamp_u8(v: u8, lo: u8, hi: u8) -> (r: u8)
    requires
        lo <= hi,
    ensures
        r == clamp_spec(v as int, lo as int, hi as int),
{
    if v < lo {
        lo
    } else if v > hi {
        hi
    } else {
        v
    }
}

fn max_usize(v: usize, lo: usize) -> (r: usize)
    ensures
        r == at_least(v as int, lo as int),
{
    if v < lo {
        lo
    } else {
        v
    }
}

/// AF1: strict one-bit codes with a single global scale.
pub struct Af1Quantizer {
    pub bits: u8,
    pub group: usize,
}

impl Af1Quantizer {
    /// Bits are always 1; the group is at least 32.
    pub fn new(bits: u8, group: usize) -> (q: Self)
        ensures
            q.bits == 1,
            q.group == at_least(group as int, 32),
    {
        Af1Quantizer { bits: clamp_u8(bits, 1, 1), group: max_usize(group, 32) }
    }
}

/// ARB: one- or two-bit codes with alternating scale refinement.
pub struct ArbQuantizer {
    pub bits: u8,
    pub reorder: bool,
    pub group: usize,
}

impl ArbQuantizer {
    /// Bits clamped into `[1, 2]`; the group is at least 32.
    pub fn new(bits: u8, reorder: bool, group: usize) -> (q: Self)
        ensures
            q.bits == clamp_spec(bits as int, 1, 2),
            q.reorder == reorder,
            q.group == at_least(group as int, 32),
    {
        ArbQuantizer { bits: clamp_u8(bits, 1, 2), reorder, group: max_usize(group, 32) }
    }
}

/// BSQAT: block-wise symmetric codes; 4-bit codes are stored two per byte.
pub struct BsqatQuantizer {
    pub bits: u8,
    pub block: usize,
}

/// Nibble packing of one block: low nibble first, a trailing odd code alone.
pub open spec fn is_nibble_packing(codes: Seq<u8>, out: Seq<u8>) -> bool {
    &&& out.len() == (codes.len() + 1) / 2
    &&& forall|i: int|
        0 <= i < out.len() ==> #[trigger] out[i] == if 2 * i + 1 < codes.len() {
            (codes[2 * i] & 15u8) | ((codes[2 * i + 1] << 4u8) as u8)
        } else {
            codes[2 * i] & 15u8
        }
}

/// Code `k` of a nibble stream: even positions are low nibbles.
pub open spec fn nibble_at(packed: Seq<u8>, k: int) -> u8 {
    if k % 2 == 0 {
        packed[k / 2] & 15u8
    } else {
        packed[k / 2] >> 4u8
    }
}

impl BsqatQuantizer {
    /// Bits clamped into `[2, 8]`; the block is at least 16.
    pub fn new(bits: u8, block: usize) -> (q: Self)
        ensures
            q.bits == clamp_spec(bits as int, 2, 8),
            q.block == at_least(block as int, 16),
    {
        BsqatQuantizer { bits: clamp_u8(bits, 2, 8), block: max_usize(block, 16) }
    }

    /// Stored bytes of one block of codes: two codes per byte at 4 bits
    /// (low nibble first, a trailing odd code alone), one per byte otherwise.
    pub fn pack_block(&self, codes: &[u8]) -> (r: Vec<u8>)
        ensures
            self.bits == 4 ==> is_nibble_packing(codes@, r@),
            self.bits != 4 ==> r@ == codes@,
    {
        let mut out: Vec<u8> = Vec::new();
        if self.bits != 4 {
            let mut i: usize = 0;
            while i < codes.len()
                invariant
                    i <= codes.len(),
                    out@ == codes@.subrange(0, i as int),
                decreases codes.len() - i,
            {
                out.push(codes[i]);
                i = i + 1;
                assert(out@ =~= codes@.subrange(0, i as int));
            }
            assert(out@ =~= codes@);
            return out;
        }
        let n = codes.len();
        let m = n / 2 + n % 2;
        let mut k: usize = 0;
        while k < m
            invariant
                n == codes.len(),
                m == (n + 1) / 2,
                k <= m,
                out.len() == k,
                forall|t: int|
                    0 <= t < out.len() ==> #[trigger] out@[t] == if 2 * t + 1 < n {
                        (codes@[2 * t] & 15u8) | ((codes@[2 * t + 1] << 4u8) as u8)
                    } else {
                        codes@[2 * t] & 15u8
                    },
            decreases m - k,
        {
            let a = 2 * k;
            if a + 1 < n {
                let b = (codes[a] & 15u8) | ((codes[a + 1] << 4u8) as u8);
                out.push(b);
            } else {
                out.push(codes[a] & 15u8);
            }
            k = k + 1;
        }
        out
    }

    /// Codes of a stored stream, at most `len` of them: at 4 bits each byte
    /// yields its low then its high nibble; otherwise each byte is a code.
    pub fn unpack_codes(&self, packed: &[u8], len: usize) -> (r: Vec<u8>)
        ensures
            self.bits == 4 ==> r@.len() == if len <= 2 * packed@.len() {
                len as int
            } else {
                2 * packed@.len() as int
            },
            self.bits == 4 ==> forall|k: int| 0 <= k < r@.len() ==> #[trigger] r@[k] == nibble_at(packed@, k),
            self.bits != 4 ==> r@ == packed@.subrange(
                0,
                if len <= packed@.len() {
                    len as int
                } else {
                    packed@.len() as int
                },
            ),
    {
        let mut out: Vec<u8> = Vec::new();
        if self.bits != 4 {
            let m = if len <= packed.len() {
                len
            } else {
                packed.len()
            };
            let mut i: usize = 0;
            while i < m
                invariant
                    m <= packed.len(),
                    i <= m,
                    out@ == packed@.subrange(0, i as int),
                decreases m - i,
            {
                out.push(packed[i]);
                i = i + 1;
                assert(out@ =~= packed@.subrange(0, i as int));
            }
            return out;
        }
        let mut j: usize = 0;
        while j < packed.len() && out.len() < len
            invariant
                j <= packed.len(),
                out.len() <= len,
                out.len() == if 2 * j <= len {
                    2 * j
                } else {
                    len as int
                },
                forall|k: int| 0 <= k < out.len() ==> #[trigger] out@[k] == nibble_at(packed@, k),
            decreases packed.len() - j,
        {
            let b = packed[j];
            out.push(b & 15u8);
            if out.len() < len {
                out.push(b >> 4u8);
            }
            j = j + 1;
        }
        out
    }
}

/// The 4-bit block layout round-trips: unpacking the packing of codes below
/// 16 gives the codes back.
pub proof fn lemma_nibble_roundtrip(codes: Seq<u8>, packed: Seq<u8>)
    requires
        is_nibble_packing(codes, packed),
        forall|i: int| 0 <= i < codes.len() ==> #[trigger] codes[i] < 16,
    ensures
        forall|k: int| 0 <= k < codes.len() ==> #[trigger] nibble_at(packed, k) == codes[k],
{
    assert forall|k: int| 0 <= k < codes.len() implies #[trigger] nibble_at(packed, k) == codes[k] by {
        let i = k / 2;
        let b = packed[i];
        if k % 2 == 0 {
            let c = codes[k];
            if 2 * i + 1 < codes.len() {
                let d = codes[2 * i + 1];
                assert(((c & 15u8) | ((d << 4u8) as u8)) & 15u8 == c) by (bit_vector)
                    requires
                        c < 16,
                ;
            } else {
                assert((c & 15u8) & 15u8 == c) by (bit_vector)
                    requires
                        c < 16,
                ;
            }
        } else {
            let c = codes[2 * i];
            let d = codes[k];
            assert(((c & 15u8) | ((d << 4u8) as u8)) >> 4u8 == d) by (bit_vector)
                requires
                    d < 16,
            ;
        }
    }
}

/// Why a BTC codebook was refused.
pub enum BtcError {
    /// The codebook does not have `2^bits` entries.
    CodebookMismatch { codebook: usize, want: usize },
}

/// BTC: one to three bits with a learned codebook of `2^bits` centroids.
pub struct BtcQuantizer {
    pub bits: u8,
    pub codebook: usize,
    pub group: usize,
}

impl BtcQuantizer {
    /// Bits clamped into `[1, 3]`; the group is at least 32.
    pub fn new(bits: u8, codebook: usize, group: usize) -> (q: Self)
        ensures
            q.bits == clamp_spec(bits as int, 1, 3),
            q.codebook == codebook,
            q.group == at_least(group as int, 32),
    {
        BtcQuantizer { bits: clamp_u8(bits, 1, 3), codebook, group: max_usize(group, 32) }
    }

    /// Number of codebook entries: `2^bits`, provided the configured
    /// codebook has exactly that size.
    pub fn entries(&self) -> (r: Result<usize, BtcError>)
        requires
            (self.bits as u32) < usize::BITS,
        ensures
            r matches Ok(n) ==> n == (1usize << self.bits) && self.codebook == n,
            r matches Err(BtcError::CodebookMismatch { codebook, want }) ==> codebook == self.codebook
                && want == (1usize << self.bits) && codebook != want,
            r is Ok <==> self.codebook == (1usize << self.bits),
    {
        let want: usize = 1usize << self.bits;
        if self.codebook != want {
            return Err(BtcError::CodebookMismatch { codebook: self.codebook, want });
        }
        Ok(want)
    }
}

/// DBELL: one-bit codes with separate negative and positive scales.
pub struct DbellQuantizer {
    pub bits: u8,
    pub group: usize,
}

impl DbellQuantizer {
    /// Bits are always 1; the group is at least 32.
    pub fn new(bits: u8, group: usize) -> (q: Self)
        ensures
            q.bits == 1,
            q.group == at_least(group as int, 32),
    {
        DbellQuantizer { bits: clamp_u8(bits, 1, 1), group: max_usize(group, 32) }
    }
}

/// `2^k` as a natural number.
pub open spec fn pow2(k: nat) -> nat
    decreases k,
{
    if k == 0 {
        1
    } else {
        2 * pow2((k - 1) as nat)
    }
}

/// The smallest power of two at or above `n` (1 for `n == 0`), with its
/// exponent.
pub open spec fn is_next_pow2(n: int, p: int, k: nat) -> bool {
    &&& p == pow2(k)
    &&& n <= p
    &&& (k == 0 || pow2((k - 1) as nat) < n)
}

/// HBLLM: one-bit codes over a Haar transform with `levels` stages.
pub struct HbllmQuantizer {
    pub levels: u8,
    pub group: usize,
}

impl HbllmQuantizer {
    /// Levels clamped into `[1, 8]`; the group is at least 32.
    pub fn new(levels: u8, group: usize) -> (q: Self)
        ensures
            q.levels == clamp_spec(levels as int, 1, 8),
            q.group == at_least(group as int, 32),
    {
        HbllmQuantizer { levels: clamp_u8(levels, 1, 8), group: max_usize(group, 32) }
    }

    fn pow2_exp(&self) -> (r: (usize, usize))
        requires
            self.group <= usize::MAX / 2 + 1,
        ensures
            is_next_pow2(self.group as int, r.0 as int, r.1 as nat),
    {
        let g = self.group;
        let mut p: usize = 1;
        let mut k: usize = 0;
        while p < g
            invariant
                g <= usize::MAX / 2 + 1,
                p == pow2(k as nat),
                1 <= p,
                k < p,
                k == 0 || pow2((k - 1) as nat) < g,
            decreases usize::MAX - p,
        {
            proof {
                lemma_pow2_gt((k + 1) as nat);
            }
            p = p * 2;
            k = k + 1;
        }
        (p, k)
    }

    /// Transform length: the group rounded up to a power of two.
    pub fn work_len(&self) -> (r: usize)
        requires
            self.group <= usize::MAX / 2 + 1,
        ensures
            exists|k: nat| is_next_pow2(self.group as int, r as int, k),
    {
        let (p, k) = self.pow2_exp();
        p
    }

    /// Number of Haar stages: the levels clamped into
    /// `[1, log2(work_len)]`.
    pub fn stages(&self) -> (r: usize)
        requires
            self.group <= usize::MAX / 2 + 1,
            self.group >= 2,
        ensures
            exists|p: int, k: nat|
                is_next_pow2(self.group as int, p, k) && r == clamp_spec(self.levels as int, 1, k as int),
    {
        let (p, k) = self.pow2_exp();
        proof {
            if k == 0 {
                assert(false);
            }
        }
        let lv = self.levels as usize;
        let r = if lv < 1 {
            1
        } else if lv > k {
            k
        } else {
            lv
        };
        assert(is_next_pow2(self.group as int, p as int, k as nat));
        r
    }
}

proof fn lemma_pow2_gt(k: nat)
    ensures
        pow2(k) > k,
    decreases k,
{
    if k > 0 {
        lemma_pow2_gt((k - 1) as nat);
    }
}

/// LittleBit: one-bit codes with an optional least-squares residual scale.
pub struct LittleBitQuantizer {
    pub bits: u8,
    pub residual: bool,
    pub group: usize,
}

impl LittleBitQuantizer {
    /// Bits are always 1; the group is at least 32.
    pub fn new(bits: u8, residual: bool, group: usize) -> (q: Self)
        ensures
            q.bits == 1,
            q.residual == residual,
            q.group == at_least(group as int, 32),
    {
        LittleBitQuantizer { bits: clamp_u8(bits, 1, 1), residual, group: max_usize(group, 32) }
    }
}

/// NanoQuant: one- or two-bit codes with an iterated scale fit.
pub struct NanoQuantQuantizer {
    pub bits: u8,
    pub iters: usize,
    pub group: usize,
}

impl NanoQuantQuantizer {
    /// Bits clamped into `[1, 2]`, iterations capped at 500, group at least 32.
    pub fn new(bits: u8, iters: usize, group: usize) -> (q: Self)
        ensures
            q.bits == clamp_spec(bits as int, 1, 2),
            q.iters == if iters > 500 {
                500
            } else {
                iters as int
            },
            q.group == at_least(group as int, 32),
    {
        NanoQuantQuantizer {
            bits: clamp_u8(bits, 1, 2),
            iters: if iters > 500 {
                500
            } else {
                iters
            },
            group: max_usize(group, 32),
        }
    }
}

/// QuEPT: one calibration shared by a set of widths.
pub struct QueptQuantizer {
    /// Supported widths, strictly increasing.
    pub widths: Vec<u8>,
    pub block: usize,
    pub rank: usize,
}

/// The widths QuEPT keeps from a request: each clamped into `[1, 8]`, or
/// 4 and 8 when the request is empty.
pub open spec fn quept_width_requested(req: Seq<u8>, v: int) -> bool {
    if req.len() == 0 {
        v == 4 || v == 8
    } else {
        exists|i: int| 0 <= i < req.len() && clamp_spec(req[i] as int, 1, 8) == v
    }
}

impl QueptQuantizer {
    /// Widths clamped into `[1, 8]`, sorted and without repeats (4 and 8
    /// when none are given); block at least 16, rank at least 1.
    pub fn new(widths: Vec<u8>, block: usize, rank: usize) -> (q: Self)
        ensures
            forall|i: int, j: int| 0 <= i < j < q.widths@.len() ==> q.widths@[i] < q.widths@[j],
            forall|v: int| q.widths@.contains(v as u8) && 0 <= v < 256 <==> quept_width_requested(widths@, v),
            q.block == at_least(block as int, 16),
            q.rank == at_least(rank as int, 1),
    {
        let mut present: Vec<bool> = vec![false, false, false, false, false, false, false, false, false];
        let mut i: usize = 0;
        while i < widths.len()
            invariant
                i <= widths.len(),
                present@.len() == 9,
                !present@[0],
                forall|v: int|
                    1 <= v <= 8 ==> (#[trigger] present@[v] <==> exists|t: int|
                        0 <= t < i && clamp_spec(widths@[t] as int, 1, 8) == v),
            decreases widths.len() - i,
        {
            let c = clamp_u8(widths[i], 1, 8);
            present.set(c as usize, true);
            proof {
                assert forall|v: int| 1 <= v <= 8 implies (#[trigger] present@[v] <==> exists|t: int|
                    0 <= t < i + 1 && clamp_spec(widths@[t] as int, 1, 8) == v) by {
                    if v == c {
                        assert(clamp_spec(widths@[i as int] as int, 1, 8) == v);
                    } else if present@[v] {
                        let t = choose|t: int| 0 <= t < i && clamp_spec(widths@[t] as int, 1, 8) == v;
                        assert(0 <= t < i + 1);
                    } else {
                        if exists|t: int| 0 <= t < i + 1 && clamp_spec(widths@[t] as int, 1, 8) == v {
                            let t = choose|t: int|
                                0 <= t < i + 1 && clamp_spec(widths@[t] as int, 1, 8) == v;
                            assert(t != i);
                            assert(false);
                        }
                    }
                }
            }
            i = i + 1;
        }
        if widths.len() == 0 {
            present.set(4, true);
            present.set(8, true);
        }
        let mut out: Vec<u8> = Vec::new();
        let mut v: u8 = 1;
        while v <= 8
            invariant
                1 <= v <= 9,
                present@.len() == 9,
                forall|a: int, b: int| 0 <= a < b < out@.len() ==> out@[a] < out@[b],
                forall|a: int| 0 <= a < out@.len() ==> 1 <= #[trigger] out@[a] < v,
                forall|w: int| 1 <= w < v ==> (present@[w] <==> out@.contains(w as u8)),
            decreases 9 - v,
        {
            let ghost before = out@;
            if present[v as usize] {
                out.push(v);
            }
            proof {
                assert forall|w: int| 1 <= w < v + 1 implies (present@[w] <==> out@.contains(w as u8)) by {
                    if w < v {
                        if out@.contains(w as u8) {
                            let a = choose|a: int| 0 <= a < out@.len() && out@[a] == w as u8;
                            if a < before.len() {
                                assert(before[a] == w as u8);
                                assert(before.contains(w as u8));
                            }
                        }
                        if before.contains(w as u8) {
                            let a = choose|a: int| 0 <= a < before.len() && before[a] == w as u8;
                            assert(out@[a] == w as u8);
                        }
                    } else {
                        if present@[w] {
                            assert(out@[out@.len() - 1] == w as u8);
                        }
                        if out@.contains(w as u8) {
                            let a = choose|a: int| 0 <= a < out@.len() && out@[a] == w as u8;
                            if a < before.len() {
                                assert(before[a] < v);
                            }
                        }
                    }
                }
            }
            v = v + 1;
        }
        let ghost req = widths@;
        proof {
            assert forall|w: int| out@.contains(w as u8) && 0 <= w < 256 <==> quept_width_requested(req, w) by {
                if out@.contains(w as u8) && 0 <= w < 256 {
                    let a = choose|a: int| 0 <= a < out@.len() && out@[a] == w as u8;
                    assert(1 <= out@[a] <= 8);
                    assert(present@[w]);
                }
                if quept_width_requested(req, w) {
                    if req.len() > 0 {
                        let t = choose|t: int| 0 <= t < req.len() && clamp_spec(req[t] as int, 1, 8) == w;
                        assert(present@[w]);
                    }
                    assert(present@[w]);
                }
            }
        }
        QueptQuantizer { widths: out, block: max_usize(block, 16), rank: max_usize(rank, 1) }
    }

    /// Widths 4 and 8, block 128, rank 2.
    pub fn default_elastic() -> (q: Self)
        ensures
            q.widths@ == seq![4u8, 8u8],
            q.block == 128,
            q.rank == 2,
    {
        let q = Self::new(vec![4u8, 8u8], 128, 2);
        proof {
            let r = q.widths@;
            assert(quept_width_requested(seq![4u8, 8u8], 4)) by {
                assert(clamp_spec(seq![4u8, 8u8][0] as int, 1, 8) == 4);
            }
            assert(quept_width_requested(seq![4u8, 8u8], 8)) by {
                assert(clamp_spec(seq![4u8, 8u8][1] as int, 1, 8) == 8);
            }
            assert(r.contains(4u8));
            assert(r.contains(8u8));
            assert forall|a: int| 0 <= a < r.len() implies #[trigger] r[a] == 4 || r[a] == 8 by {
                let w = r[a] as int;
                assert(r.contains(w as u8));
                assert(quept_width_requested(seq![4u8, 8u8], w));
            }
            let i4 = choose|a: int| 0 <= a < r.len() && r[a] == 4u8;
            let i8 = choose|a: int| 0 <= a < r.len() && r[a] == 8u8;
            assert(i4 < i8);
            assert(r.len() == 2) by {
                if r.len() > 2 {
                    let x = if i4 != 0 && i8 != 0 { 0 } else if i4 != 1 && i8 != 1 { 1 } else { 2 };
                    assert(r[x] == 4 || r[x] == 8);
                    if r[x] == 4 {
                        assert(x < i4 || x > i4);
                    }
                }
            }
            assert(r =~= seq![4u8, 8u8]);
        }
        q
    }
}

/// Output container of the JANG quantizer.
#[derive(Debug, Clone, Copy, PartialEq, Eq, Structural)]
pub enum JangFormat {
    Mlx,
    Gguf,
}

/// JANG importance-tiered quantizer settings.
pub struct JangQuantizer {
    pub profile: String,
    pub output_format: JangFormat,
}

impl JangQuantizer {
    /// Keeps the profile name and the output format.
    pub fn new(profile: &str, format: JangFormat) -> (q: Self)
        ensures
            q.profile@ == profile@,
            q.output_format == format,
    {
        JangQuantizer { profile: profile.to_owned(), output_format: format }
    }
}

} // verus!
