//! MLX g128 bit-packing: integer codes packed LSB-first into bytes, one fp16
//! scale per group of weights stored alongside.
use vstd::prelude::*;

verus! {

/// A bit width the packer does not support.
#[derive(Debug, Clone, Copy, PartialEq, Eq)]
pub enum PackError {
    UnsupportedBits(u8),
}

/// Bit widths the packer supports.
pub open spec fn supported_bits(bits: u8) -> bool {
    bits == 1 || bits == 2 || bits == 4 || bits == 8
}

/// Codes per byte at a supported width.
pub open spec fn per_byte(bits: u8) -> int {
    8int / (bits as int)
}

/// Low-bit mask of a supported width.
pub open spec fn mask_of(bits: u8) -> u8 {
    if bits == 1 {
        1
    } else if bits == 2 {
        3
    } else if bits == 4 {
        15
    } else {
        255
    }
}

/// The `t`-th code field (LSB-first) of a byte at width `bits`.
pub open spec fn field(byte: u8, bits: u8, t: int) -> u8 {
    ((byte >> ((t * bits) as u8)) & mask_of(bits)) as u8
}

/// The `k`-th code stored in a packed byte string.
pub open spec fn code_at(packed: Seq<u8>, bits: u8, k: int) -> u8 {
    field(packed[k / per_byte(bits)], bits, k % per_byte(bits))
}

/// `out` is the LSB-first packing of `codes` at a supported width: a copy at
/// width 8; otherwise `ceil(len * bits / 8)` bytes holding each code's low
/// `bits` bits in order, with zero padding after the last code.
pub open spec fn is_packing(codes: Seq<u8>, bits: u8, out: Seq<u8>) -> bool {
    &&& bits == 8 ==> out == codes
    &&& bits != 8 ==> {
        &&& out.len() == packed_len_spec(codes.len(), bits)
        &&& forall|k: int|
            0 <= k < out.len() * per_byte(bits) ==> #[trigger] code_at(out, bits, k) == (if k
                < codes.len() {
                codes[k] & mask_of(bits)
            } else {
                0u8
            })
    }
}

/// `out` is the first `n` codes (or all there are) stored in `packed`.
pub open spec fn is_unpacking(packed: Seq<u8>, bits: u8, n: nat, out: Seq<u8>) -> bool {
    &&& bits == 8 ==> out == packed.take(
        if n <= packed.len() {
            n as int
        } else {
            packed.len() as int
        },
    )
    &&& bits != 8 ==> {
        &&& out.len() == if n <= packed.len() * per_byte(bits) {
            n as int
        } else {
            packed.len() * per_byte(bits)
        }
        &&& forall|k: int| 0 <= k < out.len() ==> #[trigger] out[k] == code_at(packed, bits, k)
    }
}

/// Packed data bytes for `params` codes: `ceil(params * bits / 8)`.
pub open spec fn packed_len_spec(params: nat, bits: u8) -> nat {
    ((params * bits + 7) / 8) as nat
}

/// Packed data bytes for `params` weights at `bits` (1, 2, 4 or 8 only).
pub fn packed_len(params: usize, bits: u8) -> (r: Result<usize, PackError>)
    requires
        supported_bits(bits) ==> params * bits <= usize::MAX,
    ensures
        match r {
            Ok(n) => supported_bits(bits) && n as nat == packed_len_spec(params as nat, bits),
            Err(e) => !supported_bits(bits) && e == PackError::UnsupportedBits(bits),
        },
{
    if bits == 1 || bits == 2 || bits == 4 || bits == 8 {
        let total = params * bits as usize;
        let n = total / 8 + if total % 8 != 0 { 1 } else { 0 };
        assert(n as nat == packed_len_spec(params as nat, bits)) by (nonlinear_arith)
            requires
                total == params * bits,
                n == total / 8 + if total % 8 != 0 { 1int } else { 0int },
        ;
        Ok(n)
    } else {
        Err(PackError::UnsupportedBits(bits))
    }
}

/// Scale bytes: one fp16 scale per group (`group` of 0 counts as 1).
pub open spec fn scales_len_spec(params: nat, group: nat) -> nat {
    let g: int = if group == 0 { 1int } else { group as int };
    (((params + g - 1) / g) * 2) as nat
}

/// Scale bytes: one fp16 scale per group.
pub fn scales_len(params: usize, group: usize) -> (r: usize)
    requires
        scales_len_spec(params as nat, group as nat) <= usize::MAX,
    ensures
        r as nat == scales_len_spec(params as nat, group as nat),
{
    let g: usize = if group == 0 { 1 } else { group };
    assert(params % g != 0 ==> params / g < usize::MAX) by (nonlinear_arith)
        requires
            g > 0,
    ;
    let groups = params / g + if params % g != 0 { 1 } else { 0 };
    assert(groups == (params + g - 1) / (g as int)) by (nonlinear_arith)
        requires
            g > 0,
            groups == params / g + if params % g != 0 { 1int } else { 0int },
    ;
    groups * 2
}

/// Adding code `c` as field `i` of a byte whose fields from `i` on are zero.
proof fn lemma_or_field(byte: u8, c: u8, w: u8, m: u8, i: u8, t: u8)
    by (bit_vector)
    requires
        (w == 1 && m == 1) || (w == 2 && m == 3) || (w == 4 && m == 15),
        i * w < 8,
        t * w < 8,
        byte >> ((i * w) as u8) == 0,
    ensures
        ((byte | ((c & m) << ((i * w) as u8))) >> ((t * w) as u8)) & m == (if t < i {
            (byte >> ((t * w) as u8)) & m
        } else if t == i {
            c & m
        } else {
            0u8
        }),
        (i + 1) * w < 8 ==> (byte | ((c & m) << ((i * w) as u8))) >> (((i + 1) * w) as u8) == 0,
{
}

/// Division facts for a position inside byte `j`.
proof fn lemma_pos(j: int, per: int, t: int)
    by (nonlinear_arith)
    requires
        per > 0,
        0 <= t < per,
        j >= 0,
    ensures
        (j * per + t) / per == j,
        (j * per + t) % per == t,
{
}

/// A position before byte `j` lies in an earlier byte.
proof fn lemma_before(j: int, per: int, t: int)
    by (nonlinear_arith)
    requires
        per > 0,
        0 <= t < j * per,
    ensures
        t / per < j,
        0 <= t / per,
{
}

/// Copy of the first `n` elements.
fn copy_prefix(s: &[u8], n: usize) -> (r: Vec<u8>)
    requires
        n <= s.len(),
    ensures
        r@ == s@.take(n as int),
{
    let mut out: Vec<u8> = Vec::new();
    let mut i: usize = 0;
    while i < n
        invariant
            i <= n <= s.len(),
            out@ == s@.take(i as int),
        decreases n - i,
    {
        out.push(s[i]);
        assert(out@ =~= s@.take(i + 1));
        i = i + 1;
    }
    out
}

/// Pack integer codes LSB-first into bytes; each code keeps its low `bits`
/// bits and the trailing positions of the last byte are zero.
pub fn pack_uniform(codes: &[u8], bits: u8) -> (r: Result<Vec<u8>, PackError>)
    ensures
        match r {
            Ok(out) => supported_bits(bits) && is_packing(codes@, bits, out@),
            Err(e) => !supported_bits(bits) && e == PackError::UnsupportedBits(bits),
        },
{
    if bits == 8 {
        let out = copy_prefix(codes, codes.len());
        assert(out@ =~= codes@);
        return Ok(out);
    }
    if bits != 1 && bits != 2 && bits != 4 {
        return Err(PackError::UnsupportedBits(bits));
    }
    let per: u8 = 8 / bits;
    let mask: u8 = if bits == 1 { 1 } else if bits == 2 { 3 } else { 15 };
    let n = codes.len();
    assert(n / (per as usize) < usize::MAX) by (nonlinear_arith)
        requires
            per >= 2,
    ;
    let nbytes: usize = n / (per as usize) + if n % (per as usize) != 0 { 1 } else { 0 };
    let ghost peri = per as int;
    assert(peri == per_byte(bits));
    assert(mask == mask_of(bits));
    let mut out: Vec<u8> = Vec::new();
    let mut j: usize = 0;
    while j < nbytes
        invariant
            bits == 1 || bits == 2 || bits == 4,
            peri == per as int == per_byte(bits),
            per * bits == 8,
            mask == mask_of(bits),
            n == codes@.len(),
            nbytes == (n as int) / peri + if (n as int) % peri != 0 { 1int } else { 0int },
            j <= nbytes,
            out@.len() == j,
            forall|k: int|
                0 <= k < j * peri ==> #[trigger] code_at(out@, bits, k) == (if k < n {
                    codes@[k] & mask_of(bits)
                } else {
                    0u8
                }),
        decreases nbytes - j,
    {
        assert(j * peri < n) by (nonlinear_arith)
            requires
                j < nbytes,
                peri > 0,
                nbytes == (n as int) / peri + if (n as int) % peri != 0 { 1int } else { 0int },
        ;
        let base: usize = j * (per as usize);
        let mut byte: u8 = 0;
        assert((0u8 >> ((0u8 * bits) as u8)) == 0) by (bit_vector);
        let mut i: u8 = 0;
        while i < per
            invariant
                bits == 1 || bits == 2 || bits == 4,
                peri == per as int == per_byte(bits),
                per * bits == 8,
                mask == mask_of(bits),
                n == codes@.len(),
                i <= per,
                j < nbytes,
                base == j * peri,
                base < n,
                i < per ==> byte >> ((i * bits) as u8) == 0,
                forall|t: int|
                    0 <= t < i ==> #[trigger] field(byte, bits, t) == (if j * peri + t < n {
                        codes@[j * peri + t] & mask_of(bits)
                    } else {
                        0u8
                    }),
            decreases per - i,
        {
            assert(i * bits < 8) by (nonlinear_arith)
                requires
                    i < per,
                    per * bits == 8,
            ;
            let k_fits = (i as usize) < n - base;
            let c: u8 = if k_fits {
                codes[base + (i as usize)]
            } else {
                0
            };
            proof {
                assert forall|t: u8| t < per implies #[trigger] field(
                    byte | ((c & mask) << ((i * bits) as u8)),
                    bits,
                    t as int,
                ) == (if t < i {
                    field(byte, bits, t as int)
                } else if t == i {
                    c & mask
                } else {
                    0u8
                }) by {
                    assert(t * bits < 8) by (nonlinear_arith)
                        requires
                            t < per,
                            per * bits == 8,
                    ;
                    lemma_or_field(byte, c, bits, mask, i, t);
                }
                lemma_or_field(byte, c, bits, mask, i, i);
            }
            let ghost old_byte = byte;
            byte = byte | ((c & mask) << (i * bits));
            proof {
                assert forall|t: int| 0 <= t < i + 1 implies #[trigger] field(byte, bits, t) == (if j
                    * peri + t < n {
                    codes@[j * peri + t] & mask_of(bits)
                } else {
                    0u8
                }) by {
                    let tt = t as u8;
                    assert(tt as int == t);
                    assert(tt < per);
                    assert(field(byte, bits, tt as int) == (if tt < i {
                        field(old_byte, bits, tt as int)
                    } else if tt == i {
                        c & mask
                    } else {
                        0u8
                    }));
                    if t == i {
                        if k_fits {
                            assert(j * peri + t < n);
                        } else {
                            assert(!(j * peri + t < n));
                            assert(0u8 & mask == 0u8) by (bit_vector);
                        }
                    }
                }
            }
            i = i + 1;
        }
        let ghost old_out = out@;
        out.push(byte);
        proof {
            assert forall|k: int|
                0 <= k < (j + 1) * peri implies #[trigger] code_at(out@, bits, k) == (if k < n {
                codes@[k] & mask_of(bits)
            } else {
                0u8
            }) by {
                if k < j * peri {
                    lemma_before(j as int, peri, k);
                    assert(out@[k / peri] == old_out[k / peri]);
                    assert(code_at(out@, bits, k) == code_at(old_out, bits, k));
                } else {
                    let t = k - j * peri;
                    assert(0 <= t < peri) by (nonlinear_arith)
                        requires
                            j * peri <= k < (j + 1) * peri,
                            t == k - j * peri,
                    ;
                    lemma_pos(j as int, peri, t);
                    assert(k == j * peri + t);
                    assert(out@[k / peri] == byte);
                }
            }
        }
        j = j + 1;
    }
    proof {
        assert(packed_len_spec(n as nat, bits) == nbytes) by (nonlinear_arith)
            requires
                peri * bits == 8,
                peri > 0,
                nbytes == (n as int) / peri + if (n as int) % peri != 0 { 1int } else { 0int },
        ;
    }
    Ok(out)
}

/// Unpack LSB-first bytes into (at most) `n` codes.
pub fn unpack_uniform(packed: &[u8], bits: u8, n: usize) -> (r: Result<Vec<u8>, PackError>)
    ensures
        match r {
            Ok(out) => supported_bits(bits) && is_unpacking(packed@, bits, n as nat, out@),
            Err(e) => !supported_bits(bits) && e == PackError::UnsupportedBits(bits),
        },
{
    if bits == 8 {
        let m = if n <= packed.len() { n } else { packed.len() };
        return Ok(copy_prefix(packed, m));
    }
    if bits != 1 && bits != 2 && bits != 4 {
        return Err(PackError::UnsupportedBits(bits));
    }
    let per: u8 = 8 / bits;
    let mask: u8 = if bits == 1 { 1 } else if bits == 2 { 3 } else { 15 };
    let ghost peri = per as int;
    let ghost total = if n <= packed@.len() * peri {
        n as int
    } else {
        packed@.len() * peri
    };
    let mut out: Vec<u8> = Vec::new();
    let mut j: usize = 0;
    while j < packed.len() && out.len() < n
        invariant
            bits == 1 || bits == 2 || bits == 4,
            peri == per as int == per_byte(bits),
            per * bits == 8,
            mask == mask_of(bits),
            j <= packed@.len(),
            total == if n <= packed@.len() * peri {
                n as int
            } else {
                packed@.len() * peri
            },
            out@.len() == if n <= j * peri {
                n as int
            } else {
                j * peri
            },
            forall|k: int| 0 <= k < out@.len() ==> #[trigger] out@[k] == code_at(packed@, bits, k),
        decreases packed@.len() - j,
    {
        let byte = packed[j];
        let mut i: u8 = 0;
        while i < per
            invariant
                bits == 1 || bits == 2 || bits == 4,
                peri == per as int == per_byte(bits),
                per * bits == 8,
                mask == mask_of(bits),
                j < packed@.len(),
                byte == packed@[j as int],
                i <= per,
                out@.len() == if n <= j * peri + i {
                    n as int
                } else {
                    j * peri + i
                },
                forall|k: int|
                    0 <= k < out@.len() ==> #[trigger] out@[k] == code_at(packed@, bits, k),
            ensures
                out@.len() == if n <= j * peri + i {
                    n as int
                } else {
                    j * peri + i
                },
                out@.len() >= n || i == per,
                forall|k: int|
                    0 <= k < out@.len() ==> #[trigger] out@[k] == code_at(packed@, bits, k),
            decreases per - i,
        {
            if out.len() >= n {
                break;
            }
            assert(i * bits < 8) by (nonlinear_arith)
                requires
                    i < per,
                    per * bits == 8,
            ;
            let c = (byte >> (i * bits)) & mask;
            proof {
                lemma_pos(j as int, peri, i as int);
                assert(out@.len() == j * peri + i);
            }
            out.push(c);
            i = i + 1;
        }
        assert((j + 1) * peri == j * peri + peri) by (nonlinear_arith);
        j = j + 1;
    }
    assert(j * peri <= packed@.len() * peri) by (nonlinear_arith)
        requires
            j <= packed@.len(),
            peri > 0,
    ;
    Ok(out)
}

/// Packing codes and then unpacking as many codes as were packed gives back
/// every code's low `bits` bits, in order, at every supported width.
pub proof fn lemma_pack_unpack_roundtrip(codes: Seq<u8>, bits: u8, packed: Seq<u8>, back: Seq<u8>)
    requires
        supported_bits(bits),
        is_packing(codes, bits, packed),
        is_unpacking(packed, bits, codes.len(), back),
    ensures
        back.len() == codes.len(),
        forall|k: int| 0 <= k < codes.len() ==> #[trigger] back[k] == codes[k] & mask_of(bits),
{
    if bits == 8 {
        assert forall|k: int| 0 <= k < codes.len() implies #[trigger] back[k] == codes[k] & mask_of(
            bits,
        ) by {
            let c = codes[k];
            assert(c & 255u8 == c) by (bit_vector);
        }
    } else {
        let per = per_byte(bits);
        assert(codes.len() <= packed.len() * per) by (nonlinear_arith)
            requires
                packed.len() == (codes.len() * bits + 7) / 8,
                per * bits == 8,
                per > 0,
        ;
        assert forall|k: int| 0 <= k < codes.len() implies #[trigger] back[k] == codes[k] & mask_of(
            bits,
        ) by {
            assert(code_at(packed, bits, k) == codes[k] & mask_of(bits));
        }
    }
}

/// A code that fits in `bits` bits is kept whole by the mask.
pub proof fn lemma_mask_keeps_small(c: u8, bits: u8)
    requires
        supported_bits(bits),
        c <= mask_of(bits),
    ensures
        c & mask_of(bits) == c,
{
    if bits == 1 {
        assert(c <= 1 ==> c & 1u8 == c) by (bit_vector);
    } else if bits == 2 {
        assert(c <= 3 ==> c & 3u8 == c) by (bit_vector);
    } else if bits == 4 {
        assert(c <= 15 ==> c & 15u8 == c) by (bit_vector);
    } else {
        assert(c & 255u8 == c) by (bit_vector);
    }
}

} // verus!
