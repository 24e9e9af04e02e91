//! Apple-silicon planning: the MLX quantize bridge, the flash-attention
//! dispatch decision and the layout checks of the quantized GEMV kernel.
use vstd::prelude::*;
use crate::mlx_pack::{code_at, per_byte, supported_bits};
use crate::text::str_eq;

verus! {

/// Why an MLX or GEMV request was refused.
#[derive(Debug, Clone, Copy, PartialEq, Eq)]
pub enum MetalError {
    /// Only 1, 2, 4 and 8 bits are supported.
    UnsupportedBits(u8),
    /// `cols * bits` is not a whole number of bytes.
    UnalignedCols { cols: usize, bits: u8 },
    /// The packed buffer holds fewer bytes than the rows need.
    PackedTooShort { have: usize, need: usize },
    /// The scale buffer holds fewer scales than the rows need.
    ScalesTooShort { have: usize, need: usize },
    /// The input vector is shorter than a row.
    InputTooShort { have: usize, need: usize },
}

/// Apple-silicon backend marker.
pub struct MetalBackend;

/// MLX quantize bridge settings.
pub struct MlxBridge {
    pub bits: u8,
    /// One fp16 scale per `group` weights.
    pub group: usize,
}

/// Whether the MLX path can run on this platform.
#[derive(Debug, Clone, Copy, PartialEq, Eq)]
pub struct MlxProbe {
    pub available: bool,
}

/// Byte budget of one quantized weight array.
#[derive(Debug, Clone, Copy, PartialEq, Eq)]
pub struct MlxQuantPlan {
    pub params: u64,
    pub bits: u8,
    pub out_bytes: u64,
}

/// Output bytes of an MLX quantization: packed data `params * bits / 8`
/// (rounded down) plus two bytes per started group.
pub open spec fn mlx_out_bytes(params: int, bits: int, group: int) -> int {
    params * bits / 8 + ((params + group - 1) / group) * 2
}

impl MlxBridge {
    /// A bridge at `bits` with the g128 layout.
    pub fn new(bits: u8) -> (r: Result<Self, MetalError>)
        ensures
            r matches Ok(b) ==> supported_bits(bits) && b.bits == bits && b.group == 128,
            r matches Err(e) ==> !supported_bits(bits) && e == MetalError::UnsupportedBits(bits),
    {
        Self::with_group(bits, 128)
    }

    /// A bridge at `bits` (1, 2, 4 or 8) with groups of at least 32.
    pub fn with_group(bits: u8, group: usize) -> (r: Result<Self, MetalError>)
        ensures
            r matches Ok(b) ==> supported_bits(bits) && b.bits == bits && b.group == if group < 32 {
                32
            } else {
                group as int
            },
            r matches Err(e) ==> !supported_bits(bits) && e == MetalError::UnsupportedBits(bits),
    {
        if bits == 1 || bits == 2 || bits == 4 || bits == 8 {
            Ok(MlxBridge {
                bits,
                group: if group < 32 {
                    32
                } else {
                    group
                },
            })
        } else {
            Err(MetalError::UnsupportedBits(bits))
        }
    }

    /// Platform gate: available exactly on an `aarch64` `macos` target.
    pub fn probe(arch: &str, os: &str) -> (p: MlxProbe)
        ensures
            p.available <==> (arch@ == "aarch64"@ && os@ == "macos"@),
    {
        let a = str_eq(arch, "aarch64");
        let o = str_eq(os, "macos");
        MlxProbe { available: a && o }
    }

    /// Byte budget for `params` weights.
    pub fn plan_quantize(&self, params: u64) -> (p: MlxQuantPlan)
        requires
            self.group > 0,
            params * self.bits <= u64::MAX,
            mlx_out_bytes(params as int, self.bits as int, self.group as int) <= u64::MAX,
        ensures
            p.params == params,
            p.bits == self.bits,
            p.out_bytes == mlx_out_bytes(params as int, self.bits as int, self.group as int),
    {
        let data = params * self.bits as u64 / 8;
        let g = self.group as u64;
        let q = params / g;
        assert(params % g != 0 ==> q < u64::MAX) by (nonlinear_arith)
            requires
                g > 0,
                q == params / g,
        ;
        let groups = q + if params % g != 0 {
            1
        } else {
            0
        };
        assert(groups == (params + g - 1) / (g as int)) by (nonlinear_arith)
            requires
                g > 0,
                q == params / g,
                groups == q + if params % g != 0 { 1int } else { 0int },
        ;
        assert(0 <= data <= data + groups * 2 <= u64::MAX) by (nonlinear_arith)
            requires
                data + groups * 2 <= u64::MAX,
                groups >= 0,
                data >= 0,
        ;
        let scales = groups * 2;
        MlxQuantPlan { params, bits: self.bits, out_bytes: data + scales }
    }
}

/// Flash-attention dispatch settings.
pub struct MlxFlash {
    pub max_seq: usize,
}

/// Dispatch decision with its reason.
pub struct FlashPlan {
    pub use_flash: bool,
    pub head_dim: usize,
    pub reason: &'static str,
}

impl MlxFlash {
    /// Settings with the longest sequence the flash path takes.
    pub fn new(max_seq: usize) -> (f: Self)
        ensures
            f.max_seq == max_seq,
    {
        MlxFlash { max_seq }
    }

    /// Flash only for head dimensions 64 and 128 with a sequence within
    /// `max_seq`; the head dimension is checked first.
    pub fn plan(&self, head_dim: usize, seq_len: usize) -> (p: FlashPlan)
        ensures
            p.head_dim == head_dim,
            p.use_flash <==> ((head_dim == 64 || head_dim == 128) && seq_len <= self.max_seq),
            !(head_dim == 64 || head_dim == 128) ==> p.reason@ == "unsupported head_dim"@,
            (head_dim == 64 || head_dim == 128) && seq_len > self.max_seq ==> p.reason@
                == "seq_len over budget"@,
            p.use_flash ==> p.reason@ == "flash path"@,
    {
        if !(head_dim == 64 || head_dim == 128) {
            return FlashPlan { use_flash: false, head_dim, reason: "unsupported head_dim" };
        }
        if seq_len > self.max_seq {
            return FlashPlan { use_flash: false, head_dim, reason: "seq_len over budget" };
        }
        FlashPlan { use_flash: true, head_dim, reason: "flash path" }
    }
}

/// Quantized matrix-vector product settings.
pub struct QuantGemv {
    pub bits: u8,
    pub group: usize,
}

/// Buffer geometry a checked GEMV runs on.
#[derive(Debug, Clone, Copy, PartialEq, Eq)]
pub struct GemvShape {
    /// Codes per byte.
    pub per_byte: usize,
    /// Bytes per row.
    pub row_bytes: usize,
    /// Scales per row.
    pub groups_per_row: usize,
}

/// `ceil(a / b)` for `b > 0`.
pub open spec fn div_ceil(a: int, b: int) -> int {
    (a + b - 1) / b
}

/// Machine limits of the GEMV geometry: every product the check forms fits.
pub open spec fn gemv_fits(bits: u8, group: usize, rows: usize, cols: usize) -> bool {
    &&& cols * bits <= usize::MAX
    &&& rows * (cols * bits / 8) <= usize::MAX
    &&& group > 0 ==> rows * div_ceil(cols as int, group as int) <= usize::MAX
}

impl QuantGemv {
    /// Settings for 1, 2, 4 or 8 bits, with groups of at least 1.
    pub fn new(bits: u8, group: usize) -> (r: Result<Self, MetalError>)
        ensures
            r matches Ok(g) ==> supported_bits(bits) && g.bits == bits && g.group == if group < 1 {
                1
            } else {
                group as int
            },
            r matches Err(e) ==> !supported_bits(bits) && e == MetalError::UnsupportedBits(bits),
    {
        if bits == 1 || bits == 2 || bits == 4 || bits == 8 {
            Ok(QuantGemv {
                bits,
                group: if group < 1 {
                    1
                } else {
                    group
                },
            })
        } else {
            Err(MetalError::UnsupportedBits(bits))
        }
    }

    /// Checks a GEMV request in the kernel's order: byte-aligned rows, then
    /// enough packed bytes, then enough scales, then a long enough input.
    pub fn check(&self, packed_len: usize, scales_len: usize, rows: usize, cols: usize, x_len: usize) -> (r:
        Result<GemvShape, MetalError>)
        requires
            supported_bits(self.bits),
            self.group > 0,
            gemv_fits(self.bits, self.group, rows, cols),
        ensures
            ({
                let row_bytes = cols * self.bits / 8;
                let gpr = div_ceil(cols as int, self.group as int);
                &&& (cols * self.bits) % 8 != 0 ==> r == Err::<GemvShape, MetalError>(
                    MetalError::UnalignedCols { cols, bits: self.bits },
                )
                &&& (cols * self.bits) % 8 == 0 && packed_len < rows * row_bytes ==> r == Err::<
                    GemvShape,
                    MetalError,
                >(MetalError::PackedTooShort { have: packed_len, need: (rows * row_bytes) as usize })
                &&& (cols * self.bits) % 8 == 0 && packed_len >= rows * row_bytes && scales_len < rows
                    * gpr ==> r == Err::<GemvShape, MetalError>(
                    MetalError::ScalesTooShort { have: scales_len, need: (rows * gpr) as usize },
                )
                &&& (cols * self.bits) % 8 == 0 && packed_len >= rows * row_bytes && scales_len >= rows
                    * gpr && x_len < cols ==> r == Err::<GemvShape, MetalError>(
                    MetalError::InputTooShort { have: x_len, need: cols },
                )
                &&& r is Ok <==> ((cols * self.bits) % 8 == 0 && packed_len >= rows * row_bytes
                    && scales_len >= rows * gpr && x_len >= cols)
                &&& r matches Ok(s) ==> s.per_byte == per_byte(self.bits) && s.row_bytes == row_bytes
                    && s.groups_per_row == gpr
            }),
    {
        let cb = cols * self.bits as usize;
        if cb % 8 != 0 {
            return Err(MetalError::UnalignedCols { cols, bits: self.bits });
        }
        let per = 8 / self.bits as usize;
        let row_bytes = cb / 8;
        let g = self.group;
        let q = cols / g;
        assert(cols % g != 0 ==> q < usize::MAX) by (nonlinear_arith)
            requires
                g > 0,
                q == cols / g,
        ;
        let gpr = q + if cols % g != 0 {
            1
        } else {
            0
        };
        assert(gpr == (cols + g - 1) / (g as int)) by (nonlinear_arith)
            requires
                g > 0,
                q == cols / g,
                gpr == q + if cols % g != 0 { 1int } else { 0int },
        ;
        let need_packed = rows * row_bytes;
        if packed_len < need_packed {
            return Err(MetalError::PackedTooShort { have: packed_len, need: need_packed });
        }
        let need_scales = rows * gpr;
        if scales_len < need_scales {
            return Err(MetalError::ScalesTooShort { have: scales_len, need: need_scales });
        }
        if x_len < cols {
            return Err(MetalError::InputTooShort { have: x_len, need: cols });
        }
        Ok(GemvShape { per_byte: per, row_bytes, groups_per_row: gpr })
    }

    /// The code of weight `idx` (row-major, rows packed back to back).
    pub fn code(&self, packed: &[u8], idx: usize) -> (c: u8)
        requires
            supported_bits(self.bits),
            (idx as int) / per_byte(self.bits) < packed@.len(),
        ensures
            c == code_at(packed@, self.bits, idx as int),
    {
        let per: usize = if self.bits == 1 {
            8
        } else if self.bits == 2 {
            4
        } else if self.bits == 4 {
            2
        } else {
            1
        };
        assert(per as int == per_byte(self.bits)) by {
            if self.bits == 1 {
                assert(8int / 1int == 8);
            } else if self.bits == 2 {
                assert(8int / 2int == 4);
            } else if self.bits == 4 {
                assert(8int / 4int == 2);
            } else {
                assert(8int / 8int == 1);
            }
        }
        let byte = packed[idx / per];
        let t = idx % per;
        let mask: u8 = if self.bits == 1 {
            1
        } else if self.bits == 2 {
            3
        } else if self.bits == 4 {
            15
        } else {
            255
        };
        assert(t * self.bits < 8) by (nonlinear_arith)
            requires
                t < per,
                per == 8int / (self.bits as int),
                1 <= self.bits <= 8,
        ;
        let sh: u8 = (t as u8) * self.bits;
        ((byte >> sh) & mask) as u8
    }

    /// Index of the scale of weight `(r, j)`.
    pub fn scale_index(&self, groups_per_row: usize, r: usize, j: usize) -> (s: usize)
        requires
            self.group > 0,
            r * groups_per_row + j / self.group <= usize::MAX,
        ensures
            s == r * groups_per_row + (j as int) / (self.group as int),
    {
        proof {
            assert(0 <= r * groups_per_row <= r * groups_per_row + (j as int) / (self.group as int)) by (nonlinear_arith)
                requires
                    self.group > 0,
            ;
        }
        r * groups_per_row + j / self.group
    }
}

} // verus!
