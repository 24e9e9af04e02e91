//! Paged KV-cache layout and its memory footprint.
use vstd::prelude::*;

verus! {

/// Precision of cached keys and values.
#[derive(Debug, Clone, Copy, PartialEq, Eq, Structural)]
pub enum KvQuant {
    /// Unquantized 16-bit entries.
    Fp16,
    Q8,
    Q4,
}

/// Paging and precision of the cache.
#[derive(Debug, Clone, Copy)]
pub struct KvCacheConfig {
    /// Tokens per block.
    pub block_size: usize,
    pub quant: KvQuant,
    /// Blocks before eviction (0 = no limit).
    pub max_blocks: usize,
}

impl Default for KvCacheConfig {
    /// Blocks of 64 tokens, 4-bit, no block limit.
    fn default() -> (c: Self)
        ensures
            c.block_size == 64,
            c.quant == KvQuant::Q4,
            c.max_blocks == 0,
    {
        KvCacheConfig { block_size: 64, quant: KvQuant::Q4, max_blocks: 0 }
    }
}

/// Cache layout of a model.
pub struct KvCacheOrganizer {
    pub config: KvCacheConfig,
    pub num_layers: usize,
    pub num_heads: usize,
    pub head_dim: usize,
}

/// Bytes per cached element: two at 16-bit, one when quantized.
pub open spec fn kv_elem_bytes(q: KvQuant) -> int {
    match q {
        KvQuant::Fp16 => 2,
        KvQuant::Q8 => 1,
        KvQuant::Q4 => 1,
    }
}

/// Cache bytes for `seq` tokens: keys and values of every layer and head at
/// the element size, plus four bytes (an fp16 scale and bias) per block per
/// layer and head.
pub open spec fn kv_memory(layers: int, heads: int, dim: int, block: int, q: KvQuant, seq: int) -> int {
    seq * (layers * heads * dim * 2) * kv_elem_bytes(q) + ((seq + block - 1) / block) * layers * heads * 4
}

/// Every intermediate of the footprint computation fits in `usize`.
pub open spec fn kv_fits(o: KvCacheOrganizer, seq: int) -> bool {
    let l = o.num_layers as int;
    let h = o.num_heads as int;
    let d = o.head_dim as int;
    let b = o.config.block_size as int;
    let pt = l * h * d * 2;
    let nb = (seq + b - 1) / b;
    &&& b > 0
    &&& l * h <= usize::MAX
    &&& l * h * d <= usize::MAX
    &&& pt <= usize::MAX
    &&& seq * pt <= usize::MAX
    &&& seq * pt * kv_elem_bytes(o.config.quant) <= usize::MAX
    &&& seq + b <= usize::MAX
    &&& nb * l <= usize::MAX
    &&& nb * l * h <= usize::MAX
    &&& nb * l * h * 4 <= usize::MAX
    &&& kv_memory(l, h, d, b, o.config.quant, seq) <= usize::MAX
}

impl KvCacheOrganizer {
    /// A layout with the default paging and precision.
    pub fn new(num_layers: usize, num_heads: usize, head_dim: usize) -> (o: Self)
        ensures
            o.num_layers == num_layers,
            o.num_heads == num_heads,
            o.head_dim == head_dim,
            o.config.block_size == 64,
            o.config.quant == KvQuant::Q4,
            o.config.max_blocks == 0,
    {
        KvCacheOrganizer { config: KvCacheConfig::default(), num_layers, num_heads, head_dim }
    }

    /// Cache bytes for `seq_len` tokens over all layers.
    pub fn memory_bytes(&self, seq_len: usize) -> (r: usize)
        requires
            kv_fits(*self, seq_len as int),
        ensures
            r == kv_memory(
                self.num_layers as int,
                self.num_heads as int,
                self.head_dim as int,
                self.config.block_size as int,
                self.config.quant,
                seq_len as int,
            ),
    {
        let l = self.num_layers;
        let h = self.num_heads;
        let d = self.head_dim;
        let lh = l * h;
        let lhd = lh * d;
        let per_token = lhd * 2;
        let bpe: usize = match self.config.quant {
            KvQuant::Fp16 => 2,
            KvQuant::Q8 => 1,
            KvQuant::Q4 => 1,
        };
        let sp = seq_len * per_token;
        let raw = sp * bpe;
        let b = self.config.block_size;
        let num_blocks = (seq_len + b - 1) / b;
        let nbl = num_blocks * l;
        let nblh = nbl * h;
        let overhead = nblh * 4;
        raw + overhead
    }
}

/// Element precision trades one byte per cached element: an 8-bit or 4-bit
/// cache holds each of the `seq * layers * heads * dim * 2` key and value
/// elements in one byte where fp16 needs two, and both keep the same block
/// overhead; so a quantized cache is strictly smaller than fp16 whenever it
/// holds any element, and Q8 and Q4 are costed alike.
pub proof fn lemma_kv_precision_costs(layers: nat, heads: nat, dim: nat, block: nat, seq: nat)
    requires
        block > 0,
    ensures
        kv_memory(layers as int, heads as int, dim as int, block as int, KvQuant::Fp16, seq as int) == kv_memory(
            layers as int,
            heads as int,
            dim as int,
            block as int,
            KvQuant::Q8,
            seq as int,
        ) + seq * (layers * heads * dim * 2),
        kv_memory(layers as int, heads as int, dim as int, block as int, KvQuant::Q8, seq as int) == kv_memory(
            layers as int,
            heads as int,
            dim as int,
            block as int,
            KvQuant::Q4,
            seq as int,
        ),
        seq > 0 && layers * heads * dim > 0 ==> kv_memory(
            layers as int,
            heads as int,
            dim as int,
            block as int,
            KvQuant::Q8,
            seq as int,
        ) < kv_memory(layers as int, heads as int, dim as int, block as int, KvQuant::Fp16, seq as int),
{
    let pt: int = (layers * heads * dim * 2) as int;
    assert(seq * pt * 2 == seq * pt * 1 + seq * pt) by (nonlinear_arith);
    if seq > 0 && layers * heads * dim > 0 {
        assert(seq * pt > 0) by (nonlinear_arith)
            requires
                seq > 0,
                pt == layers * heads * dim * 2,
                layers * heads * dim > 0,
        ;
    }
}

} // verus!
