//! Bookkeeping of the merge and quantize pipelines: worker counts, the
//! in-flight byte cost of a tensor, output dtype labels, the shapes of
//! packed weights and their scales, and the deterministic parameter stream
//! of fresh cross-attention projections.
use vstd::prelude::*;
use crate::merge_config::DType;
use crate::naming::{has, raw_has};
use crate::text::{parse_usize, parse_usize_spec, utf8};

verus! {

/// Worker count of a merge: the requested count when it parses as a
/// `usize`, else the available parallelism (1 if unknown); at least 1 and
/// at most the number of tensors (at least 1).
pub open spec fn worker_count_spec(requested: Option<Seq<u8>>, available: Option<usize>, n_names: nat) -> int {
    let base: int = match requested {
        Some(s) => match parse_usize_spec(s) {
            Some(v) => v as int,
            None => match available {
                Some(a) => a as int,
                None => 1,
            },
        },
        None => match available {
            Some(a) => a as int,
            None => 1,
        },
    };
    let at_least_one = if base < 1 {
        1
    } else {
        base
    };
    let cap = if n_names < 1 {
        1
    } else {
        n_names as int
    };
    if at_least_one < cap {
        at_least_one
    } else {
        cap
    }
}

/// Worker count from the requested setting (if any), the machine's
/// available parallelism (if known) and the number of tensors.
pub fn worker_count(requested: Option<&str>, available: Option<usize>, n_names: usize) -> (r: usize)
    ensures
        r == worker_count_spec(
            match requested {
                Some(s) => Some(utf8(s@)),
                None => None,
            },
            available,
            n_names as nat,
        ),
{
    let fallback: usize = match available {
        Some(a) => a,
        None => 1,
    };
    let base: usize = match requested {
        Some(s) => match parse_usize(s.as_bytes()) {
            Some(v) => v,
            None => fallback,
        },
        None => fallback,
    };
    let w = if base < 1 {
        1
    } else {
        base
    };
    let cap = if n_names < 1 {
        1
    } else {
        n_names
    };
    if w < cap {
        w
    } else {
        cap
    }
}

/// In-flight bytes of one tensor: its size times (inputs + output),
/// saturating, and at least 1.
pub open spec fn tensor_cost_spec(size: u64, n_stores: u64) -> int {
    let p = size * (n_stores + 1);
    let s = if p > u64::MAX {
        u64::MAX as int
    } else {
        p
    };
    if s < 1 {
        1
    } else {
        s
    }
}

/// In-flight bytes a merge worker reserves for a tensor of `size` bytes
/// read from `n_stores` models.
pub fn tensor_cost(size: u64, n_stores: u64) -> (r: u64)
    requires
        n_stores < u64::MAX,
    ensures
        r == tensor_cost_spec(size, n_stores),
{
    let k = n_stores + 1;
    let p: u64 = if size != 0 && k > u64::MAX / size {
        u64::MAX
    } else {
        proof {
            if size != 0 {
                assert(size * k <= u64::MAX) by (nonlinear_arith)
                    requires
                        size > 0,
                        k <= u64::MAX / size,
                ;
            }
        }
        size * k
    };
    proof {
        if size != 0 && k > u64::MAX / size {
            assert(size * k > u64::MAX) by (nonlinear_arith)
                requires
                    size > 0,
                    k > u64::MAX / size,
            ;
        }
    }
    if p < 1 {
        1
    } else {
        p
    }
}

/// Safetensors dtype label of an output dtype.
pub open spec fn dtype_label_spec(d: DType) -> Seq<char> {
    match d {
        DType::F16 => "F16"@,
        DType::BF16 => "BF16"@,
        DType::F32 => "F32"@,
    }
}

/// Label written next to tensors converted to `d`.
pub fn dtype_label(d: DType) -> (r: &'static str)
    ensures
        r@ == dtype_label_spec(d),
{
    match d {
        DType::F16 => "F16",
        DType::BF16 => "BF16",
        DType::F32 => "F32",
    }
}

/// Shapes of a quantized weight and of its scales.
#[derive(Debug, Clone)]
pub struct PackedLayout {
    /// The weight's shape with the last dimension counted in 32-bit words.
    pub weight_shape: Vec<usize>,
    /// The weight's shape with the last dimension counted in groups.
    pub scale_shape: Vec<usize>,
}

/// Input features of a weight: its last dimension, or all its elements
/// when it has no dimensions.
pub open spec fn in_features(shape: Seq<usize>, num_elements: usize) -> int {
    if shape.len() > 0 {
        shape.last() as int
    } else {
        num_elements as int
    }
}

/// Layout of a weight packed at `bits` with one scale per `group_size`
/// input features: 32-bit words per row `ceil(in * bits / 32)`, groups per
/// row `ceil(in / group_size)`.
pub fn packed_layout(shape: &Vec<usize>, num_elements: usize, bits: u8, group_size: usize) -> (r: PackedLayout)
    requires
        group_size > 0,
        in_features(shape@, num_elements) * bits + 31 <= usize::MAX,
        in_features(shape@, num_elements) + group_size <= usize::MAX,
    ensures
        shape@.len() == 0 ==> r.weight_shape@.len() == 0 && r.scale_shape@.len() == 0,
        shape@.len() > 0 ==> r.weight_shape@ == shape@.drop_last().push(
            ((in_features(shape@, num_elements) * bits + 31) / 32) as usize,
        ),
        shape@.len() > 0 ==> r.scale_shape@ == shape@.drop_last().push(
            ((in_features(shape@, num_elements) + group_size - 1) / (group_size as int)) as usize,
        ),
{
    let inf: usize = if shape.len() > 0 {
        shape[shape.len() - 1]
    } else {
        num_elements
    };
    let words = (inf * bits as usize + 31) / 32;
    let groups = (inf + group_size - 1) / group_size;
    let mut w: Vec<usize> = Vec::new();
    let mut s: Vec<usize> = Vec::new();
    if shape.len() > 0 {
        let n = shape.len() - 1;
        let mut i: usize = 0;
        while i < n
            invariant
                n == shape@.len() - 1,
                i <= n,
                w@ == shape@.take(i as int),
                s@ == shape@.take(i as int),
            decreases n - i,
        {
            w.push(shape[i]);
            s.push(shape[i]);
            assert(shape@.take(i + 1) =~= shape@.take(i as int).push(shape@[i as int]));
            i = i + 1;
        }
        w.push(words);
        s.push(groups);
        assert(shape@.drop_last() =~= shape@.take(n as int));
    }
    PackedLayout { weight_shape: w, scale_shape: s }
}

/// Number of names containing `layers.`.
pub open spec fn count_layers_spec(names: Seq<String>) -> nat
    decreases names.len(),
{
    if names.len() == 0 {
        0
    } else {
        count_layers_spec(names.drop_last()) + if raw_has(names.last()@, "layers."@) {
            1nat
        } else {
            0nat
        }
    }
}

/// Number of names containing `layers.`, at least 1.
pub fn count_layer_tensors(names: &[String]) -> (r: usize)
    ensures
        r == if count_layers_spec(names@) == 0 {
            1
        } else {
            count_layers_spec(names@)
        },
{
    let mut c: usize = 0;
    let mut i: usize = 0;
    while i < names.len()
        invariant
            i <= names.len(),
            c == count_layers_spec(names@.take(i as int)),
            c <= i,
        decreases names.len() - i,
    {
        assert(names@.take(i + 1).drop_last() =~= names@.take(i as int));
        if has(names[i].as_str(), "layers.") {
            c = c + 1;
        }
        i = i + 1;
    }
    assert(names@.take(names@.len() as int) =~= names@);
    if c == 0 {
        1
    } else {
        c
    }
}

/// Model family guessed from tensor names: `qwen`, `gemma`, `llama`, in
/// that order of precedence, else `generic`.
pub open spec fn model_type_spec(names: Seq<String>) -> Seq<char> {
    if crate::frankenmoe::any_has(names, "qwen"@) {
        "qwen"@
    } else if crate::frankenmoe::any_has(names, "gemma"@) {
        "gemma"@
    } else if crate::frankenmoe::any_has(names, "llama"@) {
        "llama"@
    } else {
        "generic"@
    }
}

/// Model family from tensor names, when no configuration names it.
pub fn model_type_from_names(names: &[String]) -> (r: &'static str)
    ensures
        r@ == model_type_spec(names@),
{
    if crate::frankenmoe::names_have(names, "qwen") {
        "qwen"
    } else if crate::frankenmoe::names_have(names, "gemma") {
        "gemma"
    } else if crate::frankenmoe::names_have(names, "llama") {
        "llama"
    } else {
        "generic"
    }
}

/// Multiplier of the projection generator.
pub const LCG_MUL: u64 = 6364136223846793005;

/// Next state of the projection generator: `state * LCG_MUL + 1` modulo
/// `2^64`.
pub open spec fn lcg_next_spec(state: u64) -> u64 {
    ((state as nat * LCG_MUL as nat + 1) % 0x1_0000_0000_0000_0000) as u64
}

/// Advances the projection generator and returns the new state with its
/// top 31 bits, which scale to a uniform value in `[0, 1)`.
pub fn lcg_step(state: u64) -> (r: (u64, u32))
    ensures
        r.0 == lcg_next_spec(state),
        r.1 == r.0 >> 33u64,
        r.1 < 0x8000_0000,
{
    let m = state.wrapping_mul(LCG_MUL);
    let s = m.wrapping_add(1);
    proof {
        let p: int = state as int * LCG_MUL as int;
        let n: int = 0x1_0000_0000_0000_0000;
        assert(m as int == p % n);
        vstd::arithmetic::div_mod::lemma_add_mod_noop(p, 1, n);
        vstd::arithmetic::div_mod::lemma_small_mod(1, n as nat);
        if m as int + 1 < n {
            vstd::arithmetic::div_mod::lemma_small_mod((m + 1) as nat, n as nat);
            assert(s as int == m as int + 1);
        } else {
            vstd::arithmetic::div_mod::lemma_mod_self_0(n);
            assert(s == 0);
        }
        assert(s as int == (p + 1) % n);
    }
    let top = s >> 33u64;
    assert(top < 0x8000_0000) by (bit_vector)
        requires
            top == s >> 33u64,
    ;
    (s, top as u32)
}

} // verus!
