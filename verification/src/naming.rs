//! Tensor-name rules of the quantizers: roles, pass-through tensors, layer
//! indices, and the per-tensor bit widths derived from them.
use vstd::prelude::*;
use crate::text::{
    contains, ends_with, find, find_first, has_sub, has_suffix, lower_utf8, parse_usize, parse_usize_spec,
    sub_bytes, to_lowercase, unicode_lowercase, utf8, lemma_find_from, str_eq,
};

verus! {

/// The Unicode lowercase of `name` contains `pat`.
pub open spec fn lower_has(name: Seq<char>, pat: Seq<char>) -> bool {
    has_sub(lower_utf8(name), utf8(pat))
}

/// `name` contains `pat`.
pub open spec fn raw_has(name: Seq<char>, pat: Seq<char>) -> bool {
    has_sub(utf8(name), utf8(pat))
}

/// Does `hay` contain `pat`?
pub fn has(hay: &str, pat: &str) -> (r: bool)
    ensures
        r == raw_has(hay@, pat@),
{
    contains(hay.as_bytes(), pat.as_bytes())
}

// ---------------------------------------------------------------------------
// Layer indices
// ---------------------------------------------------------------------------

/// The number between the first occurrence of `prefix` and the next `.`.
pub open spec fn index_after(h: Seq<u8>, prefix: Seq<u8>) -> Option<nat> {
    match find_first(h, prefix) {
        Some(s) => {
            let after = h.subrange(s + prefix.len(), h.len() as int);
            match find_first(after, seq![46u8]) {
                Some(e) => parse_usize_spec(after.take(e)),
                None => None,
            }
        },
        None => None,
    }
}

/// Layer index of a tensor name: tried after `layers.`, then
/// `model.layers.`, then `h.`.
pub open spec fn layer_index_spec(h: Seq<u8>) -> Option<nat> {
    match index_after(h, utf8("layers."@)) {
        Some(i) => Some(i),
        None => match index_after(h, utf8("model.layers."@)) {
            Some(i) => Some(i),
            None => index_after(h, utf8("h."@)),
        },
    }
}

fn index_after_exec(h: &[u8], prefix: &[u8]) -> (r: Option<usize>)
    ensures
        match r {
            Some(i) => index_after(h@, prefix@) == Some(i as nat),
            None => index_after(h@, prefix@) is None,
        },
{
    match find(h, prefix) {
        Some(s) => {
            proof {
                lemma_find_from(h@, prefix@, 0);
                assert(crate::text::matches_at(h@, prefix@, s as int));
                assert(s + prefix@.len() <= h@.len());
            }
            assert(s + prefix.len() <= h.len());
            let start: usize = s + prefix.len();
            let after = sub_bytes(h, start, h.len());
            let dot: [u8; 1] = [46u8];
            assert(dot@ =~= seq![46u8]);
            match find(after.as_slice(), &dot) {
                Some(e) => {
                    proof {
                        lemma_find_from(after@, dot@, 0);
                    }
                    let num = sub_bytes(after.as_slice(), 0, e);
                    assert(num@ =~= after@.take(e as int));
                    parse_usize(num.as_slice())
                },
                None => None,
            }
        },
        None => None,
    }
}

/// Layer index of a tensor name (`layers.N.`, `model.layers.N.` or `h.N.`).
pub fn extract_layer_index(name: &str) -> (r: Option<usize>)
    ensures
        match r {
            Some(i) => layer_index_spec(utf8(name@)) == Some(i as nat),
            None => layer_index_spec(utf8(name@)) is None,
        },
{
    let h = name.as_bytes();
    match index_after_exec(h, "layers.".as_bytes()) {
        Some(i) => Some(i),
        None => match index_after_exec(h, "model.layers.".as_bytes()) {
            Some(i) => Some(i),
            None => index_after_exec(h, "h.".as_bytes()),
        },
    }
}

/// End of the `.`-separated segment starting at `p`: the next `.` at or
/// after `p`, or the end of the name.
pub open spec fn seg_end(h: Seq<u8>, p: int) -> int
    decreases h.len() - p,
{
    if p < 0 || p >= h.len() {
        h.len() as int
    } else if h[p] == 46u8 {
        p
    } else {
        seg_end(h, p + 1)
    }
}

/// Scanning `.`-separated segments from the one starting at `p`: at the
/// first segment equal to `layers`, the number in the segment after it (or
/// nothing when there is no such segment or it is not a number).
pub open spec fn layer_idx_from(h: Seq<u8>, p: int) -> Option<nat>
    decreases h.len() - p,
{
    if p < 0 || p > h.len() {
        None
    } else {
        let e = seg_end(h, p);
        if h.subrange(p, e) == utf8("layers"@) {
            if e >= h.len() {
                None
            } else {
                parse_usize_spec(h.subrange(e + 1, seg_end(h, e + 1)))
            }
        } else if e >= h.len() {
            None
        } else {
            proof {
                lemma_seg_end_bounds(h, p);
            }
            layer_idx_from(h, e + 1)
        }
    }
}

/// Layer index of a `.`-separated name: the number in the segment right
/// after the first `layers` segment.
pub open spec fn layer_idx_spec(h: Seq<u8>) -> Option<nat> {
    layer_idx_from(h, 0)
}

/// Where a segment ends.
pub proof fn lemma_seg_end_bounds(h: Seq<u8>, p: int)
    requires
        0 <= p <= h.len(),
    ensures
        p <= seg_end(h, p) <= h.len(),
        seg_end(h, p) < h.len() ==> h[seg_end(h, p)] == 46u8,
        forall|k: int| p <= k < seg_end(h, p) ==> h[k] != 46u8,
    decreases h.len() - p,
{
    if p < h.len() && h[p] != 46u8 {
        lemma_seg_end_bounds(h, p + 1);
    }
}

fn segment_end(h: &[u8], p: usize) -> (e: usize)
    requires
        p <= h@.len(),
    ensures
        e == seg_end(h@, p as int),
{
    let mut e: usize = p;
    while e < h.len() && h[e] != 46u8
        invariant
            p <= e <= h@.len(),
            seg_end(h@, p as int) == seg_end(h@, e as int),
        decreases h.len() - e,
    {
        e = e + 1;
    }
    e
}

/// Layer index of a `.`-separated name: the number right after a
/// `layers` segment.
pub fn layer_idx(name: &str) -> (r: Option<usize>)
    ensures
        match r {
            Some(i) => layer_idx_spec(utf8(name@)) == Some(i as nat),
            None => layer_idx_spec(utf8(name@)) is None,
        },
{
    let h = name.as_bytes();
    assert(h@ == utf8(name@));
    let seg = "layers".as_bytes();
    let n = h.len();
    let mut p: usize = 0;
    while p <= n
        invariant
            n == h@.len(),
            h@ == utf8(name@),
            seg@ == utf8("layers"@),
            p <= n,
            p <= n ==> layer_idx_spec(h@) == layer_idx_from(h@, p as int),
        decreases n + 1 - p,
    {
        proof {
            lemma_seg_end_bounds(h@, p as int);
        }
        let e = segment_end(h, p);
        let is_seg = e - p == seg.len() && crate::text::match_at(h, seg, p);
        proof {
            assert(is_seg == (h@.subrange(p as int, e as int) == seg@)) by {
                if is_seg {
                    assert(h@.subrange(p as int, e as int) =~= h@.subrange(p as int, p + seg@.len()));
                }
            }
        }
        if is_seg {
            if e >= n {
                return None;
            }
            proof {
                lemma_seg_end_bounds(h@, e + 1);
            }
            let e2 = segment_end(h, e + 1);
            let num = sub_bytes(h, e + 1, e2);
            return parse_usize(num.as_slice());
        }
        if e >= n {
            return None;
        }
        p = e + 1;
    }
    None
}

// ---------------------------------------------------------------------------
// Apex
// ---------------------------------------------------------------------------

/// Role of a tensor in an MoE model.
#[derive(Debug, Clone, Copy, PartialEq, Eq, Structural)]
pub enum TensorRole {
    RoutedExpert,
    SharedExpert,
    Attention,
    Embedding,
    Other,
}

/// Role of a tensor, judged on its lowercased name `l`.
pub open spec fn role_of_lower(l: Seq<char>) -> TensorRole {
    if raw_has(l, "shared_expert"@) {
        TensorRole::SharedExpert
    } else if raw_has(l, "expert"@) {
        TensorRole::RoutedExpert
    } else if raw_has(l, "q_proj"@) || raw_has(l, "k_proj"@) || raw_has(l, "v_proj"@) || raw_has(l, "o_proj"@)
        || raw_has(l, "attn"@) {
        TensorRole::Attention
    } else if raw_has(l, "embed"@) {
        TensorRole::Embedding
    } else {
        TensorRole::Other
    }
}

/// Role of a tensor from its lowercased name.
pub fn classify_lower(lower: &str) -> (r: TensorRole)
    ensures
        r == role_of_lower(lower@),
{
    if has(lower, "shared_expert") {
        TensorRole::SharedExpert
    } else if has(lower, "expert") {
        TensorRole::RoutedExpert
    } else if has(lower, "q_proj") || has(lower, "k_proj") || has(lower, "v_proj") || has(lower, "o_proj") || has(
        lower,
        "attn",
    ) {
        TensorRole::Attention
    } else if has(lower, "embed") {
        TensorRole::Embedding
    } else {
        TensorRole::Other
    }
}

/// Role of a tensor from its name (judged on its lowercase).
pub fn classify(name: &str) -> (r: TensorRole)
    ensures
        r == role_of_lower(unicode_lowercase(name@)),
{
    let n = to_lowercase(name);
    classify_lower(n.as_str())
}

/// Kept unquantized: norms (judged on the lowercased name `lower`) and
/// biases (judged on the name as given).
pub open spec fn passthrough_spec(lower: Seq<char>, name: Seq<char>) -> bool {
    raw_has(lower, "norm"@) || has_suffix(utf8(name), utf8(".bias"@))
}

/// Is a tensor kept unquantized, given its lowercased name and its name?
pub fn passthrough_from(lower: &str, name: &str) -> (r: bool)
    ensures
        r == passthrough_spec(lower@, name@),
{
    has(lower, "norm") || ends_with(name.as_bytes(), ".bias".as_bytes())
}

/// Is the tensor kept unquantized (a norm in any case, or a bias)?
pub fn is_passthrough(name: &str) -> (r: bool)
    ensures
        r == passthrough_spec(unicode_lowercase(name@), name@),
{
    let n = to_lowercase(name);
    passthrough_from(n.as_str(), name)
}

/// Apex MoE-aware quantizer settings.
pub struct ApexQuantizer {
    /// One of `i_quality`, `standard`, `balanced`, `compact`, `mini`.
    pub tier: String,
    /// Whether the tier asks for the diverse importance matrix.
    pub diverse_imatrix: bool,
}

/// Bits of a role in a tier (4 for an unknown tier).
pub open spec fn apex_base_bits(tier: Seq<char>, role: TensorRole) -> u8 {
    if tier == "i_quality"@ || tier == "i-quality"@ {
        match role {
            TensorRole::RoutedExpert => 4,
            TensorRole::SharedExpert => 8,
            TensorRole::Attention => 6,
            TensorRole::Embedding => 6,
            TensorRole::Other => 4,
        }
    } else if tier == "standard"@ {
        match role {
            TensorRole::RoutedExpert => 3,
            TensorRole::SharedExpert => 6,
            TensorRole::Attention => 6,
            TensorRole::Embedding => 4,
            TensorRole::Other => 4,
        }
    } else if tier == "balanced"@ {
        match role {
            TensorRole::RoutedExpert => 3,
            TensorRole::SharedExpert => 4,
            TensorRole::Attention => 4,
            TensorRole::Embedding => 4,
            TensorRole::Other => 3,
        }
    } else if tier == "compact"@ {
        match role {
            TensorRole::RoutedExpert => 2,
            TensorRole::SharedExpert => 4,
            TensorRole::Attention => 4,
            TensorRole::Embedding => 3,
            TensorRole::Other => 3,
        }
    } else if tier == "mini"@ {
        match role {
            TensorRole::RoutedExpert => 2,
            TensorRole::SharedExpert => 3,
            TensorRole::Attention => 3,
            TensorRole::Embedding => 2,
            TensorRole::Other => 2,
        }
    } else {
        4
    }
}

/// Apex tiers, from the most to the least precise.
pub open spec fn apex_tiers() -> Seq<Seq<char>> {
    seq!["i_quality"@, "standard"@, "balanced"@, "compact"@, "mini"@]
}

/// The Apex width table: a more precise tier never gives a role fewer
/// bits; within every tier routed experts get the fewest bits, then other
/// tensors, embeddings, attention, and shared experts the most, all between
/// 2 and 8; routed experts get 2-3 bits below the top tier; in the top two
/// tiers attention is at 6 bits (Q6_K) and shared experts at 6-8 bits; the
/// hyphenated `i-quality` is the same tier as `i_quality`.
pub proof fn lemma_apex_width_table()
    ensures
        forall|i: int, j: int, role: TensorRole|
            0 <= i <= j < 5 ==> #[trigger] apex_base_bits(apex_tiers()[i], role) >= #[trigger] apex_base_bits(
                apex_tiers()[j],
                role,
            ),
        forall|i: int|
            0 <= i < 5 ==> {
                let t = #[trigger] apex_tiers()[i];
                &&& 2 <= apex_base_bits(t, TensorRole::RoutedExpert)
                &&& apex_base_bits(t, TensorRole::RoutedExpert) <= apex_base_bits(t, TensorRole::Other)
                &&& apex_base_bits(t, TensorRole::Other) <= apex_base_bits(t, TensorRole::Embedding)
                &&& apex_base_bits(t, TensorRole::Embedding) <= apex_base_bits(t, TensorRole::Attention)
                &&& apex_base_bits(t, TensorRole::Attention) <= apex_base_bits(t, TensorRole::SharedExpert)
                &&& apex_base_bits(t, TensorRole::SharedExpert) <= 8
                &&& 1 <= i ==> apex_base_bits(t, TensorRole::RoutedExpert) <= 3
                &&& i <= 1 ==> apex_base_bits(t, TensorRole::Attention) == 6
                &&& i <= 1 ==> 6 <= apex_base_bits(t, TensorRole::SharedExpert)
            },
        forall|role: TensorRole| apex_base_bits("i-quality"@, role) == apex_base_bits("i_quality"@, role),
{
    reveal_strlit("i_quality");
    reveal_strlit("i-quality");
    reveal_strlit("standard");
    reveal_strlit("balanced");
    reveal_strlit("compact");
    reveal_strlit("mini");
    assert("standard"@[0] != "balanced"@[0]);
    assert("standard"@.len() != "i_quality"@.len());
    assert("compact"@.len() != "standard"@.len());
    assert("compact"@.len() != "i_quality"@.len());
    assert("mini"@.len() != "compact"@.len());
    let t = apex_tiers();
    assert(t[0] == "i_quality"@);
    assert(t[1] == "standard"@);
    assert(t[2] == "balanced"@);
    assert(t[3] == "compact"@);
    assert(t[4] == "mini"@);
}

/// Bits after the layer gradient: layers in the outer 8% on either side get
/// one more bit (at most 8), layers strictly between 35% and 65% one less
/// (at least 2), others keep the base.
pub open spec fn apex_layer_bits(base: u8, idx: Option<nat>, total: int) -> u8 {
    let t = if total < 1 {
        1
    } else {
        total
    };
    match idx {
        Some(i) => if 100 * i < 8 * t || 100 * i > 92 * t {
            if base + 1 > 8 {
                8
            } else {
                (base + 1) as u8
            }
        } else if 100 * i > 35 * t && 100 * i < 65 * t {
            if base < 3 {
                2
            } else {
                (base - 1) as u8
            }
        } else {
            base
        },
        None => base,
    }
}

impl ApexQuantizer {
    /// Settings for a tier; `i_`-prefixed tiers use the diverse matrix.
    pub fn new(tier: &str) -> (q: Self)
        ensures
            q.tier@ == tier@,
            q.diverse_imatrix == crate::text::has_prefix(utf8(tier@), utf8("i_"@)),
    {
        let d = crate::text::starts_with(tier.as_bytes(), "i_".as_bytes());
        ApexQuantizer { tier: tier.to_owned(), diverse_imatrix: d }
    }

    /// Bits of a role in this tier (4 for an unknown tier).
    pub fn base_bits(&self, role: &TensorRole) -> (r: u8)
        ensures
            r == apex_base_bits(self.tier@, *role),
    {
        let t = self.tier.as_str();
        let r: u8 = if str_eq(t, "i_quality") || str_eq(t, "i-quality") {
            match role {
                TensorRole::RoutedExpert => 4,
                TensorRole::SharedExpert => 8,
                TensorRole::Attention => 6,
                TensorRole::Embedding => 6,
                TensorRole::Other => 4,
            }
        } else if str_eq(t, "standard") {
            match role {
                TensorRole::RoutedExpert => 3,
                TensorRole::SharedExpert => 6,
                TensorRole::Attention => 6,
                TensorRole::Embedding => 4,
                TensorRole::Other => 4,
            }
        } else if str_eq(t, "balanced") {
            match role {
                TensorRole::RoutedExpert => 3,
                TensorRole::SharedExpert => 4,
                TensorRole::Attention => 4,
                TensorRole::Embedding => 4,
                TensorRole::Other => 3,
            }
        } else if str_eq(t, "compact") {
            match role {
                TensorRole::RoutedExpert => 2,
                TensorRole::SharedExpert => 4,
                TensorRole::Attention => 4,
                TensorRole::Embedding => 3,
                TensorRole::Other => 3,
            }
        } else if str_eq(t, "mini") {
            match role {
                TensorRole::RoutedExpert => 2,
                TensorRole::SharedExpert => 3,
                TensorRole::Attention => 3,
                TensorRole::Embedding => 2,
                TensorRole::Other => 2,
            }
        } else {
            4
        };
        r
    }

    /// Bits of a tensor: the tier's bits for its role, moved by its layer's
    /// relative depth among `total_layers` (taken as at least 1). The depth
    /// bands are compared as exact ratios, which is what floating-point
    /// division of the two counts decides while `total_layers <= 2^40`.
    pub fn bits_for(&self, role: &TensorRole, name: &str, total_layers: usize) -> (r: u8)
        requires
            total_layers <= 0x100_0000_0000,
        ensures
            r == apex_layer_bits(
                apex_base_bits(self.tier@, *role),
                layer_idx_spec(utf8(name@)),
                total_layers as int,
            ),
    {
        let base = self.base_bits(role);
        let tl: u128 = if total_layers < 1 {
            1
        } else {
            total_layers as u128
        };
        match layer_idx(name) {
            Some(i) => {
                let hi: u128 = 100 * (i as u128);
                if hi < 8 * tl || hi > 92 * tl {
                    if base + 1 > 8 {
                        8
                    } else {
                        base + 1
                    }
                } else if hi > 35 * tl && hi < 65 * tl {
                    if base < 3 {
                        2
                    } else {
                        base - 1
                    }
                } else {
                    base
                }
            },
            None => base,
        }
    }
}

// ---------------------------------------------------------------------------
// Dynamic 3.0 container hints
// ---------------------------------------------------------------------------

/// Apple-silicon container for a width, judged on the lowercased name `l`:
/// 6-bit Q/K projections use Q5.1, 4-bit MLP tensors Q4_NL.
pub open spec fn apple_format_spec(l: Seq<char>, bits: u8) -> Seq<char> {
    if bits == 8 {
        "Q8_0"@
    } else if bits == 6 {
        if raw_has(l, "q_proj"@) || raw_has(l, "k_proj"@) {
            "Q5.1"@
        } else {
            "Q6_K"@
        }
    } else if bits == 5 {
        "Q5.1"@
    } else if bits == 4 {
        if raw_has(l, "mlp"@) {
            "Q4_NL"@
        } else {
            "Q4_0"@
        }
    } else if bits == 3 {
        "Q4.1"@
    } else if bits == 2 {
        "Q4.0"@
    } else {
        "Q4_0"@
    }
}

/// Container for a tensor at `bits`, given its lowercased name.
pub fn apple_format_lower(lower: &str, bits: u8) -> (r: &'static str)
    ensures
        r@ == apple_format_spec(lower@, bits),
{
    if bits == 8 {
        "Q8_0"
    } else if bits == 6 {
        if has(lower, "q_proj") || has(lower, "k_proj") {
            "Q5.1"
        } else {
            "Q6_K"
        }
    } else if bits == 5 {
        "Q5.1"
    } else if bits == 4 {
        if has(lower, "mlp") {
            "Q4_NL"
        } else {
            "Q4_0"
        }
    } else if bits == 3 {
        "Q4.1"
    } else if bits == 2 {
        "Q4.0"
    } else {
        "Q4_0"
    }
}

/// Container a Metal `quantized_matmul` prefers for a tensor at `bits`.
pub fn apple_format(name: &str, bits: u8) -> (r: &'static str)
    ensures
        r@ == apple_format_spec(unicode_lowercase(name@), bits),
{
    let n = to_lowercase(name);
    apple_format_lower(n.as_str(), bits)
}

// ---------------------------------------------------------------------------
// Mixed precision
// ---------------------------------------------------------------------------

/// How the mixed-precision quantizer picks widths.
#[derive(Debug, Clone, Copy, PartialEq, Eq, Structural)]
pub enum MixedStrategy {
    /// MoE-aware by tensor kind.
    ApexStyle,
    /// By tensor size: larger tensors get fewer bits.
    Btl4Compact,
    /// From a per-layer table, 4 bits for unlisted tensors.
    Generic,
}

/// Apex-style widths by (case-sensitive) tensor kind.
pub open spec fn apex_style_spec(name: Seq<char>) -> u8 {
    if raw_has(name, "expert"@) {
        3
    } else if raw_has(name, "attn"@) || raw_has(name, "q_proj"@) || raw_has(name, "v_proj"@) {
        6
    } else {
        4
    }
}

/// Apex-style width of a tensor.
pub fn apex_style_bits(name: &str) -> (r: u8)
    ensures
        r == apex_style_spec(name@),
{
    if has(name, "expert") {
        3
    } else if has(name, "attn") || has(name, "q_proj") || has(name, "v_proj") {
        6
    } else if has(name, "embed") {
        4
    } else {
        4
    }
}

/// Product of a shape's dimensions.
pub open spec fn shape_product(s: Seq<usize>) -> int
    decreases s.len(),
{
    if s.len() == 0 {
        1
    } else {
        shape_product(s.drop_last()) * s.last()
    }
}

/// Every partial product of the shape fits in `usize`.
pub open spec fn shape_fits(s: Seq<usize>) -> bool {
    forall|k: int| 0 <= k <= s.len() ==> #[trigger] shape_product(s.take(k)) <= usize::MAX
}

/// BTL4 width of a tensor: 3 bits above a million elements, 4 above a
/// hundred thousand, 6 otherwise.
pub fn btl4_bits(shape: &[usize]) -> (r: u8)
    requires
        shape_fits(shape@),
    ensures
        r == if shape_product(shape@) > 1_000_000 {
            3u8
        } else if shape_product(shape@) > 100_000 {
            4u8
        } else {
            6u8
        },
{
    let mut p: usize = 1;
    let mut i: usize = 0;
    while i < shape.len()
        invariant
            i <= shape.len(),
            shape_fits(shape@),
            p == shape_product(shape@.take(i as int)),
        decreases shape.len() - i,
    {
        assert(shape@.take(i + 1).drop_last() =~= shape@.take(i as int));
        assert(shape_product(shape@.take(i + 1)) <= usize::MAX);
        p = p * shape[i];
        i = i + 1;
    }
    assert(shape@.take(shape@.len() as int) =~= shape@);
    if p > 1_000_000 {
        3
    } else if p > 100_000 {
        4
    } else {
        6
    }
}

/// Width listed for `name`, or 4.
pub open spec fn listed_bits(table: Seq<(String, u8)>, name: Seq<char>) -> u8
    decreases table.len(),
{
    if table.len() == 0 {
        4
    } else if table[0].0@ == name {
        table[0].1
    } else {
        listed_bits(table.drop_first(), name)
    }
}

/// Width of a tensor under a strategy.
pub fn mixed_bits(strategy: MixedStrategy, name: &str, shape: &[usize], per_layer_bits: &[(String, u8)]) -> (r: u8)
    requires
        strategy == MixedStrategy::Btl4Compact ==> shape_fits(shape@),
    ensures
        strategy == MixedStrategy::ApexStyle ==> r == apex_style_spec(name@),
        strategy == MixedStrategy::Btl4Compact ==> r == if shape_product(shape@) > 1_000_000 {
            3u8
        } else if shape_product(shape@) > 100_000 {
            4u8
        } else {
            6u8
        },
        strategy == MixedStrategy::Generic ==> r == listed_bits(per_layer_bits@, name@),
{
    match strategy {
        MixedStrategy::ApexStyle => apex_style_bits(name),
        MixedStrategy::Btl4Compact => btl4_bits(shape),
        MixedStrategy::Generic => {
            let mut i: usize = 0;
            assert(per_layer_bits@.subrange(0, per_layer_bits@.len() as int) =~= per_layer_bits@);
            while i < per_layer_bits.len()
                invariant
                    strategy == MixedStrategy::Generic,
                    i <= per_layer_bits.len(),
                    listed_bits(per_layer_bits@, name@) == listed_bits(
                        per_layer_bits@.subrange(i as int, per_layer_bits@.len() as int),
                        name@,
                    ),
                decreases per_layer_bits.len() - i,
            {
                assert(per_layer_bits@.subrange(i as int, per_layer_bits@.len() as int).drop_first()
                    =~= per_layer_bits@.subrange(i + 1, per_layer_bits@.len() as int));
                if str_eq(per_layer_bits[i].0.as_str(), name) {
                    return per_layer_bits[i].1;
                }
                i = i + 1;
            }
            4
        },
    }
}

// ---------------------------------------------------------------------------
// Importance matrix
// ---------------------------------------------------------------------------

/// Tensors the importance matrix skips, judged on the lowercased name `l`:
/// norms, biases, embeddings and vision towers.
pub open spec fn imatrix_passthrough_spec(l: Seq<char>) -> bool {
    raw_has(l, "norm"@) || has_suffix(utf8(l), utf8(".bias"@)) || raw_has(l, "embed"@) || raw_has(l, "wte"@)
        || raw_has(l, "vision"@) || raw_has(l, "visual"@)
}

/// Is a tensor with this lowercased name skipped by importance calibration?
pub fn imatrix_passthrough_lower(lower: &str) -> (r: bool)
    ensures
        r == imatrix_passthrough_spec(lower@),
{
    has(lower, "norm") || ends_with(lower.as_bytes(), ".bias".as_bytes()) || has(lower, "embed") || has(lower, "wte")
        || has(lower, "vision") || has(lower, "visual")
}

/// Is the tensor skipped by importance calibration (judged on its
/// lowercase)?
pub fn is_imatrix_passthrough(name: &str) -> (r: bool)
    ensures
        r == imatrix_passthrough_spec(unicode_lowercase(name@)),
{
    let n = to_lowercase(name);
    imatrix_passthrough_lower(n.as_str())
}

/// Metadata of an importance matrix.
pub struct IMatrixMetadata {
    pub model_name: String,
    pub calibration_samples: usize,
    pub group_size: usize,
    /// Groups per tensor, by tensor name.
    pub num_groups_per_tensor: Vec<(String, usize)>,
    pub calibration_dataset: String,
    pub created_at: String,
    pub forge_version: String,
}

} // verus!
