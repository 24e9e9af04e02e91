//! MergeKit-compatible configuration vocabulary: merge-method names and
//! their integer parameters, output dtypes, and quantization methods.
//!
//! Names are matched after Unicode lowercasing, as the YAML loader does;
//! floating-point parameters are read by the caller.
use vstd::prelude::*;
use crate::quant_config::JangFormat;
use crate::text::{str_eq, to_lowercase, unicode_lowercase};

verus! {

/// A method parameter as the loader sees it: an unsigned integer, a string,
/// a list of per-layer bit entries (`None` for an entry lacking `layer` or
/// `bits`), or anything else.
#[derive(Debug, Clone)]
pub enum ParamValue {
    UInt(u64),
    Text(String),
    LayerBits(Vec<Option<(String, u64)>>),
    Other,
}

/// One named parameter.
#[derive(Debug, Clone)]
pub struct Param {
    pub key: String,
    pub value: ParamValue,
}

/// The value of the first parameter named `key`.
pub open spec fn lookup(params: Seq<Param>, key: Seq<char>) -> Option<ParamValue>
    decreases params.len(),
{
    if params.len() == 0 {
        None
    } else if params[0].key@ == key {
        Some(params[0].value)
    } else {
        lookup(params.drop_first(), key)
    }
}

/// An unsigned integer parameter, or `default`.
pub open spec fn uint_or(params: Seq<Param>, key: Seq<char>, default: u64) -> u64 {
    match lookup(params, key) {
        Some(ParamValue::UInt(v)) => v,
        _ => default,
    }
}

/// A string parameter, or `default`.
pub open spec fn text_or(params: Seq<Param>, key: Seq<char>, default: Seq<char>) -> Seq<char> {
    match lookup(params, key) {
        Some(ParamValue::Text(s)) => s@,
        _ => default,
    }
}

/// First parameter named `key`.
pub fn find_param<'a>(params: &'a [Param], key: &str) -> (r: Option<&'a ParamValue>)
    ensures
        match r {
            Some(v) => lookup(params@, key@) == Some(*v),
            None => lookup(params@, key@) is None,
        },
{
    let mut i: usize = 0;
    assert(params@.subrange(0, params@.len() as int) =~= params@);
    while i < params.len()
        invariant
            i <= params.len(),
            lookup(params@, key@) == lookup(params@.subrange(i as int, params@.len() as int), key@),
        decreases params.len() - i,
    {
        let ghost rest = params@.subrange(i as int, params@.len() as int);
        assert(rest.drop_first() =~= params@.subrange(i + 1, params@.len() as int));
        if str_eq(params[i].key.as_str(), key) {
            return Some(&params[i].value);
        }
        i = i + 1;
    }
    None
}

fn uint_param(params: &[Param], key: &str, default: u64) -> (r: u64)
    ensures
        r == uint_or(params@, key@, default),
{
    match find_param(params, key) {
        Some(ParamValue::UInt(v)) => *v,
        _ => default,
    }
}

/// Merge methods, with the integer parameters each one reads.
#[derive(Debug, Clone, Copy, PartialEq, Eq, Structural)]
pub enum MergeMethodKind {
    Linear,
    Slerp,
    NuSlerp,
    MultiSlerp,
    Karcher { max_iter: usize },
    TaskArithmetic,
    Ties,
    Dare,
    DareTies,
    DellaLinear,
    Della,
    Passthrough,
    Darwin { generations: usize, population: usize },
    FrankenMerge,
    FrankenMoE { bottom_layers: usize, middle_experts: usize, top_layers: usize },
    Fusion,
    ModelStock,
    Breadcrumbs,
    BreadcrumbsTies,
    Sce,
    ArceeFusion,
    Nearswap,
    Ram { seed: u64 },
    Latent,
    Orca,
    ExpertWeaver,
    MoeDenseDistill,
    Hetero,
    Chimera,
    Aether,
    Pocket,
}

/// The method a lowercased name selects, with its integer parameters
/// (defaults: 20 Karcher iterations, 30 generations of 40, seed 42, and
/// 4/8/2 FrankenMoE layers/experts/layers).
pub open spec fn merge_method_of(l: Seq<char>, p: Seq<Param>) -> Option<MergeMethodKind> {
    if l == "linear"@ {
        Some(MergeMethodKind::Linear)
    } else if l == "slerp"@ {
        Some(MergeMethodKind::Slerp)
    } else if l == "nuslerp"@ {
        Some(MergeMethodKind::NuSlerp)
    } else if l == "multislerp"@ || l == "multi_slerp"@ || l == "multi-slerp"@ {
        Some(MergeMethodKind::MultiSlerp)
    } else if l == "karcher"@ || l == "karcher_mean"@ || l == "karcher-mean"@ {
        Some(MergeMethodKind::Karcher { max_iter: uint_or(p, "max_iter"@, 20) as usize })
    } else if l == "task_arithmetic"@ || l == "task-arithmetic"@ {
        Some(MergeMethodKind::TaskArithmetic)
    } else if l == "ties"@ {
        Some(MergeMethodKind::Ties)
    } else if l == "dare"@ {
        Some(MergeMethodKind::Dare)
    } else if l == "dare_ties"@ || l == "dare-ties"@ {
        Some(MergeMethodKind::DareTies)
    } else if l == "della_linear"@ || l == "della-linear"@ {
        Some(MergeMethodKind::DellaLinear)
    } else if l == "della"@ {
        Some(MergeMethodKind::Della)
    } else if l == "passthrough"@ {
        Some(MergeMethodKind::Passthrough)
    } else if l == "darwin"@ {
        Some(
            MergeMethodKind::Darwin {
                generations: uint_or(p, "generations"@, 30) as usize,
                population: uint_or(p, "population"@, 40) as usize,
            },
        )
    } else if l == "frankenmerge"@ {
        Some(MergeMethodKind::FrankenMerge)
    } else if l == "model_stock"@ || l == "model-stock"@ {
        Some(MergeMethodKind::ModelStock)
    } else if l == "breadcrumbs"@ {
        Some(MergeMethodKind::Breadcrumbs)
    } else if l == "breadcrumbs_ties"@ || l == "breadcrumbs-ties"@ {
        Some(MergeMethodKind::BreadcrumbsTies)
    } else if l == "sce"@ {
        Some(MergeMethodKind::Sce)
    } else if l == "arcee_fusion"@ || l == "arcee-fusion"@ {
        Some(MergeMethodKind::ArceeFusion)
    } else if l == "nearswap"@ {
        Some(MergeMethodKind::Nearswap)
    } else if l == "ram"@ {
        Some(MergeMethodKind::Ram { seed: uint_or(p, "seed"@, 42) })
    } else if l == "frankenmoe"@ {
        Some(
            MergeMethodKind::FrankenMoE {
                bottom_layers: uint_or(p, "bottom_layers"@, 4) as usize,
                middle_experts: uint_or(p, "middle_experts"@, 8) as usize,
                top_layers: uint_or(p, "top_layers"@, 2) as usize,
            },
        )
    } else {
        None
    }
}

/// Canonical MergeKit name of a method.
pub open spec fn merge_method_name(m: MergeMethodKind) -> Seq<char> {
    match m {
        MergeMethodKind::Linear => "linear"@,
        MergeMethodKind::Slerp => "slerp"@,
        MergeMethodKind::NuSlerp => "nuslerp"@,
        MergeMethodKind::MultiSlerp => "multislerp"@,
        MergeMethodKind::Karcher { .. } => "karcher"@,
        MergeMethodKind::TaskArithmetic => "task_arithmetic"@,
        MergeMethodKind::Ties => "ties"@,
        MergeMethodKind::Dare => "dare"@,
        MergeMethodKind::DareTies => "dare_ties"@,
        MergeMethodKind::DellaLinear => "della_linear"@,
        MergeMethodKind::Della => "della"@,
        MergeMethodKind::Passthrough => "passthrough"@,
        MergeMethodKind::Darwin { .. } => "darwin"@,
        MergeMethodKind::FrankenMerge => "frankenmerge"@,
        MergeMethodKind::FrankenMoE { .. } => "frankenmoe"@,
        MergeMethodKind::Fusion => "fusion"@,
        MergeMethodKind::ModelStock => "model_stock"@,
        MergeMethodKind::Breadcrumbs => "breadcrumbs"@,
        MergeMethodKind::BreadcrumbsTies => "breadcrumbs_ties"@,
        MergeMethodKind::Sce => "sce"@,
        MergeMethodKind::ArceeFusion => "arcee_fusion"@,
        MergeMethodKind::Nearswap => "nearswap"@,
        MergeMethodKind::Ram { .. } => "ram"@,
        MergeMethodKind::Latent => "latent"@,
        MergeMethodKind::Orca => "orca"@,
        MergeMethodKind::ExpertWeaver => "expert_weaver"@,
        MergeMethodKind::MoeDenseDistill => "moe_dense_distill"@,
        MergeMethodKind::Hetero => "hetero"@,
        MergeMethodKind::Chimera => "chimera"@,
        MergeMethodKind::Aether => "aether"@,
        MergeMethodKind::Pocket => "pocket"@,
    }
}

/// Why a configuration was refused.
#[derive(Debug, Clone, PartialEq, Eq)]
pub enum ConfigError {
    /// The merge method name is not known; it holds the name as given.
    UnknownMergeMethod(String),
    /// The quantization method name is not known; it holds the name as given.
    UnknownQuantMethod(String),
}

/// Output element type.
#[derive(Debug, Clone, Copy, PartialEq, Eq, Structural)]
pub enum DType {
    F32,
    F16,
    BF16,
}

/// The dtype a lowercased name selects; unknown names mean bfloat16.
pub open spec fn dtype_of(l: Seq<char>) -> DType {
    if l == "float32"@ || l == "fp32"@ || l == "f32"@ {
        DType::F32
    } else if l == "float16"@ || l == "fp16"@ || l == "f16"@ || l == "half"@ {
        DType::F16
    } else {
        DType::BF16
    }
}

/// Canonical name of a dtype.
pub open spec fn dtype_name(d: DType) -> Seq<char> {
    match d {
        DType::F32 => "float32"@,
        DType::F16 => "float16"@,
        DType::BF16 => "bfloat16"@,
    }
}

/// Quantization methods a configuration names, with their non-float
/// settings.
#[derive(Debug, Clone)]
pub enum QuantMethodKind {
    Jang { profile: String, output_format: JangFormat },
    Dynamic3,
    Apex { tier: String },
    Btl4Compact,
    MixedPrecision { per_layer_bits: Vec<(String, u8)> },
    Bsqat { bits: u8, block: usize },
}

/// Per-layer bit entries kept from a list: the complete ones, in order,
/// with the bits truncated to a byte.
pub open spec fn layer_bits_of(v: Seq<Option<(String, u64)>>) -> Seq<(Seq<char>, u8)>
    decreases v.len(),
{
    if v.len() == 0 {
        Seq::empty()
    } else {
        let rest = layer_bits_of(v.drop_last());
        match v.last() {
            Some((name, bits)) => rest.push((name@, bits as u8)),
            None => rest,
        }
    }
}

/// View of a list of per-layer bit entries.
pub open spec fn layer_bits_view(v: Seq<(String, u8)>) -> Seq<(Seq<char>, u8)> {
    v.map_values(|e: (String, u8)| (e.0@, e.1))
}

/// The quantization method a lowercased name selects (JANG: profile
/// `JANG_2L` and MLX output unless given; Apex: tier `balanced` unless
/// given).
pub open spec fn quant_method_matches(l: Seq<char>, p: Seq<Param>, q: QuantMethodKind) -> bool {
    if l == "jang"@ {
        q matches QuantMethodKind::Jang { profile, output_format } && profile@ == text_or(p, "profile"@, "JANG_2L"@)
            && output_format == if text_or(p, "output_format"@, "mlx"@) == "gguf"@ {
            JangFormat::Gguf
        } else {
            JangFormat::Mlx
        }
    } else if l == "dynamic3"@ {
        q is Dynamic3
    } else if l == "apex"@ {
        q matches QuantMethodKind::Apex { tier } && tier@ == text_or(p, "tier"@, "balanced"@)
    } else if l == "btl4"@ {
        q is Btl4Compact
    } else if l == "mixed"@ {
        q matches QuantMethodKind::MixedPrecision { per_layer_bits } && layer_bits_view(per_layer_bits@)
            == match lookup(p, "per_layer_bits"@) {
            Some(ParamValue::LayerBits(v)) => layer_bits_of(v@),
            _ => Seq::empty(),
        }
    } else {
        false
    }
}

/// Names with a quantization method.
pub open spec fn is_quant_method_name(l: Seq<char>) -> bool {
    l == "jang"@ || l == "dynamic3"@ || l == "apex"@ || l == "btl4"@ || l == "mixed"@
}

/// Canonical name of a quantization method.
pub open spec fn quant_method_name(q: QuantMethodKind) -> Seq<char> {
    match q {
        QuantMethodKind::Jang { .. } => "jang"@,
        QuantMethodKind::Dynamic3 => "dynamic3"@,
        QuantMethodKind::Apex { .. } => "apex"@,
        QuantMethodKind::Btl4Compact => "btl4"@,
        QuantMethodKind::MixedPrecision { .. } => "mixed"@,
        QuantMethodKind::Bsqat { .. } => "bsqat"@,
    }
}

/// Output file of a MergeKit configuration.
pub struct MergeKitOutput {
    pub path: String,
    pub dtype: String,
    pub shard_size: Option<usize>,
}

/// Reads MergeKit configurations.
pub struct MergeKitLoader;

fn owned(s: &str) -> (r: String)
    ensures
        r@ == s@,
{
    s.to_owned()
}

impl MergeKitLoader {
    /// The merge method a lowercased name selects, with its integer
    /// parameters from `params`.
    pub fn merge_method_from_lower(l: &str, params: &[Param]) -> (r: Option<MergeMethodKind>)
        ensures
            r == merge_method_of(l@, params@),
    {
        if str_eq(l, "linear") {
            Some(MergeMethodKind::Linear)
        } else if str_eq(l, "slerp") {
            Some(MergeMethodKind::Slerp)
        } else if str_eq(l, "nuslerp") {
            Some(MergeMethodKind::NuSlerp)
        } else if str_eq(l, "multislerp") || str_eq(l, "multi_slerp") || str_eq(l, "multi-slerp") {
            Some(MergeMethodKind::MultiSlerp)
        } else if str_eq(l, "karcher") || str_eq(l, "karcher_mean") || str_eq(l, "karcher-mean") {
            let it = uint_param(params, "max_iter", 20);
            Some(MergeMethodKind::Karcher { max_iter: it as usize })
        } else if str_eq(l, "task_arithmetic") || str_eq(l, "task-arithmetic") {
            Some(MergeMethodKind::TaskArithmetic)
        } else if str_eq(l, "ties") {
            Some(MergeMethodKind::Ties)
        } else if str_eq(l, "dare") {
            Some(MergeMethodKind::Dare)
        } else if str_eq(l, "dare_ties") || str_eq(l, "dare-ties") {
            Some(MergeMethodKind::DareTies)
        } else if str_eq(l, "della_linear") || str_eq(l, "della-linear") {
            Some(MergeMethodKind::DellaLinear)
        } else if str_eq(l, "della") {
            Some(MergeMethodKind::Della)
        } else if str_eq(l, "passthrough") {
            Some(MergeMethodKind::Passthrough)
        } else if str_eq(l, "darwin") {
            let g = uint_param(params, "generations", 30);
            let pop = uint_param(params, "population", 40);
            Some(MergeMethodKind::Darwin { generations: g as usize, population: pop as usize })
        } else if str_eq(l, "frankenmerge") {
            Some(MergeMethodKind::FrankenMerge)
        } else if str_eq(l, "model_stock") || str_eq(l, "model-stock") {
            Some(MergeMethodKind::ModelStock)
        } else if str_eq(l, "breadcrumbs") {
            Some(MergeMethodKind::Breadcrumbs)
        } else if str_eq(l, "breadcrumbs_ties") || str_eq(l, "breadcrumbs-ties") {
            Some(MergeMethodKind::BreadcrumbsTies)
        } else if str_eq(l, "sce") {
            Some(MergeMethodKind::Sce)
        } else if str_eq(l, "arcee_fusion") || str_eq(l, "arcee-fusion") {
            Some(MergeMethodKind::ArceeFusion)
        } else if str_eq(l, "nearswap") {
            Some(MergeMethodKind::Nearswap)
        } else if str_eq(l, "ram") {
            Some(MergeMethodKind::Ram { seed: uint_param(params, "seed", 42) })
        } else if str_eq(l, "frankenmoe") {
            let b = uint_param(params, "bottom_layers", 4);
            let m = uint_param(params, "middle_experts", 8);
            let t = uint_param(params, "top_layers", 2);
            Some(
                MergeMethodKind::FrankenMoE {
                    bottom_layers: b as usize,
                    middle_experts: m as usize,
                    top_layers: t as usize,
                },
            )
        } else {
            None
        }
    }

    /// The merge method `method` names, ignoring case, with its integer
    /// parameters from `params`.
    pub fn parse_merge_method(method: &str, params: &[Param]) -> (r: Result<MergeMethodKind, ConfigError>)
        ensures
            match merge_method_of(unicode_lowercase(method@), params@) {
                Some(m) => r == Ok::<MergeMethodKind, ConfigError>(m),
                None => r matches Err(ConfigError::UnknownMergeMethod(s)) && s@ == method@,
            },
    {
        let low = to_lowercase(method);
        match Self::merge_method_from_lower(low.as_str(), params) {
            Some(m) => Ok(m),
            None => Err(ConfigError::UnknownMergeMethod(owned(method))),
        }
    }

    /// The dtype a lowercased name selects; bfloat16 when unknown.
    pub fn dtype_from_lower(l: &str) -> (d: DType)
        ensures
            d == dtype_of(l@),
    {
        if str_eq(l, "float32") || str_eq(l, "fp32") || str_eq(l, "f32") {
            DType::F32
        } else if str_eq(l, "float16") || str_eq(l, "fp16") || str_eq(l, "f16") || str_eq(l, "half") {
            DType::F16
        } else {
            DType::BF16
        }
    }

    /// The dtype `dtype` names, ignoring case; bfloat16 when unknown.
    pub fn parse_dtype(dtype: &str) -> (d: DType)
        ensures
            d == dtype_of(unicode_lowercase(dtype@)),
    {
        let low = to_lowercase(dtype);
        Self::dtype_from_lower(low.as_str())
    }

    /// The quantization method a lowercased name selects, with its settings
    /// from `params`.
    pub fn quant_method_from_lower(l: &str, params: &[Param]) -> (r: Option<QuantMethodKind>)
        ensures
            is_quant_method_name(l@) ==> (r matches Some(q) && quant_method_matches(l@, params@, q)),
            !is_quant_method_name(l@) ==> r is None,
    {
        if str_eq(l, "jang") {
            let profile = match find_param(params, "profile") {
                Some(ParamValue::Text(s)) => s.clone(),
                _ => owned("JANG_2L"),
            };
            let fmt = match find_param(params, "output_format") {
                Some(ParamValue::Text(s)) => str_eq(s.as_str(), "gguf"),
                _ => str_eq("mlx", "gguf"),
            };
            let output_format = if fmt {
                JangFormat::Gguf
            } else {
                JangFormat::Mlx
            };
            Some(QuantMethodKind::Jang { profile, output_format })
        } else if str_eq(l, "dynamic3") {
            Some(QuantMethodKind::Dynamic3)
        } else if str_eq(l, "apex") {
            let tier = match find_param(params, "tier") {
                Some(ParamValue::Text(s)) => s.clone(),
                _ => owned("balanced"),
            };
            Some(QuantMethodKind::Apex { tier })
        } else if str_eq(l, "btl4") {
            Some(QuantMethodKind::Btl4Compact)
        } else if str_eq(l, "mixed") {
            let per_layer_bits = match find_param(params, "per_layer_bits") {
                Some(ParamValue::LayerBits(v)) => keep_layer_bits(v),
                _ => Vec::new(),
            };
            proof {
                assert(layer_bits_view(Seq::<(String, u8)>::empty()) =~= Seq::empty());
            }
            Some(QuantMethodKind::MixedPrecision { per_layer_bits })
        } else {
            None
        }
    }

    /// The quantization method `method` names, ignoring case, with its
    /// settings from `params`.
    pub fn parse_quant_method(method: &str, params: &[Param]) -> (r: Result<QuantMethodKind, ConfigError>)
        ensures
            is_quant_method_name(unicode_lowercase(method@)) ==> (r matches Ok(q) && quant_method_matches(
                unicode_lowercase(method@),
                params@,
                q,
            )),
            !is_quant_method_name(unicode_lowercase(method@)) ==> (r matches Err(
                ConfigError::UnknownQuantMethod(s),
            ) && s@ == method@),
    {
        let low = to_lowercase(method);
        match Self::quant_method_from_lower(low.as_str(), params) {
            Some(q) => Ok(q),
            None => Err(ConfigError::UnknownQuantMethod(owned(method))),
        }
    }
}

/// The complete per-layer bit entries, in order, bits truncated to a byte.
fn keep_layer_bits(v: &Vec<Option<(String, u64)>>) -> (r: Vec<(String, u8)>)
    ensures
        layer_bits_view(r@) == layer_bits_of(v@),
{
    let mut out: Vec<(String, u8)> = Vec::new();
    let mut i: usize = 0;
    while i < v.len()
        invariant
            i <= v.len(),
            layer_bits_view(out@) == layer_bits_of(v@.subrange(0, i as int)),
        decreases v.len() - i,
    {
        assert(v@.subrange(0, i + 1).drop_last() =~= v@.subrange(0, i as int));
        match &v[i] {
            Some((name, bits)) => {
                let b: u8 = *bits as u8;
                out.push((name.clone(), b));
                assert(layer_bits_view(out@) =~= layer_bits_view(out@.drop_last()).push((name@, b)));
                assert(out@.drop_last() =~= out@.subrange(0, out@.len() - 1));
            },
            None => {},
        }
        proof {
            assert(layer_bits_view(out@) == layer_bits_of(v@.subrange(0, i + 1)));
        }
        i = i + 1;
    }
    assert(v@.subrange(0, v@.len() as int) =~= v@);
    out
}

/// Canonical MergeKit name of a merge method.
pub fn merge_method_to_string(m: &MergeMethodKind) -> (s: String)
    ensures
        s@ == merge_method_name(*m),
{
    match m {
        MergeMethodKind::Linear => owned("linear"),
        MergeMethodKind::Slerp => owned("slerp"),
        MergeMethodKind::NuSlerp => owned("nuslerp"),
        MergeMethodKind::MultiSlerp => owned("multislerp"),
        MergeMethodKind::Karcher { .. } => owned("karcher"),
        MergeMethodKind::TaskArithmetic => owned("task_arithmetic"),
        MergeMethodKind::Ties => owned("ties"),
        MergeMethodKind::Dare => owned("dare"),
        MergeMethodKind::DareTies => owned("dare_ties"),
        MergeMethodKind::DellaLinear => owned("della_linear"),
        MergeMethodKind::Della => owned("della"),
        MergeMethodKind::Passthrough => owned("passthrough"),
        MergeMethodKind::Darwin { .. } => owned("darwin"),
        MergeMethodKind::FrankenMerge => owned("frankenmerge"),
        MergeMethodKind::FrankenMoE { .. } => owned("frankenmoe"),
        MergeMethodKind::Fusion => owned("fusion"),
        MergeMethodKind::ModelStock => owned("model_stock"),
        MergeMethodKind::Breadcrumbs => owned("breadcrumbs"),
        MergeMethodKind::BreadcrumbsTies => owned("breadcrumbs_ties"),
        MergeMethodKind::Sce => owned("sce"),
        MergeMethodKind::ArceeFusion => owned("arcee_fusion"),
        MergeMethodKind::Nearswap => owned("nearswap"),
        MergeMethodKind::Ram { .. } => owned("ram"),
        MergeMethodKind::Latent => owned("latent"),
        MergeMethodKind::Orca => owned("orca"),
        MergeMethodKind::ExpertWeaver => owned("expert_weaver"),
        MergeMethodKind::MoeDenseDistill => owned("moe_dense_distill"),
        MergeMethodKind::Hetero => owned("hetero"),
        MergeMethodKind::Chimera => owned("chimera"),
        MergeMethodKind::Aether => owned("aether"),
        MergeMethodKind::Pocket => owned("pocket"),
    }
}

/// Canonical name of a dtype.
pub fn dtype_to_string(d: DType) -> (s: String)
    ensures
        s@ == dtype_name(d),
{
    match d {
        DType::F32 => owned("float32"),
        DType::F16 => owned("float16"),
        DType::BF16 => owned("bfloat16"),
    }
}

/// Canonical name of a quantization method.
pub fn quant_method_to_string(q: &QuantMethodKind) -> (s: String)
    ensures
        s@ == quant_method_name(*q),
{
    match q {
        QuantMethodKind::Jang { .. } => owned("jang"),
        QuantMethodKind::Dynamic3 => owned("dynamic3"),
        QuantMethodKind::Apex { .. } => owned("apex"),
        QuantMethodKind::Btl4Compact => owned("btl4"),
        QuantMethodKind::MixedPrecision { .. } => owned("mixed"),
        QuantMethodKind::Bsqat { .. } => owned("bsqat"),
    }
}

/// Default output dtype name of a configuration.
pub fn default_dtype() -> (s: String)
    ensures
        s@ == "bfloat16"@,
{
    owned("bfloat16")
}

/// Layer range of a slice: the given one, or every layer.
pub fn slice_layer_range(range: Option<(usize, usize)>) -> (r: (usize, usize))
    ensures
        r == match range {
            Some(x) => x,
            None => (0usize, usize::MAX),
        },
{
    match range {
        Some(x) => x,
        None => (0, usize::MAX),
    }
}


/// Methods a configuration can name.
pub open spec fn is_nameable_method(m: MergeMethodKind) -> bool {
    !(m is Fusion || m is Latent || m is Orca || m is ExpertWeaver || m is MoeDenseDistill || m is Hetero
        || m is Chimera || m is Aether || m is Pocket)
}

/// The canonical name of a nameable method parses back to that method
/// (its integer parameters read from `params`).
pub proof fn lemma_merge_method_name_roundtrip(m: MergeMethodKind, params: Seq<Param>)
    requires
        is_nameable_method(m),
    ensures
        merge_method_of(merge_method_name(m), params) matches Some(m2) && merge_method_name(m2)
            == merge_method_name(m),
        !(m is Karcher || m is Darwin || m is Ram || m is FrankenMoE) ==> merge_method_of(
            merge_method_name(m),
            params,
        ) == Some(m),
{
    match m {
        MergeMethodKind::Linear => {
            reveal_strlit("linear");
            assert(merge_method_name(m) == "linear"@);
            assert(merge_method_of("linear"@, params) == Some(MergeMethodKind::Linear));
        },
        MergeMethodKind::Slerp => {
            reveal_strlit("slerp");
            reveal_strlit("linear");
            assert(merge_method_name(m) == "slerp"@);
            assert(merge_method_of("slerp"@, params) == Some(MergeMethodKind::Slerp));
        },
        MergeMethodKind::NuSlerp => {
            reveal_strlit("nuslerp");
            reveal_strlit("linear");
            reveal_strlit("slerp");
            assert(merge_method_name(m) == "nuslerp"@);
            assert(merge_method_of("nuslerp"@, params) == Some(MergeMethodKind::NuSlerp));
        },
        MergeMethodKind::MultiSlerp => {
            reveal_strlit("multislerp");
            reveal_strlit("linear");
            reveal_strlit("slerp");
            reveal_strlit("nuslerp");
            assert(merge_method_name(m) == "multislerp"@);
            assert(merge_method_of("multislerp"@, params) == Some(MergeMethodKind::MultiSlerp));
        },
        MergeMethodKind::Karcher { .. } => {
            reveal_strlit("karcher");
            reveal_strlit("linear");
            reveal_strlit("slerp");
            reveal_strlit("nuslerp");
            assert("karcher"@[0] != "nuslerp"@[0]);
            reveal_strlit("multislerp");
            reveal_strlit("multi_slerp");
            reveal_strlit("multi-slerp");
            assert(merge_method_name(m) == "karcher"@);
            assert(merge_method_of("karcher"@, params) matches Some(MergeMethodKind::Karcher { .. }));
        },
        MergeMethodKind::TaskArithmetic => {
            reveal_strlit("task_arithmetic");
            reveal_strlit("linear");
            reveal_strlit("slerp");
            reveal_strlit("nuslerp");
            reveal_strlit("multislerp");
            reveal_strlit("multi_slerp");
            reveal_strlit("multi-slerp");
            reveal_strlit("karcher");
            reveal_strlit("karcher_mean");
            reveal_strlit("karcher-mean");
            assert(merge_method_name(m) == "task_arithmetic"@);
            assert(merge_method_of("task_arithmetic"@, params) == Some(MergeMethodKind::TaskArithmetic));
        },
        MergeMethodKind::Ties => {
            reveal_strlit("ties");
            reveal_strlit("linear");
            reveal_strlit("slerp");
            reveal_strlit("nuslerp");
            reveal_strlit("multislerp");
            reveal_strlit("multi_slerp");
            reveal_strlit("multi-slerp");
            reveal_strlit("karcher");
            reveal_strlit("karcher_mean");
            reveal_strlit("karcher-mean");
            reveal_strlit("task_arithmetic");
            reveal_strlit("task-arithmetic");
            assert(merge_method_name(m) == "ties"@);
            assert(merge_method_of("ties"@, params) == Some(MergeMethodKind::Ties));
        },
        MergeMethodKind::Dare => {
            reveal_strlit("dare");
            reveal_strlit("linear");
            reveal_strlit("slerp");
            reveal_strlit("nuslerp");
            reveal_strlit("multislerp");
            reveal_strlit("multi_slerp");
            reveal_strlit("multi-slerp");
            reveal_strlit("karcher");
            reveal_strlit("karcher_mean");
            reveal_strlit("karcher-mean");
            reveal_strlit("task_arithmetic");
            reveal_strlit("task-arithmetic");
            reveal_strlit("ties");
            assert("dare"@[0] != "ties"@[0]);
            assert(merge_method_name(m) == "dare"@);
            assert(merge_method_of("dare"@, params) == Some(MergeMethodKind::Dare));
        },
        MergeMethodKind::DareTies => {
            reveal_strlit("dare_ties");
            reveal_strlit("linear");
            reveal_strlit("slerp");
            reveal_strlit("nuslerp");
            reveal_strlit("multislerp");
            reveal_strlit("multi_slerp");
            reveal_strlit("multi-slerp");
            reveal_strlit("karcher");
            reveal_strlit("karcher_mean");
            reveal_strlit("karcher-mean");
            reveal_strlit("task_arithmetic");
            reveal_strlit("task-arithmetic");
            reveal_strlit("ties");
            reveal_strlit("dare");
            assert(merge_method_name(m) == "dare_ties"@);
            assert(merge_method_of("dare_ties"@, params) == Some(MergeMethodKind::DareTies));
        },
        MergeMethodKind::DellaLinear => {
            reveal_strlit("della_linear");
            reveal_strlit("linear");
            reveal_strlit("slerp");
            reveal_strlit("nuslerp");
            reveal_strlit("multislerp");
            reveal_strlit("multi_slerp");
            reveal_strlit("multi-slerp");
            reveal_strlit("karcher");
            reveal_strlit("karcher_mean");
            assert("della_linear"@[0] != "karcher_mean"@[0]);
            reveal_strlit("karcher-mean");
            assert("della_linear"@[0] != "karcher-mean"@[0]);
            reveal_strlit("task_arithmetic");
            reveal_strlit("task-arithmetic");
            reveal_strlit("ties");
            reveal_strlit("dare");
            reveal_strlit("dare_ties");
            reveal_strlit("dare-ties");
            assert(merge_method_name(m) == "della_linear"@);
            assert(merge_method_of("della_linear"@, params) == Some(MergeMethodKind::DellaLinear));
        },
        MergeMethodKind::Della => {
            reveal_strlit("della");
            reveal_strlit("linear");
            reveal_strlit("slerp");
            assert("della"@[0] != "slerp"@[0]);
            reveal_strlit("nuslerp");
            reveal_strlit("multislerp");
            reveal_strlit("multi_slerp");
            reveal_strlit("multi-slerp");
            reveal_strlit("karcher");
            reveal_strlit("karcher_mean");
            reveal_strlit("karcher-mean");
            reveal_strlit("task_arithmetic");
            reveal_strlit("task-arithmetic");
            reveal_strlit("ties");
            reveal_strlit("dare");
            reveal_strlit("dare_ties");
            reveal_strlit("dare-ties");
            reveal_strlit("della_linear");
            reveal_strlit("della-linear");
            assert(merge_method_name(m) == "della"@);
            assert(merge_method_of("della"@, params) == Some(MergeMethodKind::Della));
        },
        MergeMethodKind::Passthrough => {
            reveal_strlit("passthrough");
            reveal_strlit("linear");
            reveal_strlit("slerp");
            reveal_strlit("nuslerp");
            reveal_strlit("multislerp");
            reveal_strlit("multi_slerp");
            assert("passthrough"@[0] != "multi_slerp"@[0]);
            reveal_strlit("multi-slerp");
            assert("passthrough"@[0] != "multi-slerp"@[0]);
            reveal_strlit("karcher");
            reveal_strlit("karcher_mean");
            reveal_strlit("karcher-mean");
            reveal_strlit("task_arithmetic");
            reveal_strlit("task-arithmetic");
            reveal_strlit("ties");
            reveal_strlit("dare");
            reveal_strlit("dare_ties");
            reveal_strlit("dare-ties");
            reveal_strlit("della_linear");
            reveal_strlit("della-linear");
            reveal_strlit("della");
            assert(merge_method_name(m) == "passthrough"@);
            assert(merge_method_of("passthrough"@, params) == Some(MergeMethodKind::Passthrough));
        },
        MergeMethodKind::Darwin { .. } => {
            reveal_strlit("darwin");
            reveal_strlit("linear");
            assert("darwin"@[0] != "linear"@[0]);
            reveal_strlit("slerp");
            reveal_strlit("nuslerp");
            reveal_strlit("multislerp");
            reveal_strlit("multi_slerp");
            reveal_strlit("multi-slerp");
            reveal_strlit("karcher");
            reveal_strlit("karcher_mean");
            reveal_strlit("karcher-mean");
            reveal_strlit("task_arithmetic");
            reveal_strlit("task-arithmetic");
            reveal_strlit("ties");
            reveal_strlit("dare");
            reveal_strlit("dare_ties");
            reveal_strlit("dare-ties");
            reveal_strlit("della_linear");
            reveal_strlit("della-linear");
            reveal_strlit("della");
            reveal_strlit("passthrough");
            assert(merge_method_name(m) == "darwin"@);
            assert(merge_method_of("darwin"@, params) matches Some(MergeMethodKind::Darwin { .. }));
        },
        MergeMethodKind::FrankenMerge => {
            reveal_strlit("frankenmerge");
            reveal_strlit("linear");
            reveal_strlit("slerp");
            reveal_strlit("nuslerp");
            reveal_strlit("multislerp");
            reveal_strlit("multi_slerp");
            reveal_strlit("multi-slerp");
            reveal_strlit("karcher");
            reveal_strlit("karcher_mean");
            assert("frankenmerge"@[0] != "karcher_mean"@[0]);
            reveal_strlit("karcher-mean");
            assert("frankenmerge"@[0] != "karcher-mean"@[0]);
            reveal_strlit("task_arithmetic");
            reveal_strlit("task-arithmetic");
            reveal_strlit("ties");
            reveal_strlit("dare");
            reveal_strlit("dare_ties");
            reveal_strlit("dare-ties");
            reveal_strlit("della_linear");
            assert("frankenmerge"@[0] != "della_linear"@[0]);
            reveal_strlit("della-linear");
            assert("frankenmerge"@[0] != "della-linear"@[0]);
            reveal_strlit("della");
            reveal_strlit("passthrough");
            reveal_strlit("darwin");
            assert(merge_method_name(m) == "frankenmerge"@);
            assert(merge_method_of("frankenmerge"@, params) == Some(MergeMethodKind::FrankenMerge));
        },
        MergeMethodKind::FrankenMoE { .. } => {
            reveal_strlit("frankenmoe");
            reveal_strlit("linear");
            reveal_strlit("slerp");
            reveal_strlit("nuslerp");
            reveal_strlit("multislerp");
            assert("frankenmoe"@[0] != "multislerp"@[0]);
            reveal_strlit("multi_slerp");
            reveal_strlit("multi-slerp");
            reveal_strlit("karcher");
            reveal_strlit("karcher_mean");
            reveal_strlit("karcher-mean");
            reveal_strlit("task_arithmetic");
            reveal_strlit("task-arithmetic");
            reveal_strlit("ties");
            reveal_strlit("dare");
            reveal_strlit("dare_ties");
            reveal_strlit("dare-ties");
            reveal_strlit("della_linear");
            reveal_strlit("della-linear");
            reveal_strlit("della");
            reveal_strlit("passthrough");
            reveal_strlit("darwin");
            reveal_strlit("frankenmerge");
            reveal_strlit("model_stock");
            reveal_strlit("model-stock");
            reveal_strlit("breadcrumbs");
            reveal_strlit("breadcrumbs_ties");
            reveal_strlit("breadcrumbs-ties");
            reveal_strlit("sce");
            reveal_strlit("arcee_fusion");
            reveal_strlit("arcee-fusion");
            reveal_strlit("nearswap");
            reveal_strlit("ram");
            assert(merge_method_name(m) == "frankenmoe"@);
            assert(merge_method_of("frankenmoe"@, params) matches Some(MergeMethodKind::FrankenMoE { .. }));
        },
        MergeMethodKind::ModelStock => {
            reveal_strlit("model_stock");
            reveal_strlit("linear");
            reveal_strlit("slerp");
            reveal_strlit("nuslerp");
            reveal_strlit("multislerp");
            reveal_strlit("multi_slerp");
            assert("model_stock"@[1] != "multi_slerp"@[1]);
            reveal_strlit("multi-slerp");
            assert("model_stock"@[1] != "multi-slerp"@[1]);
            reveal_strlit("karcher");
            reveal_strlit("karcher_mean");
            reveal_strlit("karcher-mean");
            reveal_strlit("task_arithmetic");
            reveal_strlit("task-arithmetic");
            reveal_strlit("ties");
            reveal_strlit("dare");
            reveal_strlit("dare_ties");
            reveal_strlit("dare-ties");
            reveal_strlit("della_linear");
            reveal_strlit("della-linear");
            reveal_strlit("della");
            reveal_strlit("passthrough");
            assert("model_stock"@[0] != "passthrough"@[0]);
            reveal_strlit("darwin");
            reveal_strlit("frankenmerge");
            assert(merge_method_name(m) == "model_stock"@);
            assert(merge_method_of("model_stock"@, params) == Some(MergeMethodKind::ModelStock));
        },
        MergeMethodKind::Breadcrumbs => {
            reveal_strlit("breadcrumbs");
            reveal_strlit("linear");
            reveal_strlit("slerp");
            reveal_strlit("nuslerp");
            reveal_strlit("multislerp");
            reveal_strlit("multi_slerp");
            assert("breadcrumbs"@[0] != "multi_slerp"@[0]);
            reveal_strlit("multi-slerp");
            assert("breadcrumbs"@[0] != "multi-slerp"@[0]);
            reveal_strlit("karcher");
            reveal_strlit("karcher_mean");
            reveal_strlit("karcher-mean");
            reveal_strlit("task_arithmetic");
            reveal_strlit("task-arithmetic");
            reveal_strlit("ties");
            reveal_strlit("dare");
            reveal_strlit("dare_ties");
            reveal_strlit("dare-ties");
            reveal_strlit("della_linear");
            reveal_strlit("della-linear");
            reveal_strlit("della");
            reveal_strlit("passthrough");
            assert("breadcrumbs"@[0] != "passthrough"@[0]);
            reveal_strlit("darwin");
            reveal_strlit("frankenmerge");
            reveal_strlit("model_stock");
            assert("breadcrumbs"@[0] != "model_stock"@[0]);
            reveal_strlit("model-stock");
            assert("breadcrumbs"@[0] != "model-stock"@[0]);
            assert(merge_method_name(m) == "breadcrumbs"@);
            assert(merge_method_of("breadcrumbs"@, params) == Some(MergeMethodKind::Breadcrumbs));
        },
        MergeMethodKind::BreadcrumbsTies => {
            reveal_strlit("breadcrumbs_ties");
            reveal_strlit("linear");
            reveal_strlit("slerp");
            reveal_strlit("nuslerp");
            reveal_strlit("multislerp");
            reveal_strlit("multi_slerp");
            reveal_strlit("multi-slerp");
            reveal_strlit("karcher");
            reveal_strlit("karcher_mean");
            reveal_strlit("karcher-mean");
            reveal_strlit("task_arithmetic");
            reveal_strlit("task-arithmetic");
            reveal_strlit("ties");
            reveal_strlit("dare");
            reveal_strlit("dare_ties");
            reveal_strlit("dare-ties");
            reveal_strlit("della_linear");
            reveal_strlit("della-linear");
            reveal_strlit("della");
            reveal_strlit("passthrough");
            reveal_strlit("darwin");
            reveal_strlit("frankenmerge");
            reveal_strlit("model_stock");
            reveal_strlit("model-stock");
            reveal_strlit("breadcrumbs");
            assert(merge_method_name(m) == "breadcrumbs_ties"@);
            assert(merge_method_of("breadcrumbs_ties"@, params) == Some(MergeMethodKind::BreadcrumbsTies));
        },
        MergeMethodKind::Sce => {
            reveal_strlit("sce");
            reveal_strlit("linear");
            reveal_strlit("slerp");
            reveal_strlit("nuslerp");
            reveal_strlit("multislerp");
            reveal_strlit("multi_slerp");
            reveal_strlit("multi-slerp");
            reveal_strlit("karcher");
            reveal_strlit("karcher_mean");
            reveal_strlit("karcher-mean");
            reveal_strlit("task_arithmetic");
            reveal_strlit("task-arithmetic");
            reveal_strlit("ties");
            reveal_strlit("dare");
            reveal_strlit("dare_ties");
            reveal_strlit("dare-ties");
            reveal_strlit("della_linear");
            reveal_strlit("della-linear");
            reveal_strlit("della");
            reveal_strlit("passthrough");
            reveal_strlit("darwin");
            reveal_strlit("frankenmerge");
            reveal_strlit("model_stock");
            reveal_strlit("model-stock");
            reveal_strlit("breadcrumbs");
            reveal_strlit("breadcrumbs_ties");
            reveal_strlit("breadcrumbs-ties");
            assert(merge_method_name(m) == "sce"@);
            assert(merge_method_of("sce"@, params) == Some(MergeMethodKind::Sce));
        },
        MergeMethodKind::ArceeFusion => {
            reveal_strlit("arcee_fusion");
            reveal_strlit("linear");
            reveal_strlit("slerp");
            reveal_strlit("nuslerp");
            reveal_strlit("multislerp");
            reveal_strlit("multi_slerp");
            reveal_strlit("multi-slerp");
            reveal_strlit("karcher");
            reveal_strlit("karcher_mean");
            assert("arcee_fusion"@[0] != "karcher_mean"@[0]);
            reveal_strlit("karcher-mean");
            assert("arcee_fusion"@[0] != "karcher-mean"@[0]);
            reveal_strlit("task_arithmetic");
            reveal_strlit("task-arithmetic");
            reveal_strlit("ties");
            reveal_strlit("dare");
            reveal_strlit("dare_ties");
            reveal_strlit("dare-ties");
            reveal_strlit("della_linear");
            assert("arcee_fusion"@[0] != "della_linear"@[0]);
            reveal_strlit("della-linear");
            assert("arcee_fusion"@[0] != "della-linear"@[0]);
            reveal_strlit("della");
            reveal_strlit("passthrough");
            reveal_strlit("darwin");
            reveal_strlit("frankenmerge");
            assert("arcee_fusion"@[0] != "frankenmerge"@[0]);
            reveal_strlit("model_stock");
            reveal_strlit("model-stock");
            reveal_strlit("breadcrumbs");
            reveal_strlit("breadcrumbs_ties");
            reveal_strlit("breadcrumbs-ties");
            reveal_strlit("sce");
            assert(merge_method_name(m) == "arcee_fusion"@);
            assert(merge_method_of("arcee_fusion"@, params) == Some(MergeMethodKind::ArceeFusion));
        },
        MergeMethodKind::Nearswap => {
            reveal_strlit("nearswap");
            reveal_strlit("linear");
            reveal_strlit("slerp");
            reveal_strlit("nuslerp");
            reveal_strlit("multislerp");
            reveal_strlit("multi_slerp");
            reveal_strlit("multi-slerp");
            reveal_strlit("karcher");
            reveal_strlit("karcher_mean");
            reveal_strlit("karcher-mean");
            reveal_strlit("task_arithmetic");
            reveal_strlit("task-arithmetic");
            reveal_strlit("ties");
            reveal_strlit("dare");
            reveal_strlit("dare_ties");
            reveal_strlit("dare-ties");
            reveal_strlit("della_linear");
            reveal_strlit("della-linear");
            reveal_strlit("della");
            reveal_strlit("passthrough");
            reveal_strlit("darwin");
            reveal_strlit("frankenmerge");
            reveal_strlit("model_stock");
            reveal_strlit("model-stock");
            reveal_strlit("breadcrumbs");
            reveal_strlit("breadcrumbs_ties");
            reveal_strlit("breadcrumbs-ties");
            reveal_strlit("sce");
            reveal_strlit("arcee_fusion");
            reveal_strlit("arcee-fusion");
            assert(merge_method_name(m) == "nearswap"@);
            assert(merge_method_of("nearswap"@, params) == Some(MergeMethodKind::Nearswap));
        },
        MergeMethodKind::Ram { .. } => {
            reveal_strlit("ram");
            reveal_strlit("linear");
            reveal_strlit("slerp");
            reveal_strlit("nuslerp");
            reveal_strlit("multislerp");
            reveal_strlit("multi_slerp");
            reveal_strlit("multi-slerp");
            reveal_strlit("karcher");
            reveal_strlit("karcher_mean");
            reveal_strlit("karcher-mean");
            reveal_strlit("task_arithmetic");
            reveal_strlit("task-arithmetic");
            reveal_strlit("ties");
            reveal_strlit("dare");
            reveal_strlit("dare_ties");
            reveal_strlit("dare-ties");
            reveal_strlit("della_linear");
            reveal_strlit("della-linear");
            reveal_strlit("della");
            reveal_strlit("passthrough");
            reveal_strlit("darwin");
            reveal_strlit("frankenmerge");
            reveal_strlit("model_stock");
            reveal_strlit("model-stock");
            reveal_strlit("breadcrumbs");
            reveal_strlit("breadcrumbs_ties");
            reveal_strlit("breadcrumbs-ties");
            reveal_strlit("sce");
            assert("ram"@[0] != "sce"@[0]);
            reveal_strlit("arcee_fusion");
            reveal_strlit("arcee-fusion");
            reveal_strlit("nearswap");
            assert(merge_method_name(m) == "ram"@);
            assert(merge_method_of("ram"@, params) matches Some(MergeMethodKind::Ram { .. }));
        },
        _ => {},
    }
}

/// The name with every `-` written as `_`.
pub open spec fn underscored(l: Seq<char>) -> Seq<char> {
    l.map_values(|c: char| if c == '-' { '_' } else { c })
}

/// The hyphenated method names MergeKit accepts.
pub open spec fn hyphenated_method_names() -> Seq<Seq<char>> {
    seq!["multi-slerp"@, "karcher-mean"@, "task-arithmetic"@, "dare-ties"@, "della-linear"@, "model-stock"@, "breadcrumbs-ties"@, "arcee-fusion"@]
}

/// Every hyphenated method name selects a method, the same one (with the
/// same integer parameters) as its spelling with underscores.
pub proof fn lemma_hyphenated_aliases(params: Seq<Param>)
    ensures
        forall|i: int|
            0 <= i < hyphenated_method_names().len() ==> merge_method_of(
                #[trigger] hyphenated_method_names()[i],
                params,
            ) is Some && merge_method_of(hyphenated_method_names()[i], params) == merge_method_of(
                underscored(hyphenated_method_names()[i]),
                params,
            ),
{
    reveal_strlit("linear");
    reveal_strlit("slerp");
    reveal_strlit("nuslerp");
    reveal_strlit("multislerp");
    reveal_strlit("multi_slerp");
    reveal_strlit("multi-slerp");
    reveal_strlit("karcher");
    reveal_strlit("karcher_mean");
    reveal_strlit("karcher-mean");
    reveal_strlit("task_arithmetic");
    reveal_strlit("task-arithmetic");
    reveal_strlit("ties");
    reveal_strlit("dare");
    reveal_strlit("dare_ties");
    reveal_strlit("dare-ties");
    reveal_strlit("della_linear");
    reveal_strlit("della-linear");
    reveal_strlit("della");
    reveal_strlit("passthrough");
    reveal_strlit("darwin");
    reveal_strlit("frankenmerge");
    reveal_strlit("model_stock");
    reveal_strlit("model-stock");
    reveal_strlit("breadcrumbs");
    reveal_strlit("breadcrumbs_ties");
    reveal_strlit("breadcrumbs-ties");
    reveal_strlit("sce");
    reveal_strlit("arcee_fusion");
    reveal_strlit("arcee-fusion");
    let n = hyphenated_method_names();
    assert(n.len() == 8);
    assert forall|i: int| 0 <= i < n.len() implies merge_method_of(#[trigger] n[i], params) is Some
        && merge_method_of(n[i], params) == merge_method_of(underscored(n[i]), params) by {
        if i == 0 {
            assert(n[i] == "multi-slerp"@);
            assert(underscored("multi-slerp"@) =~= "multi_slerp"@);
            assert("multi-slerp"@[5] != "multi_slerp"@[5]);
            assert(merge_method_of("multi_slerp"@, params) == Some(MergeMethodKind::MultiSlerp));
            assert(merge_method_of("multi-slerp"@, params) == Some(MergeMethodKind::MultiSlerp));
        }
        if i == 1 {
            assert(n[i] == "karcher-mean"@);
            assert(underscored("karcher-mean"@) =~= "karcher_mean"@);
            assert("karcher-mean"@[7] != "karcher_mean"@[7]);
            assert(merge_method_of("karcher_mean"@, params) == Some(MergeMethodKind::Karcher { max_iter: uint_or(params, "max_iter"@, 20) as usize }));
            assert(merge_method_of("karcher-mean"@, params) == Some(MergeMethodKind::Karcher { max_iter: uint_or(params, "max_iter"@, 20) as usize }));
        }
        if i == 2 {
            assert(n[i] == "task-arithmetic"@);
            assert(underscored("task-arithmetic"@) =~= "task_arithmetic"@);
            assert("task-arithmetic"@[4] != "task_arithmetic"@[4]);
            assert(merge_method_of("task_arithmetic"@, params) == Some(MergeMethodKind::TaskArithmetic));
            assert(merge_method_of("task-arithmetic"@, params) == Some(MergeMethodKind::TaskArithmetic));
        }
        if i == 3 {
            assert(n[i] == "dare-ties"@);
            assert(underscored("dare-ties"@) =~= "dare_ties"@);
            assert("dare-ties"@[4] != "dare_ties"@[4]);
            assert(merge_method_of("dare_ties"@, params) == Some(MergeMethodKind::DareTies));
            assert(merge_method_of("dare-ties"@, params) == Some(MergeMethodKind::DareTies));
        }
        if i == 4 {
            assert(n[i] == "della-linear"@);
            assert(underscored("della-linear"@) =~= "della_linear"@);
            assert("della_linear"@[0] != "karcher_mean"@[0]);
            assert("della_linear"@[0] != "karcher-mean"@[0]);
            assert("della-linear"@[0] != "karcher_mean"@[0]);
            assert("della-linear"@[0] != "karcher-mean"@[0]);
            assert("della-linear"@[5] != "della_linear"@[5]);
            assert(merge_method_of("della_linear"@, params) == Some(MergeMethodKind::DellaLinear));
            assert(merge_method_of("della-linear"@, params) == Some(MergeMethodKind::DellaLinear));
        }
        if i == 5 {
            assert(n[i] == "model-stock"@);
            assert(underscored("model-stock"@) =~= "model_stock"@);
            assert("model_stock"@[1] != "multi_slerp"@[1]);
            assert("model_stock"@[1] != "multi-slerp"@[1]);
            assert("model_stock"@[0] != "passthrough"@[0]);
            assert("model-stock"@[1] != "multi_slerp"@[1]);
            assert("model-stock"@[1] != "multi-slerp"@[1]);
            assert("model-stock"@[0] != "passthrough"@[0]);
            assert("model-stock"@[5] != "model_stock"@[5]);
            assert(merge_method_of("model_stock"@, params) == Some(MergeMethodKind::ModelStock));
            assert(merge_method_of("model-stock"@, params) == Some(MergeMethodKind::ModelStock));
        }
        if i == 6 {
            assert(n[i] == "breadcrumbs-ties"@);
            assert(underscored("breadcrumbs-ties"@) =~= "breadcrumbs_ties"@);
            assert("breadcrumbs-ties"@[11] != "breadcrumbs_ties"@[11]);
            assert(merge_method_of("breadcrumbs_ties"@, params) == Some(MergeMethodKind::BreadcrumbsTies));
            assert(merge_method_of("breadcrumbs-ties"@, params) == Some(MergeMethodKind::BreadcrumbsTies));
        }
        if i == 7 {
            assert(n[i] == "arcee-fusion"@);
            assert(underscored("arcee-fusion"@) =~= "arcee_fusion"@);
            assert("arcee_fusion"@[0] != "karcher_mean"@[0]);
            assert("arcee_fusion"@[0] != "karcher-mean"@[0]);
            assert("arcee_fusion"@[0] != "della_linear"@[0]);
            assert("arcee_fusion"@[0] != "della-linear"@[0]);
            assert("arcee_fusion"@[0] != "frankenmerge"@[0]);
            assert("arcee-fusion"@[0] != "karcher_mean"@[0]);
            assert("arcee-fusion"@[0] != "karcher-mean"@[0]);
            assert("arcee-fusion"@[0] != "della_linear"@[0]);
            assert("arcee-fusion"@[0] != "della-linear"@[0]);
            assert("arcee-fusion"@[0] != "frankenmerge"@[0]);
            assert("arcee-fusion"@[5] != "arcee_fusion"@[5]);
            assert(merge_method_of("arcee_fusion"@, params) == Some(MergeMethodKind::ArceeFusion));
            assert(merge_method_of("arcee-fusion"@, params) == Some(MergeMethodKind::ArceeFusion));
        }
    }
}

/// The canonical name of a dtype parses back to it.
pub proof fn lemma_dtype_name_roundtrip(d: DType)
    ensures
        dtype_of(dtype_name(d)) == d,
{
    match d {
        DType::F32 => {
            reveal_strlit("float32");
            assert(dtype_name(d) == "float32"@);
            assert(dtype_of("float32"@) == DType::F32);
        },
        DType::F16 => {
            reveal_strlit("float16");
            reveal_strlit("float32");
            assert("float16"@[5] != "float32"@[5]);
            reveal_strlit("fp32");
            reveal_strlit("f32");
            assert(dtype_name(d) == "float16"@);
            assert("float16"@ != "float32"@);
            assert("float16"@.len() != "fp32"@.len());
            assert("float16"@.len() != "f32"@.len());
            assert(dtype_of("float16"@) == DType::F16);
        },
        DType::BF16 => {
            reveal_strlit("bfloat16");
            reveal_strlit("float32");
            reveal_strlit("fp32");
            reveal_strlit("f32");
            reveal_strlit("float16");
            reveal_strlit("fp16");
            reveal_strlit("f16");
            reveal_strlit("half");
            assert(dtype_name(d) == "bfloat16"@);
            assert("bfloat16"@.len() == 8);
            assert(!("bfloat16"@ == "float32"@ || "bfloat16"@ == "fp32"@ || "bfloat16"@ == "f32"@));
            assert(!("bfloat16"@ == "float16"@ || "bfloat16"@ == "fp16"@ || "bfloat16"@ == "f16"@
                || "bfloat16"@ == "half"@));
            assert(dtype_of("bfloat16"@) == DType::BF16);
        },
    }
}

} // verus!
