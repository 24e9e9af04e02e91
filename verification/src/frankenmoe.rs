//! Mixture-of-experts structure read from tensor names: which tensors are
//! experts, routers and shared experts, the router family, and the expert
//! architecture of each parent model.
use vstd::prelude::*;
use crate::naming::{extract_layer_index, has, layer_index_spec, raw_has};
use crate::text::{to_lowercase, unicode_lowercase, utf8};

verus! {

/// How shared experts are combined.
#[derive(Debug, Clone, Copy, PartialEq, Eq, Structural)]
pub enum SharedExpertStrategy {
    Concatenate,
    Average,
    FirstModel,
    DimensionAdapt { target_dim: usize },
}

/// Shared experts are concatenated unless configured otherwise.
pub fn default_shared_strategy() -> (s: SharedExpertStrategy)
    ensures
        s == SharedExpertStrategy::Concatenate,
{
    SharedExpertStrategy::Concatenate
}

/// Expert-count adaptation is on unless configured otherwise.
pub fn default_true() -> (b: bool)
    ensures
        b,
{
    true
}

/// Router family of an MoE model.
#[derive(Debug, Clone, Copy, PartialEq, Eq, Structural)]
pub enum RouterType {
    Standard,
    SwitchTransformer,
    DeepSeekV2,
    QwenMoE,
    Mixtral,
    Custom,
}

/// Expert architecture of one model.
#[derive(Debug, Clone)]
pub struct MoEArchitecture {
    pub num_experts: usize,
    pub experts_per_token: usize,
    pub hidden_size: usize,
    pub intermediate_size: usize,
    pub has_shared_expert: bool,
    pub shared_expert_intermediate_size: Option<usize>,
    pub router_type: RouterType,
    pub layer_indices: Vec<usize>,
}

/// Some name contains `pat`.
pub open spec fn any_has(names: Seq<String>, pat: Seq<char>) -> bool {
    exists|j: int| 0 <= j < names.len() && raw_has(#[trigger] names[j]@, pat)
}

/// Router family from a model's tensor names.
pub open spec fn router_type_of(names: Seq<String>) -> RouterType {
    if any_has(names, "switch_mlp"@) {
        RouterType::SwitchTransformer
    } else if exists|j: int|
        0 <= j < names.len() && raw_has(#[trigger] names[j]@, "gate.weight"@) && raw_has(names[j]@, "expert"@) {
        RouterType::DeepSeekV2
    } else if any_has(names, "router"@) {
        RouterType::Mixtral
    } else if any_has(names, "mlp.gate"@) {
        RouterType::QwenMoE
    } else {
        RouterType::Standard
    }
}

/// Does some name contain `pat`?
pub fn names_have(names: &[String], pat: &str) -> (r: bool)
    ensures
        r == any_has(names@, pat@),
{
    let mut j: usize = 0;
    while j < names.len()
        invariant
            j <= names.len(),
            forall|k: int| 0 <= k < j ==> !raw_has(#[trigger] names@[k]@, pat@),
        decreases names.len() - j,
    {
        if has(names[j].as_str(), pat) {
            return true;
        }
        j = j + 1;
    }
    false
}

/// Router family of a model from its tensor names.
pub fn detect_router_type(names: &[String]) -> (r: RouterType)
    ensures
        r == router_type_of(names@),
{
    if names_have(names, "switch_mlp") {
        return RouterType::SwitchTransformer;
    }
    let mut j: usize = 0;
    let mut deepseek = false;
    while j < names.len()
        invariant
            j <= names.len(),
            deepseek == exists|k: int|
                0 <= k < j && raw_has(#[trigger] names@[k]@, "gate.weight"@) && raw_has(names@[k]@, "expert"@),
        decreases names.len() - j,
    {
        if has(names[j].as_str(), "gate.weight") && has(names[j].as_str(), "expert") {
            deepseek = true;
        }
        j = j + 1;
    }
    if deepseek {
        RouterType::DeepSeekV2
    } else if names_have(names, "router") {
        RouterType::Mixtral
    } else if names_have(names, "mlp.gate") {
        RouterType::QwenMoE
    } else {
        RouterType::Standard
    }
}

/// Expert, router and shared-expert tensors, judged on a lowercased name.
pub open spec fn moe_lower_spec(l: Seq<char>) -> bool {
    raw_has(l, "expert"@) || raw_has(l, "switch_mlp"@) || raw_has(l, "mlp.experts"@) || raw_has(l, "shared_expert"@)
        || raw_has(l, "router"@) || (raw_has(l, "gate"@) && raw_has(l, "expert"@))
}

/// Router tensors, judged on a lowercased name.
pub open spec fn router_lower_spec(l: Seq<char>) -> bool {
    raw_has(l, "router"@) || (raw_has(l, "gate"@) && raw_has(l, "weight"@) && raw_has(l, "expert"@))
}

/// Is a tensor with this lowercased name part of the MoE machinery?
pub fn moe_tensor_lower(lower: &str) -> (r: bool)
    ensures
        r == moe_lower_spec(lower@),
{
    has(lower, "expert") || has(lower, "switch_mlp") || has(lower, "mlp.experts") || has(lower, "shared_expert")
        || has(lower, "router") || (has(lower, "gate") && has(lower, "expert"))
}

/// Is a tensor with this lowercased name a router?
pub fn router_tensor_lower(lower: &str) -> (r: bool)
    ensures
        r == router_lower_spec(lower@),
{
    has(lower, "router") || (has(lower, "gate") && has(lower, "weight") && has(lower, "expert"))
}

/// Is the tensor part of the MoE machinery (judged on its lowercase)?
pub fn is_moe_tensor(name: &str) -> (r: bool)
    ensures
        r == moe_lower_spec(unicode_lowercase(name@)),
{
    let n = to_lowercase(name);
    moe_tensor_lower(n.as_str())
}

/// Is the tensor a router (judged on its lowercase)?
pub fn is_router_tensor(name: &str) -> (r: bool)
    ensures
        r == router_lower_spec(unicode_lowercase(name@)),
{
    let n = to_lowercase(name);
    router_tensor_lower(n.as_str())
}

/// Is the tensor a shared expert (judged on its lowercase)?
pub fn is_shared_expert_tensor(name: &str) -> (r: bool)
    ensures
        r == raw_has(unicode_lowercase(name@), "shared_expert"@),
{
    let n = to_lowercase(name);
    has(n.as_str(), "shared_expert")
}

/// Every tensor the architecture detector counts as an expert (a name with
/// `expert`, `switch_mlp` or `mlp.experts`), every router and every shared
/// expert is routed as an MoE tensor: applied to a lowercased name `l`, as
/// `is_moe_tensor`, `is_router_tensor` and `is_shared_expert_tensor` judge.
pub proof fn lemma_moe_covers_experts_routers_shared(l: Seq<char>)
    ensures
        expert_name(l) ==> moe_lower_spec(l),
        router_lower_spec(l) ==> moe_lower_spec(l),
        raw_has(l, "shared_expert"@) ==> moe_lower_spec(l),
{
}

/// Tensor names and, for each, its shape when its metadata could be read.
#[derive(Debug, Clone)]
pub struct StoreListing {
    pub names: Vec<String>,
    pub shapes: Vec<Option<Vec<usize>>>,
}

/// Names that mark expert tensors.
pub open spec fn expert_name(n: Seq<char>) -> bool {
    raw_has(n, "expert"@) || raw_has(n, "switch_mlp"@) || raw_has(n, "mlp.experts"@)
}

/// Entry `j` is an expert tensor whose metadata was read.
pub open spec fn read_expert(s: StoreListing, j: int) -> bool {
    0 <= j < s.names@.len() && expert_name(s.names@[j]@) && s.shapes@[j] is Some
}

/// Entry `j` is a read expert tensor with at least three dimensions.
pub open spec fn sized_expert(s: StoreListing, j: int) -> bool {
    read_expert(s, j) && s.shapes@[j].unwrap()@.len() >= 3
}

/// `m` is the largest dimension `d` over sized expert entries, 0 if none.
pub open spec fn is_dim_max(s: StoreListing, d: int, m: int) -> bool {
    &&& forall|j: int| #[trigger] sized_expert(s, j) ==> s.shapes@[j].unwrap()@[d] <= m
    &&& (m == 0 || exists|j: int| #[trigger] sized_expert(s, j) && s.shapes@[j].unwrap()@[d] == m)
}

/// Architecture read from one model's listing.
pub open spec fn arch_matches(s: StoreListing, a: MoEArchitecture) -> bool {
    if !exists|j: int| 0 <= j < s.names@.len() && expert_name(#[trigger] s.names@[j]@) {
        &&& a.num_experts == 0 && a.experts_per_token == 0 && a.hidden_size == 0 && a.intermediate_size == 0
        &&& !a.has_shared_expert && a.shared_expert_intermediate_size is None
        &&& a.router_type == RouterType::Custom && a.layer_indices@.len() == 0
    } else {
        &&& is_dim_max(s, 0, a.num_experts as int)
        &&& is_dim_max(s, 1, a.hidden_size as int)
        &&& is_dim_max(s, 2, a.intermediate_size as int)
        &&& a.experts_per_token == 2
        &&& a.has_shared_expert == exists|j: int| #[trigger] read_expert(s, j) && raw_has(s.names@[j]@, "shared_expert"@)
        &&& a.shared_expert_intermediate_size is None
        &&& a.router_type == router_type_of(s.names@)
        &&& forall|p: int, q: int| 0 <= p < q < a.layer_indices@.len() ==> a.layer_indices@[p] < a.layer_indices@[q]
        &&& forall|x: usize| #[trigger] a.layer_indices@.contains(x) <==> exists|j: int|
            #[trigger] read_expert(s, j) && layer_index_spec(utf8(s.names@[j]@)) == Some(x as nat)
    }
}

fn insert_sorted(v: &mut Vec<usize>, x: usize)
    requires
        forall|a: int, b: int| 0 <= a < b < old(v)@.len() ==> old(v)@[a] < old(v)@[b],
    ensures
        forall|a: int, b: int| 0 <= a < b < final(v)@.len() ==> final(v)@[a] < final(v)@[b],
        forall|y: usize| #[trigger] final(v)@.contains(y) <==> (old(v)@.contains(y) || y == x),
{
    let mut i: usize = 0;
    while i < v.len()
        invariant
            i <= v.len(),
            v@ == old(v)@,
            forall|a: int, b: int| 0 <= a < b < v@.len() ==> v@[a] < v@[b],
            forall|k: int| 0 <= k < i ==> v@[k] < x,
        decreases v.len() - i,
    {
        if v[i] == x {
            assert(v@[i as int] == x);
            return;
        }
        if x < v[i] {
            let ghost before = v@;
            v.insert(i, x);
            proof {
                assert forall|y: usize| #[trigger] v@.contains(y) <==> (before.contains(y) || y == x) by {
                    if v@.contains(y) {
                        let k = choose|k: int| 0 <= k < v@.len() && v@[k] == y;
                        if k < i {
                            assert(before[k] == y);
                        } else if k > i {
                            assert(before[k - 1] == y);
                        }
                    }
                    if before.contains(y) {
                        let k = choose|k: int| 0 <= k < before.len() && before[k] == y;
                        if k < i {
                            assert(v@[k] == y);
                        } else {
                            assert(v@[k + 1] == y);
                        }
                    }
                    if y == x {
                        assert(v@[i as int] == y);
                    }
                }
            }
            return;
        }
        i = i + 1;
    }
    let ghost before = v@;
    v.push(x);
    proof {
        assert forall|a: int, b: int| 0 <= a < b < v@.len() implies v@[a] < v@[b] by {
            if b == before.len() {
                assert(v@[a] == before[a]);
            }
        }
        assert forall|y: usize| #[trigger] v@.contains(y) <==> (old(v)@.contains(y) || y == x) by {
            if v@.contains(y) {
                let k = choose|k: int| 0 <= k < v@.len() && v@[k] == y;
                if k < before.len() {
                    assert(before[k] == y);
                }
            }
            if old(v)@.contains(y) {
                let k = choose|k: int| 0 <= k < before.len() && before[k] == y;
                assert(v@[k] == y);
            }
            if y == x {
                assert(v@[before.len() as int] == y);
            }
        }
    }
}

/// Expert architecture of one model from its listing.
pub fn detect_architecture(s: &StoreListing) -> (a: MoEArchitecture)
    requires
        s.names@.len() == s.shapes@.len(),
    ensures
        arch_matches(*s, a),
{
    let n = s.names.len();
    let mut any_expert = false;
    let mut num_experts: usize = 0;
    let mut hidden: usize = 0;
    let mut inter: usize = 0;
    let mut shared = false;
    let mut layers: Vec<usize> = Vec::new();
    let ghost mut wn: int = 0;
    let ghost mut wh: int = 0;
    let ghost mut wi: int = 0;
    let ghost mut ws: int = 0;
    let mut j: usize = 0;
    while j < n
        invariant
            n == s.names@.len(),
            n == s.shapes@.len(),
            j <= n,
            any_expert == exists|k: int| 0 <= k < j && expert_name(#[trigger] s.names@[k]@),
            forall|k: int| 0 <= k < j && #[trigger] sized_expert(*s, k) ==> s.shapes@[k].unwrap()@[0] <= num_experts
                && s.shapes@[k].unwrap()@[1] <= hidden && s.shapes@[k].unwrap()@[2] <= inter,
            num_experts == 0 || (0 <= wn < j && sized_expert(*s, wn) && s.shapes@[wn].unwrap()@[0] == num_experts),
            hidden == 0 || (0 <= wh < j && sized_expert(*s, wh) && s.shapes@[wh].unwrap()@[1] == hidden),
            inter == 0 || (0 <= wi < j && sized_expert(*s, wi) && s.shapes@[wi].unwrap()@[2] == inter),
            shared ==> (0 <= ws < j && read_expert(*s, ws) && raw_has(s.names@[ws]@, "shared_expert"@)),
            !shared ==> forall|k: int| 0 <= k < j && #[trigger] read_expert(*s, k) ==> !raw_has(s.names@[k]@, "shared_expert"@),
            forall|p: int, q: int| 0 <= p < q < layers@.len() ==> layers@[p] < layers@[q],
            forall|x: usize| #[trigger] layers@.contains(x) <==> exists|k: int|
                0 <= k < j && #[trigger] read_expert(*s, k) && layer_index_spec(utf8(s.names@[k]@)) == Some(x as nat),
        decreases n - j,
    {
        let name = s.names[j].as_str();
        let is_expert = has(name, "expert") || has(name, "switch_mlp") || has(name, "mlp.experts");
        let ghost old_layers = layers@;
        if is_expert {
            any_expert = true;
            match &s.shapes[j] {
                Some(shape) => {
                    assert(shape@ == s.shapes@[j as int].unwrap()@);
                    if shape.len() >= 3 {
                        if shape[0] > num_experts {
                            num_experts = shape[0];
                            proof {
                                wn = j as int;
                            }
                        }
                        if shape[1] > hidden {
                            hidden = shape[1];
                            proof {
                                wh = j as int;
                            }
                        }
                        if shape[2] > inter {
                            inter = shape[2];
                            proof {
                                wi = j as int;
                            }
                        }
                    }
                    match extract_layer_index(name) {
                        Some(x) => {
                            insert_sorted(&mut layers, x);
                        },
                        None => {},
                    }
                    if has(name, "shared_expert") {
                        shared = true;
                        proof {
                            ws = j as int;
                        }
                    }
                },
                None => {},
            }
        }
        proof {
            assert(is_expert == expert_name(s.names@[j as int]@));
            assert forall|x: usize| #[trigger] layers@.contains(x) <==> exists|k: int|
                0 <= k < j + 1 && #[trigger] read_expert(*s, k) && layer_index_spec(utf8(s.names@[k]@)) == Some(
                    x as nat,
                ) by {
                if exists|k: int|
                    0 <= k < j + 1 && #[trigger] read_expert(*s, k) && layer_index_spec(utf8(s.names@[k]@)) == Some(
                        x as nat,
                    ) {
                    let k = choose|k: int|
                        0 <= k < j + 1 && #[trigger] read_expert(*s, k) && layer_index_spec(utf8(s.names@[k]@))
                            == Some(x as nat);
                    if k < j {
                        assert(old_layers.contains(x));
                    }
                }
                if layers@.contains(x) && !old_layers.contains(x) {
                    assert(read_expert(*s, j as int));
                }
            }
        }
        j = j + 1;
    }
    if !any_expert {
        return MoEArchitecture {
            num_experts: 0,
            experts_per_token: 0,
            hidden_size: 0,
            intermediate_size: 0,
            has_shared_expert: false,
            shared_expert_intermediate_size: None,
            router_type: RouterType::Custom,
            layer_indices: Vec::new(),
        };
    }
    let router_type = detect_router_type(s.names.as_slice());
    proof {
        if num_experts != 0 {
            assert(sized_expert(*s, wn));
        }
        if hidden != 0 {
            assert(sized_expert(*s, wh));
        }
        if inter != 0 {
            assert(sized_expert(*s, wi));
        }
        if shared {
            assert(read_expert(*s, ws));
        }
    }
    MoEArchitecture {
        num_experts,
        experts_per_token: 2,
        hidden_size: hidden,
        intermediate_size: inter,
        has_shared_expert: shared,
        shared_expert_intermediate_size: None,
        router_type,
        layer_indices: layers,
    }
}

/// Expert architecture of each model, in order.
pub fn detect_moe_architectures(stores: &[StoreListing]) -> (r: Vec<MoEArchitecture>)
    requires
        forall|i: int| 0 <= i < stores@.len() ==> (#[trigger] stores@[i]).names@.len() == stores@[i].shapes@.len(),
    ensures
        r@.len() == stores@.len(),
        forall|i: int| 0 <= i < stores@.len() ==> arch_matches(#[trigger] stores@[i], r@[i]),
{
    let mut out: Vec<MoEArchitecture> = Vec::new();
    let mut i: usize = 0;
    while i < stores.len()
        invariant
            i <= stores.len(),
            out@.len() == i,
            forall|k: int| 0 <= k < stores@.len() ==> (#[trigger] stores@[k]).names@.len() == stores@[k].shapes@.len(),
            forall|k: int| 0 <= k < i ==> arch_matches(#[trigger] stores@[k], out@[k]),
        decreases stores.len() - i,
    {
        let a = detect_architecture(&stores[i]);
        out.push(a);
        i = i + 1;
    }
    out
}

} // verus!
