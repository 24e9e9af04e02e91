//! Settings of the smaller merge methods and the plain types shared with
//! their callers.
use vstd::prelude::*;
use crate::naming::{has, raw_has};

verus! {

/// Per-tensor decision of a two-parent cross-architecture merge.
#[derive(Debug, Clone, Copy, PartialEq, Eq, Structural)]
pub enum MergeDecision {
    Average,
    Transplant,
}

/// How layer stacking adapts mismatched dimensions.
#[derive(Debug, Clone, Copy, PartialEq, Eq, Structural)]
pub enum DimensionAdapter {
    ZeroPad,
    Scale,
    Skip,
}

/// One job of a batch merge.
#[derive(Debug, Clone)]
pub struct BatchJob {
    pub models: Vec<String>,
    pub method: String,
    pub output: String,
}

/// Latent-space merge settings.
pub struct LatentMerge {
    pub vae_path: Option<String>,
    pub latent_dim: usize,
}

impl LatentMerge {
    /// Keeps the VAE path; the latent dimension is at least 8.
    pub fn new(vae_path: Option<String>, latent_dim: usize) -> (m: Self)
        ensures
            m.vae_path == vae_path,
            m.latent_dim == if latent_dim < 8 {
                8
            } else {
                latent_dim as int
            },
    {
        LatentMerge {
            vae_path,
            latent_dim: if latent_dim < 8 {
                8
            } else {
                latent_dim
            },
        }
    }
}

/// Expert-pruning settings.
pub struct PocketPrune {
    pub keep: usize,
}

impl PocketPrune {
    /// Keeps at least one expert.
    pub fn new(keep: usize) -> (p: Self)
        ensures
            p.keep == if keep < 1 {
                1
            } else {
                keep as int
            },
    {
        PocketPrune {
            keep: if keep < 1 {
                1
            } else {
                keep
            },
        }
    }
}

/// Dense-to-MoE rewrite settings.
pub struct ExpertWeaver {
    pub num_experts: usize,
    pub shared_dim: Option<usize>,
}

/// GLU projections (`gate_proj`, `up_proj`, `down_proj`).
pub open spec fn glu_spec(name: Seq<char>) -> bool {
    raw_has(name, "gate_proj"@) || raw_has(name, "up_proj"@) || raw_has(name, "down_proj"@)
}

impl ExpertWeaver {
    /// Between 1 and 64 experts.
    pub fn new(num_experts: usize, shared_dim: Option<usize>) -> (w: Self)
        ensures
            w.num_experts == if num_experts < 1 {
                1
            } else if num_experts > 64 {
                64
            } else {
                num_experts as int
            },
            w.shared_dim == shared_dim,
    {
        let n = if num_experts < 1 {
            1
        } else {
            num_experts
        };
        ExpertWeaver {
            num_experts: if n > 64 {
                64
            } else {
                n
            },
            shared_dim,
        }
    }

    /// Is the tensor a GLU projection?
    pub fn is_glu(&self, name: &str) -> (r: bool)
        ensures
            r == glu_spec(name@),
    {
        has(name, "gate_proj") || has(name, "up_proj") || has(name, "down_proj")
    }
}

/// Expert tensors across model families (`experts.`, `block_sparse_moe`,
/// `shared_expert`), case-sensitive.
pub open spec fn bridge_moe_spec(name: Seq<char>) -> bool {
    raw_has(name, "experts."@) || raw_has(name, "block_sparse_moe"@) || raw_has(name, "shared_expert"@)
}

/// Is the tensor an MoE expert tensor, as the MoE bridge sees it?
pub fn bridge_is_moe_tensor(name: &str) -> (r: bool)
    ensures
        r == bridge_moe_spec(name@),
{
    has(name, "experts.") || has(name, "block_sparse_moe") || has(name, "shared_expert")
}

} // verus!
