use forge::frankenmoe::{
    default_shared_strategy, default_true, detect_moe_architectures, detect_router_type, is_moe_tensor,
    is_router_tensor, is_shared_expert_tensor, RouterType, SharedExpertStrategy, StoreListing,
};
use forge::misc::{bridge_is_moe_tensor, ExpertWeaver, LatentMerge, PocketPrune};
use forge::naming::{
    apex_style_bits, apple_format, btl4_bits, classify, extract_layer_index, is_imatrix_passthrough, is_passthrough,
    layer_idx, mixed_bits, ApexQuantizer, MixedStrategy, TensorRole,
};

#[test]
fn moe_tensor_detection() {
    assert!(bridge_is_moe_tensor("model.layers.0.mlp.experts.3.gate_proj"));
    assert!(bridge_is_moe_tensor("model.layers.0.block_sparse_moe.experts.0.w1"));
    assert!(bridge_is_moe_tensor("model.layers.0.mlp.shared_expert.gate_proj"));
    assert!(!bridge_is_moe_tensor("model.layers.0.mlp.gate_proj"));
    assert!(!bridge_is_moe_tensor("model.layers.0.self_attn.q_proj"));
}

#[test]
fn layer_index_from_known_prefixes() {
    assert_eq!(extract_layer_index("model.layers.12.mlp.up_proj"), Some(12));
    assert_eq!(extract_layer_index("transformer.h.3.attn"), Some(3));
    assert_eq!(extract_layer_index("layers.x.y"), None);
    assert_eq!(extract_layer_index("lm_head.weight"), None);
    assert_eq!(extract_layer_index("layers.7"), None);
}

#[test]
fn layer_idx_reads_segment_after_layers() {
    assert_eq!(layer_idx("model.layers.5.self_attn"), Some(5));
    assert_eq!(layer_idx("layers.17"), Some(17));
    assert_eq!(layer_idx("model.layers"), None);
    assert_eq!(layer_idx("model.layers.x.5"), None);
    assert_eq!(layer_idx("sublayers.5.x"), None);
    assert_eq!(layer_idx("a.layers.+4.b"), Some(4));
}

#[test]
fn apex_roles_and_passthrough() {
    assert_eq!(classify("model.layers.0.mlp.Shared_Expert.up"), TensorRole::SharedExpert);
    assert_eq!(classify("model.layers.0.mlp.experts.1.up"), TensorRole::RoutedExpert);
    assert_eq!(classify("model.layers.0.self_attn.Q_PROJ"), TensorRole::Attention);
    assert_eq!(classify("model.embed_tokens"), TensorRole::Embedding);
    assert_eq!(classify("lm_head"), TensorRole::Other);
    assert!(is_passthrough("model.layers.0.input_LayerNorm.weight"));
    assert!(is_passthrough("x.bias"));
    assert!(!is_passthrough("x.BIAS"));
    assert!(!is_passthrough("x.weight"));
}

#[test]
fn apex_bits_follow_tier_and_depth() {
    let q = ApexQuantizer::new("i_quality");
    assert!(q.diverse_imatrix);
    assert!(!ApexQuantizer::new("balanced").diverse_imatrix);
    // Edge layer (0/100 < 8%): one more bit.
    assert_eq!(q.bits_for(&TensorRole::RoutedExpert, "model.layers.0.mlp.experts.0.w", 100), 5);
    // Middle layer (50%): one less bit.
    assert_eq!(q.bits_for(&TensorRole::SharedExpert, "model.layers.50.x", 100), 7);
    // Between bands (20%): base bits.
    assert_eq!(q.bits_for(&TensorRole::Attention, "model.layers.20.x", 100), 6);
    // No layer: base bits; unknown tier: 4.
    assert_eq!(ApexQuantizer::new("weird").bits_for(&TensorRole::Other, "lm_head", 10), 4);
    // Saturation at 8 and floor at 2.
    assert_eq!(q.bits_for(&TensorRole::SharedExpert, "layers.99.x", 100), 8);
    let mini = ApexQuantizer::new("mini");
    assert_eq!(mini.bits_for(&TensorRole::RoutedExpert, "layers.50.x", 100), 2);
    // Exactly 8% is not an edge layer.
    assert_eq!(mini.bits_for(&TensorRole::SharedExpert, "layers.2.x", 25), 3);
    // total_layers of 0 counts as 1.
    assert_eq!(mini.bits_for(&TensorRole::SharedExpert, "layers.0.x", 0), 4);
}

#[test]
fn apple_formats_by_width() {
    assert_eq!(apple_format("x", 8), "Q8_0");
    assert_eq!(apple_format("self_attn.Q_proj", 6), "Q5.1");
    assert_eq!(apple_format("mlp.down", 6), "Q6_K");
    assert_eq!(apple_format("x", 5), "Q5.1");
    assert_eq!(apple_format("model.MLP.up", 4), "Q4_NL");
    assert_eq!(apple_format("attn", 4), "Q4_0");
    assert_eq!(apple_format("x", 3), "Q4.1");
    assert_eq!(apple_format("x", 2), "Q4.0");
    assert_eq!(apple_format("x", 1), "Q4_0");
}

#[test]
fn mixed_strategies_pick_widths() {
    assert_eq!(apex_style_bits("experts.1"), 3);
    assert_eq!(apex_style_bits("self_attn.v_proj"), 6);
    assert_eq!(apex_style_bits("embed"), 4);
    assert_eq!(apex_style_bits("Experts"), 4);
    assert_eq!(btl4_bits(&[2000, 1000]), 3);
    assert_eq!(btl4_bits(&[1000, 1000]), 4);
    assert_eq!(btl4_bits(&[100, 1000]), 6);
    assert_eq!(btl4_bits(&[]), 6);
    let table = vec![("a".to_string(), 2u8), ("b".to_string(), 8u8), ("a".to_string(), 5u8)];
    assert_eq!(mixed_bits(MixedStrategy::Generic, "a", &[], &table), 2);
    assert_eq!(mixed_bits(MixedStrategy::Generic, "c", &[], &table), 4);
    assert_eq!(mixed_bits(MixedStrategy::ApexStyle, "attn", &[], &table), 6);
    assert_eq!(mixed_bits(MixedStrategy::Btl4Compact, "a", &[200_000], &table), 4);
}

#[test]
fn imatrix_skips_norms_embeddings_and_vision() {
    assert!(is_imatrix_passthrough("model.norm.weight"));
    assert!(is_imatrix_passthrough("proj.BIAS"));
    assert!(is_imatrix_passthrough("wte"));
    assert!(is_imatrix_passthrough("Visual.blocks.0"));
    assert!(!is_imatrix_passthrough("model.layers.0.mlp.up_proj.weight"));
}

#[test]
fn moe_name_predicates() {
    assert!(is_moe_tensor("model.layers.1.mlp.EXPERTS.2.w1"));
    assert!(is_moe_tensor("router.weight"));
    assert!(!is_moe_tensor("model.layers.1.mlp.gate_proj"));
    assert!(is_router_tensor("Router"));
    assert!(is_router_tensor("expert_gate.weight"));
    assert!(!is_router_tensor("mlp.gate.weight"));
    assert!(is_shared_expert_tensor("mlp.SHARED_EXPERT.up"));
    assert!(!is_shared_expert_tensor("mlp.experts.0.up"));
    assert_eq!(default_shared_strategy(), SharedExpertStrategy::Concatenate);
    assert!(default_true());
}

#[test]
fn router_family_from_names() {
    let n = |v: &[&str]| v.iter().map(|s| s.to_string()).collect::<Vec<_>>();
    assert_eq!(detect_router_type(&n(&["a.switch_mlp.w", "router"])), RouterType::SwitchTransformer);
    assert_eq!(detect_router_type(&n(&["experts.gate.weight", "router"])), RouterType::DeepSeekV2);
    assert_eq!(detect_router_type(&n(&["x.router.w"])), RouterType::Mixtral);
    assert_eq!(detect_router_type(&n(&["mlp.gate.w"])), RouterType::QwenMoE);
    assert_eq!(detect_router_type(&n(&["q_proj"])), RouterType::Standard);
}

#[test]
fn moe_architecture_from_listing() {
    let dense = StoreListing { names: vec!["model.layers.0.mlp.up_proj".to_string()], shapes: vec![Some(vec![4, 4])] };
    let moe = StoreListing {
        names: vec![
            "model.layers.3.mlp.experts.w1".to_string(),
            "model.layers.1.mlp.experts.w2".to_string(),
            "model.layers.2.mlp.shared_expert.up".to_string(),
            "model.layers.9.mlp.experts.w3".to_string(),
            "model.layers.1.router".to_string(),
        ],
        shapes: vec![Some(vec![8, 16, 32]), Some(vec![4, 64, 8]), Some(vec![16, 16]), None, Some(vec![8, 16])],
    };
    let archs = detect_moe_architectures(&[dense, moe]);
    assert_eq!(archs.len(), 2);
    assert_eq!(archs[0].num_experts, 0);
    assert_eq!(archs[0].experts_per_token, 0);
    assert_eq!(archs[0].router_type, RouterType::Custom);
    let a = &archs[1];
    assert_eq!((a.num_experts, a.hidden_size, a.intermediate_size), (8, 64, 32));
    assert_eq!(a.experts_per_token, 2);
    assert!(a.has_shared_expert);
    assert_eq!(a.router_type, RouterType::Mixtral);
    // Layer 9's metadata could not be read, so it is not counted.
    assert_eq!(a.layer_indices, vec![1, 2, 3]);
}

#[test]
fn small_method_settings() {
    let w = ExpertWeaver::new(0, Some(3));
    assert_eq!((w.num_experts, w.shared_dim), (1, Some(3)));
    assert_eq!(ExpertWeaver::new(500, None).num_experts, 64);
    assert!(w.is_glu("mlp.down_proj.weight"));
    assert!(!w.is_glu("self_attn.q_proj"));
    assert_eq!(LatentMerge::new(None, 3).latent_dim, 8);
    assert_eq!(LatentMerge::new(Some("vae.pt".to_string()), 64).vae_path, Some("vae.pt".to_string()));
    assert_eq!(PocketPrune::new(0).keep, 1);
    assert_eq!(PocketPrune::new(7).keep, 7);
}
