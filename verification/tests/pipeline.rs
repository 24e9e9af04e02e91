use forge::arch_map::name_similarity;
use forge::gguf::{encode_gguf_prefix, GGUFQuantType, GgufTensorInfo, GgufValue};
use forge::merge_config::{DType, MergeKitLoader, MergeMethodKind};
use forge::merge_guard::{check_first_parent, check_hetero, check_uniform, chimera_route, ChimeraRoute, MergeInputError};
use forge::naming::{apple_format_lower, classify_lower, imatrix_passthrough_lower, passthrough_from, TensorRole};
use forge::pipeline::{count_layer_tensors, dtype_label, lcg_step, model_type_from_names, packed_layout, tensor_cost, worker_count};
use forge::slots::HeteroMode;

#[test]
fn worker_count_prefers_valid_request() {
    assert_eq!(worker_count(Some("4"), Some(16), 100), 4);
    assert_eq!(worker_count(Some("many"), Some(16), 100), 16);
    assert_eq!(worker_count(None, None, 100), 1);
    assert_eq!(worker_count(Some("0"), Some(8), 100), 1);
    assert_eq!(worker_count(Some("64"), None, 10), 10);
    assert_eq!(worker_count(None, Some(8), 0), 1);
}

#[test]
fn tensor_cost_saturates_and_is_positive() {
    assert_eq!(tensor_cost(100, 2), 300);
    assert_eq!(tensor_cost(0, 5), 1);
    assert_eq!(tensor_cost(u64::MAX / 2, 3), u64::MAX);
    assert_eq!(dtype_label(DType::BF16), "BF16");
    assert_eq!(dtype_label(DType::F32), "F32");
}

#[test]
fn packed_layout_counts_words_and_groups() {
    let l = packed_layout(&vec![64, 100], 6400, 4, 64);
    assert_eq!(l.weight_shape, vec![64, 13]);
    assert_eq!(l.scale_shape, vec![64, 2]);
    let e = packed_layout(&vec![], 10, 3, 64);
    assert!(e.weight_shape.is_empty() && e.scale_shape.is_empty());
    let names: Vec<String> = ["model.layers.0.q", "model.layers.1.q", "lm_head"].iter().map(|s| s.to_string()).collect();
    assert_eq!(count_layer_tensors(&names), 2);
    assert_eq!(count_layer_tensors(&[]), 1);
    assert_eq!(model_type_from_names(&names), "generic");
    assert_eq!(model_type_from_names(&["gemma.llama".to_string()]), "gemma");
}

#[test]
fn lcg_stream_matches_recurrence() {
    let (s1, t1) = lcg_step(7);
    assert_eq!(s1, 7u64.wrapping_mul(6364136223846793005).wrapping_add(1));
    assert_eq!(t1 as u64, s1 >> 33);
    let (s2, t2) = lcg_step(u64::MAX);
    assert_eq!(s2, u64::MAX.wrapping_mul(6364136223846793005).wrapping_add(1));
    assert!(t2 < 0x8000_0000);
}

#[test]
fn merge_input_checks() {
    assert_eq!(check_uniform(&[], 4), Err(MergeInputError::NoInputs));
    assert_eq!(check_uniform(&[4, 4], 4), Ok(()));
    assert_eq!(check_uniform(&[4, 3], 4), Err(MergeInputError::LengthMismatch));
    assert_eq!(check_uniform(&[3, 3], 4), Err(MergeInputError::LengthMismatch));
    assert_eq!(
        check_hetero(HeteroMode::Intersection, 2, &[2], 2),
        Err(MergeInputError::ParentCount { held: 1, expected: 2 })
    );
    assert_eq!(check_hetero(HeteroMode::Intersection, 2, &[3, 3], 2), Ok(()));
    assert_eq!(check_hetero(HeteroMode::Union, 2, &[2], 2), Ok(()));
    assert_eq!(chimera_route(&[4], 4), Ok(ChimeraRoute::Transplant));
    assert_eq!(chimera_route(&[4, 5], 5), Err(MergeInputError::LengthMismatch));
    assert_eq!(chimera_route(&[4, 4, 1], 9), Ok(ChimeraRoute::Score));
    assert_eq!(check_first_parent(&[3, 1], 3), Ok(()));
    assert_eq!(check_first_parent(&[], 3), Err(MergeInputError::NoInputs));
}

#[test]
fn name_similarity_compares_last_segments() {
    assert_eq!(name_similarity("model.layers.0.mlp.up_proj.weight", "layers.3.mlp.up_proj.weight"), (3, 3));
    assert_eq!(name_similarity("a.b.c", "x.b.c"), (2, 3));
    assert_eq!(name_similarity("weight", "x.weight"), (1, 1));
    assert_eq!(name_similarity("a.b", "c.d"), (0, 2));
}

#[test]
fn lowercased_name_rules() {
    assert_eq!(classify_lower("mlp.shared_expert.up"), TensorRole::SharedExpert);
    assert_eq!(classify_lower("self_attn.q_proj"), TensorRole::Attention);
    assert!(passthrough_from("layer.norm", "Layer.Norm"));
    assert!(!passthrough_from("x.bias", "x.BIAS"));
    assert_eq!(apple_format_lower("mlp.up", 4), "Q4_NL");
    assert!(imatrix_passthrough_lower("vision_tower.x"));
    assert_eq!(GGUFQuantType::from_lower("q6_k_m"), Some(GGUFQuantType::Q6_K_M));
    assert_eq!(GGUFQuantType::from_lower("Q6_K_M"), None);
    assert_eq!(MergeKitLoader::merge_method_from_lower("ties", &[]), Some(MergeMethodKind::Ties));
    assert_eq!(MergeKitLoader::merge_method_from_lower("TIES", &[]), None);
    assert_eq!(MergeKitLoader::dtype_from_lower("fp16"), DType::F16);
    assert!(MergeKitLoader::quant_method_from_lower("apex", &[]).is_some());
}

#[test]
fn gguf_prefix_is_aligned() {
    let kvs = vec![("general.name".to_string(), GgufValue::Text("m".to_string())), ("n".to_string(), GgufValue::UInt(7))];
    let tensors = vec![GgufTensorInfo { name: "w".to_string(), shape: vec![4], quant_type: GGUFQuantType::F16, offset: 0, size: 8 }];
    let out = encode_gguf_prefix(&kvs, &tensors);
    assert_eq!(out.len() % 32, 0);
    assert_eq!(&out[0..4], b"GGUF");
    assert_eq!(&out[8..16], &1u64.to_le_bytes());
    assert_eq!(&out[16..24], &2u64.to_le_bytes());
    let body = 24 + (8 + 12 + 4 + 8 + 1) + (8 + 1 + 4 + 8) + (8 + 1 + 4 + 8 + 4 + 8);
    assert_eq!(out.len(), (body + 31) / 32 * 32);
    assert!(out[body..].iter().all(|b| *b == 0));
}
