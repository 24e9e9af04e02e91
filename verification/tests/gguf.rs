use forge::gguf::{
    alignment_padding, exact_gguf_size, is_passthrough_tensor, plan_tensor_infos, write_header, write_kv,
    write_tensor_info, GGUFQuantType, GgufReader, GgufTensorInfo, GgufValue,
};

#[test]
fn test_gguf_quant_types() {
    assert_eq!(GGUFQuantType::Q4_K_M.bits_per_weight(), 4);
    assert_eq!(GGUFQuantType::Q8_0.bits_per_weight(), 8);
    assert_eq!(GGUFQuantType::Q4_K_M.to_gguf_id(), 11);
    assert_eq!(GGUFQuantType::Q8_0.to_gguf_id(), 7);
}

#[test]
fn gguf_sizes_are_exact() {
    assert_eq!(exact_gguf_size(100, GGUFQuantType::Q8_0), 4 * 34);
    assert_eq!(exact_gguf_size(1, GGUFQuantType::Q8_0), 34);
    assert_eq!(exact_gguf_size(32, GGUFQuantType::Q8_0), 34);
    assert_eq!(exact_gguf_size(33, GGUFQuantType::Q8_0), 68);
    assert_eq!(exact_gguf_size(10, GGUFQuantType::BF16), 20);
    assert_eq!(exact_gguf_size(10, GGUFQuantType::F32), 40);
    assert_eq!(exact_gguf_size(3, GGUFQuantType::Q5_K_S), 2);
    assert_eq!(exact_gguf_size(1000, GGUFQuantType::Q6_K), 750);
    assert_eq!(exact_gguf_size(u64::MAX, GGUFQuantType::Q4_K), u64::MAX / 2 + 1);
}

#[test]
fn quant_type_names_roundtrip() {
    for t in [
        GGUFQuantType::Q4_K,
        GGUFQuantType::Q4_K_M,
        GGUFQuantType::Q4_K_S,
        GGUFQuantType::Q5_K,
        GGUFQuantType::Q5_K_M,
        GGUFQuantType::Q5_K_S,
        GGUFQuantType::Q6_K,
        GGUFQuantType::Q6_K_M,
        GGUFQuantType::Q8_0,
        GGUFQuantType::F16,
        GGUFQuantType::BF16,
        GGUFQuantType::F32,
    ] {
        assert_eq!(GGUFQuantType::from_str(t.name()), Some(t));
    }
    assert_eq!(GGUFQuantType::from_str("q4_k_m"), Some(GGUFQuantType::Q4_K_M));
    assert_eq!(GGUFQuantType::from_str("q4_0"), None);
    assert_eq!(GGUFQuantType::BF16.to_gguf_id(), 9);
}

#[test]
fn gguf_plan_keeps_norms_f16_and_packs_offsets() {
    let names = vec!["model.embed_tokens".to_string(), "layers.0.q_proj".to_string(), "model.Norm".to_string()];
    let shapes = vec![vec![10, 4], vec![32, 2], vec![3]];
    assert!(is_passthrough_tensor("model.Norm"));
    assert!(is_passthrough_tensor("proj.BIAS"));
    assert!(!is_passthrough_tensor("layers.0.q_proj"));
    let plan = plan_tensor_infos(&names, &shapes, GGUFQuantType::Q8_0);
    assert_eq!(plan.len(), 3);
    assert_eq!(plan[0].quant_type, GGUFQuantType::F16);
    assert_eq!((plan[0].offset, plan[0].size), (0, 80));
    assert_eq!(plan[1].quant_type, GGUFQuantType::Q8_0);
    assert_eq!((plan[1].offset, plan[1].size), (80, 68));
    assert_eq!((plan[2].offset, plan[2].size), (148, 6));
    assert_eq!(plan[2].shape, vec![3]);
}

#[test]
fn gguf_records_little_endian() {
    let mut out = Vec::new();
    write_header(&mut out, 2, 1);
    assert_eq!(&out[0..4], b"GGUF");
    assert_eq!(&out[4..8], &3u32.to_le_bytes());
    assert_eq!(&out[8..16], &2u64.to_le_bytes());
    assert_eq!(&out[16..24], &1u64.to_le_bytes());
    let mut kv = Vec::new();
    write_kv(&mut kv, "ab", &GgufValue::Bool(true));
    assert_eq!(kv, [&2u64.to_le_bytes()[..], b"ab", &8u32.to_le_bytes(), &[1u8]].concat());
    let mut kv2 = Vec::new();
    write_kv(&mut kv2, "x", &GgufValue::Int(-2));
    assert_eq!(kv2, [&1u64.to_le_bytes()[..], b"x", &6u32.to_le_bytes(), &(-2i64).to_le_bytes()].concat());
    let mut kv3 = Vec::new();
    write_kv(&mut kv3, "s", &GgufValue::Text("hi".to_string()));
    assert_eq!(kv3, [&1u64.to_le_bytes()[..], b"s", &4u32.to_le_bytes(), &2u64.to_le_bytes(), b"hi"].concat());
    let mut kv4 = Vec::new();
    write_kv(&mut kv4, "f", &GgufValue::Float(1.5f64.to_bits()));
    assert_eq!(kv4, [&1u64.to_le_bytes()[..], b"f", &7u32.to_le_bytes(), &1.5f64.to_le_bytes()].concat());
    let t = GgufTensorInfo {
        name: "w".to_string(),
        shape: vec![2, 3],
        quant_type: GGUFQuantType::F32,
        offset: 0x0102,
        size: 24,
    };
    let mut ti = Vec::new();
    write_tensor_info(&mut ti, &t);
    let expect = [
        &1u64.to_le_bytes()[..],
        b"w",
        &2u32.to_le_bytes(),
        &2u64.to_le_bytes(),
        &3u64.to_le_bytes(),
        &0u32.to_le_bytes(),
        &0x0102u64.to_le_bytes(),
    ]
    .concat();
    assert_eq!(ti, expect);
    assert_eq!(alignment_padding(0), 0);
    assert_eq!(alignment_padding(33), 31);
    assert_eq!(alignment_padding(64), 0);
    assert!(GgufReader::open("missing.gguf").is_ok());
}
