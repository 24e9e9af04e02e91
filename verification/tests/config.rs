use forge::merge_config::{
    default_dtype, dtype_to_string, merge_method_to_string, quant_method_to_string, slice_layer_range, ConfigError,
    DType, MergeKitLoader, MergeMethodKind, Param, ParamValue, QuantMethodKind,
};
use forge::quant_config::JangFormat;

fn uint(key: &str, v: u64) -> Param {
    Param { key: key.to_string(), value: ParamValue::UInt(v) }
}

fn text(key: &str, v: &str) -> Param {
    Param { key: key.to_string(), value: ParamValue::Text(v.to_string()) }
}

#[test]
fn merge_method_names_and_aliases() {
    let none: Vec<Param> = Vec::new();
    assert_eq!(MergeKitLoader::parse_merge_method("Linear", &none), Ok(MergeMethodKind::Linear));
    assert_eq!(MergeKitLoader::parse_merge_method("multi-slerp", &none), Ok(MergeMethodKind::MultiSlerp));
    assert_eq!(MergeKitLoader::parse_merge_method("DARE_TIES", &none), Ok(MergeMethodKind::DareTies));
    assert_eq!(MergeKitLoader::parse_merge_method("model-stock", &none), Ok(MergeMethodKind::ModelStock));
    assert_eq!(MergeKitLoader::parse_merge_method("Arcee-Fusion", &none), Ok(MergeMethodKind::ArceeFusion));
    assert_eq!(
        MergeKitLoader::parse_merge_method("fusion", &none),
        Err(ConfigError::UnknownMergeMethod("fusion".to_string()))
    );
    assert_eq!(
        MergeKitLoader::parse_merge_method("Foo", &none),
        Err(ConfigError::UnknownMergeMethod("Foo".to_string()))
    );
}

#[test]
fn merge_method_integer_parameters() {
    let none: Vec<Param> = Vec::new();
    assert_eq!(
        MergeKitLoader::parse_merge_method("karcher_mean", &none),
        Ok(MergeMethodKind::Karcher { max_iter: 20 })
    );
    assert_eq!(
        MergeKitLoader::parse_merge_method("darwin", &[uint("population", 7), text("generations", "many")]),
        Ok(MergeMethodKind::Darwin { generations: 30, population: 7 })
    );
    assert_eq!(
        MergeKitLoader::parse_merge_method("ram", &[uint("seed", 1), uint("seed", 2)]),
        Ok(MergeMethodKind::Ram { seed: 1 })
    );
    assert_eq!(
        MergeKitLoader::parse_merge_method("FrankenMoE", &[uint("middle_experts", 16)]),
        Ok(MergeMethodKind::FrankenMoE { bottom_layers: 4, middle_experts: 16, top_layers: 2 })
    );
}

#[test]
fn merge_method_name_roundtrip() {
    let none: Vec<Param> = Vec::new();
    for m in [
        MergeMethodKind::Linear,
        MergeMethodKind::Slerp,
        MergeMethodKind::NuSlerp,
        MergeMethodKind::MultiSlerp,
        MergeMethodKind::TaskArithmetic,
        MergeMethodKind::Ties,
        MergeMethodKind::Dare,
        MergeMethodKind::DareTies,
        MergeMethodKind::DellaLinear,
        MergeMethodKind::Della,
        MergeMethodKind::Passthrough,
        MergeMethodKind::FrankenMerge,
        MergeMethodKind::ModelStock,
        MergeMethodKind::Breadcrumbs,
        MergeMethodKind::BreadcrumbsTies,
        MergeMethodKind::Sce,
        MergeMethodKind::ArceeFusion,
        MergeMethodKind::Nearswap,
    ] {
        assert_eq!(MergeKitLoader::parse_merge_method(&merge_method_to_string(&m), &none), Ok(m));
    }
    assert_eq!(merge_method_to_string(&MergeMethodKind::Karcher { max_iter: 3 }), "karcher");
    assert_eq!(merge_method_to_string(&MergeMethodKind::MoeDenseDistill), "moe_dense_distill");
}

#[test]
fn dtype_names() {
    assert_eq!(MergeKitLoader::parse_dtype("FP32"), DType::F32);
    assert_eq!(MergeKitLoader::parse_dtype("half"), DType::F16);
    assert_eq!(MergeKitLoader::parse_dtype("bf16"), DType::BF16);
    assert_eq!(MergeKitLoader::parse_dtype("int8"), DType::BF16);
    for d in [DType::F32, DType::F16, DType::BF16] {
        assert_eq!(MergeKitLoader::parse_dtype(&dtype_to_string(d)), d);
    }
    assert_eq!(default_dtype(), "bfloat16");
    assert_eq!(slice_layer_range(None), (0, usize::MAX));
    assert_eq!(slice_layer_range(Some((2, 5))), (2, 5));
}

#[test]
fn quant_methods_with_settings() {
    match MergeKitLoader::parse_quant_method("JANG", &[text("output_format", "gguf")]) {
        Ok(QuantMethodKind::Jang { profile, output_format }) => {
            assert_eq!(profile, "JANG_2L");
            assert_eq!(output_format, JangFormat::Gguf);
        }
        _ => panic!("expected jang"),
    }
    match MergeKitLoader::parse_quant_method("apex", &[text("tier", "mini")]) {
        Ok(QuantMethodKind::Apex { tier }) => assert_eq!(tier, "mini"),
        _ => panic!("expected apex"),
    }
    let layers = ParamValue::LayerBits(vec![Some(("l0".to_string(), 4)), None, Some(("l2".to_string(), 258))]);
    match MergeKitLoader::parse_quant_method("mixed", &[Param { key: "per_layer_bits".to_string(), value: layers }]) {
        Ok(QuantMethodKind::MixedPrecision { per_layer_bits }) => {
            assert_eq!(per_layer_bits, vec![("l0".to_string(), 4u8), ("l2".to_string(), 2u8)]);
        }
        _ => panic!("expected mixed"),
    }
    assert!(matches!(MergeKitLoader::parse_quant_method("Dynamic3", &[]), Ok(QuantMethodKind::Dynamic3)));
    assert!(matches!(MergeKitLoader::parse_quant_method("btl4", &[]), Ok(QuantMethodKind::Btl4Compact)));
    assert_eq!(
        MergeKitLoader::parse_quant_method("gptq", &[]).err(),
        Some(ConfigError::UnknownQuantMethod("gptq".to_string()))
    );
    assert_eq!(quant_method_to_string(&QuantMethodKind::Bsqat { bits: 4, block: 16 }), "bsqat");
    assert_eq!(quant_method_to_string(&QuantMethodKind::Btl4Compact), "btl4");
}
