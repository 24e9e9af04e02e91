use forge::order::sorted_union;
use forge::slots::{plan_slots, AttachConfig, EncoderFuser, FuseError, HeteroError, HeteroMode};

fn keys_with_blocks(blocks: &[usize]) -> Vec<String> {
    blocks.iter().map(|b| format!("b{b}.attn")).collect()
}

fn default_config() -> AttachConfig {
    AttachConfig { heads: 8, dim: 0, max_pairs: 8, stride: 1 }
}

#[test]
fn attach_round_robins_over_encoders() {
    let dec = keys_with_blocks(&[0, 1, 2, 3]);
    let encs = vec![keys_with_blocks(&[0, 1]), keys_with_blocks(&[0, 1, 2])];
    let cfg = AttachConfig { max_pairs: 4, ..default_config() };
    let plan = EncoderFuser::attach(&dec, &encs, &cfg).ok().unwrap();
    assert_eq!(plan.pairs.len(), 4);
    assert_eq!(plan.pairs.iter().map(|p| p.encoder_idx).collect::<Vec<_>>(), vec![0, 1, 0, 1]);
    assert_eq!(plan.pairs.iter().map(|p| p.decoder_block).collect::<Vec<_>>(), vec![0, 1, 2, 3]);
}

#[test]
fn attach_preserves_depth_ordering_across_depths() {
    let dec = keys_with_blocks(&[0, 10, 20, 30]);
    let encs = vec![keys_with_blocks(&[0, 1, 2])];
    let plan = EncoderFuser::attach(&dec, &encs, &default_config()).ok().unwrap();
    let ebs: Vec<usize> = plan.pairs.iter().map(|p| p.encoder_block).collect();
    assert_eq!(ebs, vec![0, 2, 2, 2]);
}

#[test]
fn attach_rejects_empty_encoders_and_blockless_decoder() {
    let dec = keys_with_blocks(&[0]);
    assert!(EncoderFuser::attach(&dec, &[], &default_config()).is_err());
    let empty: Vec<String> = Vec::new();
    let encs = vec![keys_with_blocks(&[0])];
    assert!(EncoderFuser::attach(&empty, &encs, &default_config()).is_err());
    assert!(EncoderFuser::attach(&dec, &encs, &AttachConfig { heads: 0, ..default_config() }).is_err());
}

#[test]
fn stride_and_max_pairs_bound_plan() {
    let dec = keys_with_blocks(&[0, 1, 2, 3, 4, 5]);
    let encs = vec![keys_with_blocks(&[0, 1])];
    let plan = EncoderFuser::attach(&dec, &encs, &AttachConfig { stride: 2, max_pairs: 2, ..default_config() })
        .ok()
        .unwrap();
    assert_eq!(plan.pairs.iter().map(|p| p.decoder_block).collect::<Vec<_>>(), vec![0, 2]);
}

#[test]
fn attach_errors_name_their_cause() {
    let dec = keys_with_blocks(&[0, 1]);
    let encs = vec![keys_with_blocks(&[0]), vec!["global.embed".to_string()]];
    assert_eq!(EncoderFuser::attach(&dec, &[], &default_config()).err(), Some(FuseError::NoEncoders));
    assert_eq!(
        EncoderFuser::attach(&dec, &encs, &AttachConfig { heads: 0, ..default_config() }).err(),
        Some(FuseError::ZeroHeads)
    );
    assert_eq!(
        EncoderFuser::attach(&dec, &encs, &AttachConfig { stride: 0, ..default_config() }).err(),
        Some(FuseError::ZeroStride)
    );
    assert_eq!(
        EncoderFuser::attach(&["lm_head".to_string()], &encs, &default_config()).err(),
        Some(FuseError::DecoderWithoutBlocks)
    );
    assert_eq!(EncoderFuser::attach(&dec, &encs, &default_config()).err(), Some(FuseError::EncoderWithoutBlocks(1)));
    let plan = EncoderFuser::attach(&dec, &encs[..1], &AttachConfig { heads: 4, dim: 64, ..default_config() })
        .ok()
        .unwrap();
    assert_eq!((plan.heads, plan.dim), (4, 64));
}

#[test]
fn block_ordinals_parse_b_keys() {
    let keys: Vec<String> = ["b3.attn", "b1.mlp", "b3.mlp", "global.lm_head", "b.x", "bx.y", "b+7.attn", "b12", "b 2.q"]
        .iter()
        .map(|s| s.to_string())
        .collect();
    assert_eq!(EncoderFuser::block_ordinals(&keys), vec![1, 3, 7]);
}

#[test]
fn nearest_block_prefers_deeper_on_ties() {
    assert_eq!(EncoderFuser::nearest_block(&[0, 2, 4], 3), 4);
    assert_eq!(EncoderFuser::nearest_block(&[0, 2, 4], 1), 2);
    assert_eq!(EncoderFuser::nearest_block(&[5], 100), 5);
    assert_eq!(EncoderFuser::nearest_block(&[10, 20], 0), 10);
}

#[test]
fn hetero_mode_parse_ignores_ascii_case() {
    assert_eq!(HeteroMode::parse("Union"), Ok(HeteroMode::Union));
    assert_eq!(HeteroMode::parse("INTERSECTION"), Ok(HeteroMode::Intersection));
    assert_eq!(HeteroMode::parse("intersect"), Ok(HeteroMode::Intersection));
    assert_eq!(HeteroMode::parse("Both"), Err(HeteroError::UnknownMode(b"both".to_vec())));
}

#[test]
fn plan_union_vs_intersection() {
    let a = vec!["b0.attn.q_proj".to_string(), "global.lm_head".to_string()];
    let b = vec!["b0.attn.q_proj".to_string()];
    let u = plan_slots(HeteroMode::Union, &[a.clone(), b.clone()]);
    assert_eq!(u.len(), 2);
    let head = u.iter().find(|s| s.slot_key == "global.lm_head").unwrap();
    assert_eq!(head.holders, vec![0]);
    let i = plan_slots(HeteroMode::Intersection, &[a, b]);
    assert_eq!(i.len(), 1);
    assert_eq!(i[0].slot_key, "b0.attn.q_proj");
    assert_eq!(i[0].holders, vec![0, 1]);
}

#[test]
fn plan_slots_sorted_by_key_bytes() {
    let a = vec!["b1.x".to_string(), "b0.y".to_string(), "B9".to_string()];
    let b = vec!["b0.y".to_string(), "b0.y".to_string()];
    let u = plan_slots(HeteroMode::Union, &[a, b]);
    let keys: Vec<&str> = u.iter().map(|s| s.slot_key.as_str()).collect();
    assert_eq!(keys, vec!["B9", "b0.y", "b1.x"]);
    assert_eq!(u[1].holders, vec![0, 1]);
    assert!(plan_slots(HeteroMode::Intersection, &[]).is_empty());
}

#[test]
fn sorted_union_dedups_names() {
    let lists = vec![
        vec!["z".to_string(), "a".to_string()],
        vec!["m".to_string(), "a".to_string(), "ab".to_string()],
    ];
    assert_eq!(sorted_union(&lists), vec!["a", "ab", "m", "z"]);
}
