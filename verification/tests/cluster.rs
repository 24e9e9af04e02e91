use forge::distributed::{shard_bounds, NodeRole, ShardTable};
use forge::fusion::{condition_applies, match_condition, BlendMode, ConditionSpec};

#[test]
fn shard_owners_round_robin() {
    let mut t = ShardTable::new();
    let nodes = vec!["n0".to_string(), "n1".to_string()];
    t.assign_shards(&["a".to_string(), "b".to_string()], &nodes, 3);
    assert_eq!(t.get_shard_owner("a", 0), Some("n0".to_string()));
    assert_eq!(t.get_shard_owner("a", 1), Some("n1".to_string()));
    assert_eq!(t.get_shard_owner("b", 2), Some("n0".to_string()));
    assert_eq!(t.get_shard_owner("b", 3), None);
    assert_eq!(t.get_shard_owner("c", 0), None);
    // Reassigning replaces; an empty cluster changes nothing.
    t.assign_shards(&["a".to_string()], &["z".to_string()], 1);
    assert_eq!(t.get_shard_owner("a", 0), Some("z".to_string()));
    assert_eq!(t.get_shard_owner("a", 1), None);
    assert_eq!(t.get_shard_owner("b", 1), Some("n1".to_string()));
    t.assign_shards(&["b".to_string()], &[], 5);
    assert_eq!(t.get_shard_owner("b", 1), Some("n1".to_string()));
    let role = NodeRole::Worker { shard_ids: vec![1, 2] };
    assert!(matches!(role, NodeRole::Worker { .. }));
}

#[test]
fn shard_bounds_cut_in_four() {
    assert_eq!(shard_bounds(10, 0), (0, 2));
    assert_eq!(shard_bounds(10, 3), (6, 8));
    assert_eq!(shard_bounds(10, 5), (10, 10));
    assert_eq!(shard_bounds(10, 6), (12, 10));
}

#[test]
fn fusion_conditions_first_match_wins() {
    let conds = vec![
        ConditionSpec { pattern: r"mlp\.(up|down)_proj".to_string(), layer_range: Some((0, 4)) },
        ConditionSpec { pattern: "attn".to_string(), layer_range: None },
        ConditionSpec { pattern: "q_proj(".to_string(), layer_range: None },
    ];
    assert_eq!(match_condition(&conds, "layers.2.mlp.up_proj", Some(2)), Some(0));
    // Outside the layer range: the next condition is tried.
    assert_eq!(match_condition(&conds, "layers.9.mlp.up_proj", Some(9)), None);
    assert_eq!(match_condition(&conds, "layers.9.self_attn.k", Some(9)), Some(1));
    // An invalid expression falls back to substring matching.
    assert_eq!(match_condition(&conds, "x.q_proj(weight)", None), Some(2));
    assert_eq!(match_condition(&conds, "x.q_proj.weight", None), None);
    // No layer index: the range is not checked.
    assert_eq!(match_condition(&conds, "mlp.down_proj", None), Some(0));
    assert!(condition_applies(Some(true), false, Some((1, 3)), Some(2)));
    assert!(!condition_applies(Some(true), true, Some((1, 3)), Some(3)));
    assert!(condition_applies(None, true, None, None));
    assert!(!condition_applies(Some(false), true, None, None));
    assert_ne!(BlendMode::Linear, BlendMode::MaxMag);
}
