use forge::order::{lex_less, str_less};
use forge::frankenmoe::is_shared_expert_tensor;
use forge::gguf::GGUFQuantType;
use forge::text::{ascii_lowercase, contains, ends_with, find, parse_usize, starts_with, str_eq};

#[test]
fn byte_matching_and_parsing() {
    assert_eq!(find(b"abcabc", b"ca"), Some(2));
    assert_eq!(find(b"abc", b"abcd"), None);
    assert!(contains(b"layers.1", b"s.1"));
    assert!(starts_with(b"i_quality", b"i_"));
    assert!(ends_with(b"x.bias", b".bias"));
    assert_eq!(parse_usize(b"+42"), Some(42));
    assert_eq!(parse_usize(b"18446744073709551615"), Some(usize::MAX));
    assert_eq!(parse_usize(b"18446744073709551616"), None);
    assert_eq!(parse_usize(b""), None);
    assert_eq!(parse_usize(b"-1"), None);
    assert_eq!(ascii_lowercase(b"AbC-9"), b"abc-9".to_vec());
    assert!(str_eq("q4", "q4"));
    assert!(!str_eq("q4", "Q4"));
}

#[test]
fn parsers_see_lowercased_names() {
    // Both answers need the lowercased name, not the one given.
    assert_eq!(GGUFQuantType::from_str("Q4_K_M"), Some(GGUFQuantType::Q4_K_M));
    assert!(is_shared_expert_tensor("model.layers.0.mlp.SHARED_EXPERT.up_proj"));
    assert!(!is_shared_expert_tensor("model.layers.0.mlp.experts.0.up_proj"));
}

#[test]
fn byte_order_of_strings() {
    assert!(lex_less(b"ab", b"b"));
    assert!(lex_less(b"a", b"ab"));
    assert!(!lex_less(b"ab", b"ab"));
    assert!(str_less("B", "a"));
    assert!(!str_less("b", "B"));
}

