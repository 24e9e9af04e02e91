//! Conditional fusion: which per-tensor condition of a fusion pipeline
//! applies to a tensor, by name pattern and layer range.
use vstd::prelude::*;
use crate::naming::{has, raw_has};

verus! {

/// How the outputs of several methods are blended.
#[derive(Debug, Clone, Copy, PartialEq, Eq, Structural)]
pub enum BlendMode {
    Linear,
    Slerp,
    Geometric,
    MaxMag,
    MinMag,
}

/// Pipeline steps are enabled unless configured otherwise.
pub fn default_true() -> (b: bool)
    ensures
        b,
{
    true
}

/// What `regex::Regex::new(pattern)` followed by `is_match(text)` gives:
/// `None` when the pattern does not compile, else whether it matches
/// somewhere in the text.
pub uninterp spec fn regex_search(pattern: Seq<char>, text: Seq<char>) -> Option<bool>;

/// Compiles `pattern` with `regex::Regex::new` and, when it compiles, tests
/// it with `Regex::is_match` on `text`. Trusted: the outcome is the named
/// function of the two strings (compilation and matching are deterministic
/// in the pattern and the text).
#[verifier::external_body]
fn regex_match(pattern: &str, text: &str) -> (r: Option<bool>)
    ensures
        r == regex_search(pattern@, text@),
{
    match regex::Regex::new(pattern) {
        Ok(re) => Some(re.is_match(text)),
        Err(_) => None,
    }
}

/// Name pattern and layer range of one fusion condition.
#[derive(Debug, Clone)]
pub struct ConditionSpec {
    /// A regular expression over tensor names (used as a plain substring when
    /// it is not a valid expression).
    pub pattern: String,
    /// Half-open range of layers the condition covers.
    pub layer_range: Option<(usize, usize)>,
}

/// A condition applies when the name matches (by the expression, or by
/// substring when the expression is invalid) and, if it has a layer range
/// and the tensor has a layer, the layer lies in the range.
pub open spec fn applies_spec(
    search: Option<bool>,
    contains: bool,
    layer_range: Option<(usize, usize)>,
    layer_idx: Option<usize>,
) -> bool {
    let name_ok = match search {
        Some(m) => m,
        None => contains,
    };
    name_ok && match (layer_range, layer_idx) {
        (Some((start, end)), Some(i)) => start <= i && i < end,
        _ => true,
    }
}

/// Does a condition apply, given the expression search result for the name
/// and whether the name contains the pattern as a substring?
pub fn condition_applies(
    search: Option<bool>,
    contains: bool,
    layer_range: Option<(usize, usize)>,
    layer_idx: Option<usize>,
) -> (r: bool)
    ensures
        r == applies_spec(search, contains, layer_range, layer_idx),
{
    let name_ok = match search {
        Some(m) => m,
        None => contains,
    };
    if !name_ok {
        return false;
    }
    match layer_range {
        Some((start, end)) => match layer_idx {
            Some(i) => !(i < start || i >= end),
            None => true,
        },
        None => true,
    }
}

/// Condition `i` applies to the tensor.
pub open spec fn condition_holds(c: ConditionSpec, name: Seq<char>, layer_idx: Option<usize>) -> bool {
    applies_spec(regex_search(c.pattern@, name), raw_has(name, c.pattern@), c.layer_range, layer_idx)
}

/// Index of the first condition that applies to the tensor.
pub fn match_condition(conditions: &[ConditionSpec], name: &str, layer_idx: Option<usize>) -> (r: Option<usize>)
    ensures
        match r {
            Some(i) => i < conditions@.len() && condition_holds(conditions@[i as int], name@, layer_idx)
                && forall|k: int| 0 <= k < i ==> !condition_holds(#[trigger] conditions@[k], name@, layer_idx),
            None => forall|k: int| 0 <= k < conditions@.len() ==> !condition_holds(#[trigger] conditions@[k], name@, layer_idx),
        },
{
    let mut i: usize = 0;
    while i < conditions.len()
        invariant
            i <= conditions.len(),
            forall|k: int| 0 <= k < i ==> !condition_holds(#[trigger] conditions@[k], name@, layer_idx),
        decreases conditions.len() - i,
    {
        let c = &conditions[i];
        let search = regex_match(c.pattern.as_str(), name);
        let plain = has(name, c.pattern.as_str());
        if condition_applies(search, plain, c.layer_range, layer_idx) {
            return Some(i);
        }
        i = i + 1;
    }
    None
}

} // verus!
