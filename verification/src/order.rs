//! Byte-lexicographic order of strings (the order of `String`'s `Ord`) and
//! sorted lists of distinct strings built by insertion.
use vstd::prelude::*;
use crate::text::{utf8, lemma_utf8_injective};

verus! {

/// Strict lexicographic order on byte strings.
pub open spec fn lex_lt(a: Seq<u8>, b: Seq<u8>) -> bool
    decreases a.len(),
{
    if a.len() == 0 {
        b.len() > 0
    } else if b.len() == 0 {
        false
    } else if a[0] < b[0] {
        true
    } else if a[0] > b[0] {
        false
    } else {
        lex_lt(a.drop_first(), b.drop_first())
    }
}

/// Strict order of strings by their UTF-8 bytes.
pub open spec fn str_lt(a: Seq<char>, b: Seq<char>) -> bool {
    lex_lt(utf8(a), utf8(b))
}

/// Strictly increasing strings.
pub open spec fn strictly_sorted(s: Seq<String>) -> bool {
    forall|i: int, j: int| 0 <= i < j < s.len() ==> str_lt(#[trigger] s[i]@, #[trigger] s[j]@)
}

/// `s` holds a string with view `x`.
pub open spec fn has_str(s: Seq<String>, x: Seq<char>) -> bool {
    exists|i: int| 0 <= i < s.len() && #[trigger] s[i]@ == x
}

pub proof fn lemma_lex_irrefl(a: Seq<u8>)
    ensures
        !lex_lt(a, a),
    decreases a.len(),
{
    if a.len() > 0 {
        lemma_lex_irrefl(a.drop_first());
    }
}

pub proof fn lemma_lex_trans(a: Seq<u8>, b: Seq<u8>, c: Seq<u8>)
    requires
        lex_lt(a, b),
        lex_lt(b, c),
    ensures
        lex_lt(a, c),
    decreases a.len(),
{
    if a.len() > 0 && b.len() > 0 && c.len() > 0 && a[0] == b[0] && b[0] == c[0] {
        lemma_lex_trans(a.drop_first(), b.drop_first(), c.drop_first());
    }
}

pub proof fn lemma_lex_total(a: Seq<u8>, b: Seq<u8>)
    ensures
        lex_lt(a, b) || lex_lt(b, a) || a == b,
    decreases a.len(),
{
    if a.len() > 0 && b.len() > 0 && a[0] == b[0] {
        lemma_lex_total(a.drop_first(), b.drop_first());
        if a.drop_first() == b.drop_first() {
            assert(a =~= seq![a[0]] + a.drop_first());
            assert(b =~= seq![b[0]] + b.drop_first());
        }
    } else if a.len() == 0 && b.len() == 0 {
        assert(a =~= b);
    }
}

pub proof fn lemma_lex_asym(a: Seq<u8>, b: Seq<u8>)
    requires
        lex_lt(a, b),
    ensures
        !lex_lt(b, a),
        a != b,
{
    if lex_lt(b, a) {
        lemma_lex_trans(a, b, a);
        lemma_lex_irrefl(a);
    }
    lemma_lex_irrefl(a);
}

/// Strict lexicographic comparison of byte strings.
pub fn lex_less(a: &[u8], b: &[u8]) -> (r: bool)
    ensures
        r == lex_lt(a@, b@),
{
    let mut i: usize = 0;
    while i < a.len() && i < b.len() && a[i] == b[i]
        invariant
            i <= a.len(),
            i <= b.len(),
            a@.subrange(0, i as int) == b@.subrange(0, i as int),
        decreases a.len() - i,
    {
        assert(a@.subrange(0, i + 1) =~= a@.subrange(0, i as int).push(a@[i as int]));
        assert(b@.subrange(0, i + 1) =~= b@.subrange(0, i as int).push(b@[i as int]));
        i = i + 1;
    }
    proof {
        lemma_lex_suffix(a@, b@, i as int);
    }
    if i == a.len() {
        i < b.len()
    } else if i == b.len() {
        false
    } else {
        a[i] < b[i]
    }
}

/// After a common prefix of length `i`, the order is decided by the rest.
proof fn lemma_lex_suffix(a: Seq<u8>, b: Seq<u8>, i: int)
    requires
        0 <= i <= a.len(),
        i <= b.len(),
        a.subrange(0, i) == b.subrange(0, i),
    ensures
        lex_lt(a, b) == lex_lt(a.subrange(i, a.len() as int), b.subrange(i, b.len() as int)),
    decreases i,
{
    if i > 0 {
        assert(a[0] == a.subrange(0, i)[0]);
        assert(b[0] == b.subrange(0, i)[0]);
        assert(a.drop_first().subrange(0, i - 1) =~= a.subrange(0, i).drop_first());
        assert(b.drop_first().subrange(0, i - 1) =~= b.subrange(0, i).drop_first());
        lemma_lex_suffix(a.drop_first(), b.drop_first(), i - 1);
        assert(a.drop_first().subrange(i - 1, a.len() - 1) =~= a.subrange(i, a.len() as int));
        assert(b.drop_first().subrange(i - 1, b.len() - 1) =~= b.subrange(i, b.len() as int));
    } else {
        assert(a.subrange(0, a.len() as int) =~= a);
        assert(b.subrange(0, b.len() as int) =~= b);
    }
}

/// Strict order of two strings by their bytes.
pub fn str_less(a: &str, b: &str) -> (r: bool)
    ensures
        r == str_lt(a@, b@),
{
    lex_less(a.as_bytes(), b.as_bytes())
}

/// The string order is a strict total order on string views.
pub proof fn lemma_str_order(a: Seq<char>, b: Seq<char>, c: Seq<char>)
    ensures
        !str_lt(a, a),
        str_lt(a, b) && str_lt(b, c) ==> str_lt(a, c),
        str_lt(a, b) || str_lt(b, a) || a == b,
        str_lt(a, b) ==> !str_lt(b, a),
{
    lemma_lex_irrefl(utf8(a));
    if str_lt(a, b) && str_lt(b, c) {
        lemma_lex_trans(utf8(a), utf8(b), utf8(c));
    }
    lemma_lex_total(utf8(a), utf8(b));
    if utf8(a) == utf8(b) {
        lemma_utf8_injective(a, b);
    }
    if str_lt(a, b) {
        lemma_lex_asym(utf8(a), utf8(b));
    }
}

/// Inserts a copy of `x` into a strictly sorted list unless it is there.
pub fn insert_sorted(v: &mut Vec<String>, x: &String)
    requires
        strictly_sorted(old(v)@),
    ensures
        strictly_sorted(final(v)@),
        forall|s: Seq<char>| has_str(final(v)@, s) <==> (has_str(old(v)@, s) || s == x@),
{
    let mut i: usize = 0;
    while i < v.len()
        invariant
            i <= v.len(),
            v@ == old(v)@,
            strictly_sorted(v@),
            forall|k: int| 0 <= k < i ==> str_lt(#[trigger] v@[k]@, x@),
        decreases v.len() - i,
    {
        let here: &String = &v[i];
        if *here == *x {
            proof {
                assert forall|s: Seq<char>| has_str(v@, s) <==> (has_str(v@, s) || s == x@) by {
                    if s == x@ {
                        assert(v@[i as int]@ == s);
                    }
                }
            }
            return;
        }
        if str_less(x.as_str(), here.as_str()) {
            let ghost before = v@;
            v.insert(i, x.clone());
            proof {
                assert forall|a: int, b: int| 0 <= a < b < v@.len() implies str_lt(
                    #[trigger] v@[a]@,
                    #[trigger] v@[b]@,
                ) by {
                    if b < i {
                        assert(v@[a] == before[a] && v@[b] == before[b]);
                    } else if b == i {
                        assert(v@[a] == before[a]);
                    } else if a == i {
                        assert(v@[b] == before[b - 1]);
                        if b - 1 > i {
                            lemma_str_order(x@, before[i as int]@, before[b - 1]@);
                        }
                    } else if a < i {
                        assert(v@[a] == before[a] && v@[b] == before[b - 1]);
                    } else {
                        assert(v@[a] == before[a - 1] && v@[b] == before[b - 1]);
                    }
                }
                assert forall|s: Seq<char>| has_str(v@, s) <==> (has_str(before, s) || s == x@) by {
                    if has_str(v@, s) {
                        let k = choose|k: int| 0 <= k < v@.len() && #[trigger] v@[k]@ == s;
                        if k < i {
                            assert(before[k]@ == s);
                        } else if k > i {
                            assert(before[k - 1]@ == s);
                        }
                    }
                    if has_str(before, s) {
                        let k = choose|k: int| 0 <= k < before.len() && #[trigger] before[k]@ == s;
                        if k < i {
                            assert(v@[k]@ == s);
                        } else {
                            assert(v@[k + 1]@ == s);
                        }
                    }
                    if s == x@ {
                        assert(v@[i as int]@ == s);
                    }
                }
            }
            return;
        }
        proof {
            lemma_str_order(v@[i as int]@, x@, x@);
            if v@[i as int]@ == x@ {
                assert(false);
            }
        }
        i = i + 1;
    }
    let ghost before = v@;
    v.push(x.clone());
    proof {
        assert forall|a: int, b: int| 0 <= a < b < v@.len() implies str_lt(
            #[trigger] v@[a]@,
            #[trigger] v@[b]@,
        ) by {
            if b < before.len() {
                assert(v@[a] == before[a] && v@[b] == before[b]);
            } else {
                assert(v@[a] == before[a]);
            }
        }
        assert forall|s: Seq<char>| has_str(v@, s) <==> (has_str(before, s) || s == x@) by {
            if has_str(v@, s) {
                let k = choose|k: int| 0 <= k < v@.len() && #[trigger] v@[k]@ == s;
                if k < before.len() {
                    assert(before[k]@ == s);
                }
            }
            if has_str(before, s) {
                let k = choose|k: int| 0 <= k < before.len() && #[trigger] before[k]@ == s;
                assert(v@[k]@ == s);
            }
            if s == x@ {
                assert(v@[before.len() as int]@ == s);
            }
        }
    }
}

/// The distinct strings of all lists, in increasing byte order.
pub fn sorted_union(lists: &[Vec<String>]) -> (r: Vec<String>)
    ensures
        strictly_sorted(r@),
        forall|s: Seq<char>|
            has_str(r@, s) <==> exists|i: int| 0 <= i < lists@.len() && has_str(#[trigger] lists@[i]@, s),
{
    let mut out: Vec<String> = Vec::new();
    let mut i: usize = 0;
    while i < lists.len()
        invariant
            i <= lists.len(),
            strictly_sorted(out@),
            forall|s: Seq<char>|
                has_str(out@, s) <==> exists|t: int| 0 <= t < i && has_str(#[trigger] lists@[t]@, s),
        decreases lists.len() - i,
    {
        let list = &lists[i];
        let mut j: usize = 0;
        while j < list.len()
            invariant
                i < lists.len(),
                list@ == lists@[i as int]@,
                j <= list.len(),
                strictly_sorted(out@),
                forall|s: Seq<char>|
                    has_str(out@, s) <==> ((exists|t: int| 0 <= t < i && has_str(#[trigger] lists@[t]@, s))
                        || has_str(list@.subrange(0, j as int), s)),
            decreases list.len() - j,
        {
            insert_sorted(&mut out, &list[j]);
            proof {
                assert forall|s: Seq<char>| has_str(list@.subrange(0, j + 1), s) <==> (has_str(
                    list@.subrange(0, j as int),
                    s,
                ) || s == list@[j as int]@) by {
                    if has_str(list@.subrange(0, j + 1), s) {
                        let k = choose|k: int| 0 <= k < j + 1 && #[trigger] list@.subrange(0, j + 1)[k]@ == s;
                        if k < j {
                            assert(list@.subrange(0, j as int)[k]@ == s);
                        }
                    }
                    if has_str(list@.subrange(0, j as int), s) {
                        let k = choose|k: int| 0 <= k < j && #[trigger] list@.subrange(0, j as int)[k]@ == s;
                        assert(list@.subrange(0, j + 1)[k]@ == s);
                    }
                    if s == list@[j as int]@ {
                        assert(list@.subrange(0, j + 1)[j as int]@ == s);
                    }
                }
            }
            j = j + 1;
        }
        proof {
            assert(list@.subrange(0, j as int) =~= list@);
            assert forall|s: Seq<char>| has_str(out@, s) <==> exists|t: int|
                0 <= t < i + 1 && has_str(#[trigger] lists@[t]@, s) by {
                if has_str(lists@[i as int]@, s) {
                    assert(0 <= i < i + 1);
                }
                if exists|t: int| 0 <= t < i + 1 && has_str(#[trigger] lists@[t]@, s) {
                    let t = choose|t: int| 0 <= t < i + 1 && has_str(#[trigger] lists@[t]@, s);
                    if t < i {
                        assert(exists|t: int| 0 <= t < i && has_str(#[trigger] lists@[t]@, s));
                    }
                }
            }
        }
        i = i + 1;
    }
    out
}

} // verus!
