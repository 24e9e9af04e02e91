//! Byte-level string matching and parsing over UTF-8 names.
//!
//! Tensor and slot names are matched on their UTF-8 bytes, exactly as `str`
//! matching does: a `&str` pattern occurs in a `&str` haystack iff its bytes
//! occur in the haystack's bytes.
use vstd::prelude::*;
use vstd::utf8::*;

verus! {

// ---------------------------------------------------------------------------
// Specifications
// ---------------------------------------------------------------------------

/// UTF-8 bytes of a character sequence.
pub open spec fn utf8(s: Seq<char>) -> Seq<u8> {
    encode_utf8(s)
}

/// `p` occurs in `h` starting at byte `i`.
pub open spec fn matches_at(h: Seq<u8>, p: Seq<u8>, i: int) -> bool {
    &&& 0 <= i
    &&& i + p.len() <= h.len()
    &&& h.subrange(i, i + p.len()) == p
}

/// `p` occurs somewhere in `h`.
pub open spec fn has_sub(h: Seq<u8>, p: Seq<u8>) -> bool {
    exists|i: int| matches_at(h, p, i)
}

/// First occurrence of `p` in `h` at or after `i`.
pub open spec fn find_from(h: Seq<u8>, p: Seq<u8>, i: int) -> Option<int>
    decreases h.len() + 1 - i,
{
    if i < 0 || i + p.len() > h.len() {
        None
    } else if matches_at(h, p, i) {
        Some(i)
    } else {
        find_from(h, p, i + 1)
    }
}

/// First occurrence of `p` in `h`.
pub open spec fn find_first(h: Seq<u8>, p: Seq<u8>) -> Option<int> {
    find_from(h, p, 0)
}

/// `h` starts with `p`.
pub open spec fn has_prefix(h: Seq<u8>, p: Seq<u8>) -> bool {
    p.len() <= h.len() && h.subrange(0, p.len() as int) == p
}

/// `h` ends with `p`.
pub open spec fn has_suffix(h: Seq<u8>, p: Seq<u8>) -> bool {
    p.len() <= h.len() && h.subrange(h.len() - p.len(), h.len() as int) == p
}

/// ASCII digit byte.
pub open spec fn is_digit(b: u8) -> bool {
    48 <= b <= 57
}

/// Every byte is an ASCII digit.
pub open spec fn all_digits(s: Seq<u8>) -> bool {
    forall|i: int| 0 <= i < s.len() ==> is_digit(#[trigger] s[i])
}

/// Decimal value of a digit string (most significant digit first).
pub open spec fn digits_value(s: Seq<u8>) -> nat
    decreases s.len(),
{
    if s.len() == 0 {
        0
    } else {
        digits_value(s.drop_last()) * 10 + (s.last() - 48) as nat
    }
}

/// `usize` parsing of a decimal string: an optional `+`, then one or more
/// ASCII digits whose value fits in `usize`.
pub open spec fn parse_usize_spec(s: Seq<u8>) -> Option<nat> {
    let d = if s.len() > 0 && s[0] == 43u8 {
        s.drop_first()
    } else {
        s
    };
    if d.len() > 0 && all_digits(d) && digits_value(d) <= usize::MAX {
        Some(digits_value(d))
    } else {
        None
    }
}

/// ASCII lowercase of one byte.
pub open spec fn lower_byte(b: u8) -> u8 {
    if 65 <= b <= 90 {
        (b + 32) as u8
    } else {
        b
    }
}

/// ASCII lowercase of a byte string.
pub open spec fn ascii_lower(s: Seq<u8>) -> Seq<u8> {
    s.map_values(|b: u8| lower_byte(b))
}

/// ASCII lowercase of a character sequence.
pub open spec fn ascii_lower_chars(s: Seq<char>) -> Seq<char> {
    s.map_values(|c: char| if 'A' <= c <= 'Z' { ((c as u32) + 32) as char } else { c })
}

/// What `str::to_lowercase` returns for a string (Unicode lowercase mapping).
pub uninterp spec fn unicode_lowercase(s: Seq<char>) -> Seq<char>;

/// UTF-8 bytes of the Unicode lowercase of `s`.
pub open spec fn lower_utf8(s: Seq<char>) -> Seq<u8> {
    utf8(unicode_lowercase(s))
}

// ---------------------------------------------------------------------------
// Trusted call
// ---------------------------------------------------------------------------

/// Calls `str::to_lowercase`. Trusted: the result is the named Unicode
/// lowercase of the input; on an ASCII input, std's documented mapping sends
/// `A`..`Z` to `a`..`z` and keeps every other character.
#[verifier::external_body]
pub(crate) fn to_lowercase(s: &str) -> (r: String)
    ensures
        r@ == unicode_lowercase(s@),
        is_ascii_chars(s@) ==> r@ == ascii_lower_chars(s@),
{
    s.to_lowercase()
}

// ---------------------------------------------------------------------------
// Lemmas
// ---------------------------------------------------------------------------

/// A match found by `find_from` is a match, and nothing earlier matches.
pub proof fn lemma_find_from(h: Seq<u8>, p: Seq<u8>, i: int)
    requires
        0 <= i,
    ensures
        match find_from(h, p, i) {
            Some(k) => i <= k && matches_at(h, p, k) && forall|j: int| i <= j < k ==> !matches_at(h, p, j),
            None => forall|j: int| i <= j ==> !matches_at(h, p, j),
        },
    decreases h.len() + 1 - i,
{
    if i + p.len() > h.len() {
    } else if matches_at(h, p, i) {
    } else {
        lemma_find_from(h, p, i + 1);
    }
}

/// `has_sub` agrees with `find_first`.
pub proof fn lemma_has_sub_find(h: Seq<u8>, p: Seq<u8>)
    ensures
        has_sub(h, p) <==> find_first(h, p) is Some,
{
    lemma_find_from(h, p, 0);
    if has_sub(h, p) {
        let k = choose|k: int| matches_at(h, p, k);
        assert(matches_at(h, p, k));
    }
}

/// Appending a digit never lowers the value of a digit string.
pub proof fn lemma_digits_prefix_le(s: Seq<u8>, k: int)
    requires
        0 <= k <= s.len(),
        all_digits(s),
    ensures
        digits_value(s.take(k)) <= digits_value(s),
    decreases s.len() - k,
{
    if k < s.len() {
        lemma_digits_prefix_le(s, k + 1);
        assert(s.take(k + 1).drop_last() =~= s.take(k));
    } else {
        assert(s.take(k) =~= s);
    }
}

/// The UTF-8 encoding determines the characters.
pub proof fn lemma_utf8_injective(a: Seq<char>, b: Seq<char>)
    requires
        utf8(a) == utf8(b),
    ensures
        a == b,
{
    encode_utf8_decode_utf8(a);
    encode_utf8_decode_utf8(b);
}

// ---------------------------------------------------------------------------
// Executable helpers
// ---------------------------------------------------------------------------

/// Does `p` occur in `h` at byte `i`?
pub fn match_at(h: &[u8], p: &[u8], i: usize) -> (r: bool)
    ensures
        r == matches_at(h@, p@, i as int),
{
    if i > h.len() || p.len() > h.len() - i {
        return false;
    }
    let mut k: usize = 0;
    while k < p.len()
        invariant
            i + p.len() <= h.len(),
            k <= p.len(),
            forall|j: int| 0 <= j < k ==> h@[i + j] == p@[j],
        decreases p.len() - k,
    {
        if h[i + k] != p[k] {
            assert(h@.subrange(i as int, i + p.len())[k as int] != p@[k as int]);
            return false;
        }
        k = k + 1;
    }
    assert(h@.subrange(i as int, i + p.len()) =~= p@);
    true
}

/// First byte offset of `p` in `h` (`str::find` on the bytes).
pub fn find(h: &[u8], p: &[u8]) -> (r: Option<usize>)
    ensures
        match r {
            Some(i) => find_first(h@, p@) == Some(i as int),
            None => find_first(h@, p@) is None,
        },
{
    if p.len() > h.len() {
        return None;
    }
    let last = h.len() - p.len();
    let mut i: usize = 0;
    while i <= last
        invariant
            last == h.len() - p.len(),
            p.len() <= h.len(),
            i <= last + 1,
            find_from(h@, p@, 0) == find_from(h@, p@, i as int),
        decreases last + 1 - i,
    {
        if match_at(h, p, i) {
            return Some(i);
        }
        if i == last {
            assert(find_from(h@, p@, i as int + 1) is None);
            return None;
        }
        i = i + 1;
    }
    None
}

/// Does `p` occur in `h` (`str::contains` on the bytes)?
pub fn contains(h: &[u8], p: &[u8]) -> (r: bool)
    ensures
        r == has_sub(h@, p@),
{
    proof {
        lemma_has_sub_find(h@, p@);
    }
    find(h, p).is_some()
}

/// Does `h` start with `p`?
pub fn starts_with(h: &[u8], p: &[u8]) -> (r: bool)
    ensures
        r == has_prefix(h@, p@),
{
    if p.len() > h.len() {
        return false;
    }
    match_at(h, p, 0)
}

/// Does `h` end with `p`?
pub fn ends_with(h: &[u8], p: &[u8]) -> (r: bool)
    ensures
        r == has_suffix(h@, p@),
{
    if p.len() > h.len() {
        return false;
    }
    match_at(h, p, h.len() - p.len())
}

/// Byte-wise equality.
pub fn bytes_eq(a: &[u8], b: &[u8]) -> (r: bool)
    ensures
        r == (a@ == b@),
{
    if a.len() != b.len() {
        return false;
    }
    let r = match_at(a, b, 0);
    proof {
        if r {
            assert(a@.subrange(0, b@.len() as int) =~= a@);
        } else {
            assert(a@.subrange(0, b@.len() as int) =~= a@);
        }
    }
    r
}

/// Copy of the bytes in `h[from..to]`.
pub fn sub_bytes(h: &[u8], from: usize, to: usize) -> (r: Vec<u8>)
    requires
        from <= to <= h.len(),
    ensures
        r@ == h@.subrange(from as int, to as int),
{
    let mut out: Vec<u8> = Vec::new();
    let mut k = from;
    while k < to
        invariant
            from <= k <= to <= h.len(),
            out@ == h@.subrange(from as int, k as int),
        decreases to - k,
    {
        out.push(h[k]);
        assert(out@ =~= h@.subrange(from as int, k + 1));
        k = k + 1;
    }
    out
}

/// Decimal `usize` parsing (`str::parse::<usize>` on the bytes).
pub fn parse_usize(s: &[u8]) -> (r: Option<usize>)
    ensures
        match r {
            Some(v) => parse_usize_spec(s@) == Some(v as nat),
            None => parse_usize_spec(s@) is None,
        },
{
    let start: usize = if s.len() > 0 && s[0] == 43u8 { 1 } else { 0 };
    let ghost d = if s@.len() > 0 && s@[0] == 43u8 { s@.drop_first() } else { s@ };
    assert(d =~= s@.subrange(start as int, s@.len() as int));
    if start >= s.len() {
        return None;
    }
    let mut acc: usize = 0;
    let mut i: usize = start;
    while i < s.len()
        invariant
            start <= i <= s.len(),
            d == s@.subrange(start as int, s@.len() as int),
            d == (if s@.len() > 0 && s@[0] == 43u8 { s@.drop_first() } else { s@ }),
            all_digits(d.take(i - start)),
            acc as nat == digits_value(d.take(i - start)),
        decreases s.len() - i,
    {
        let b = s[i];
        if b < 48u8 || b > 57u8 {
            assert(d[i - start] == b);
            assert(!all_digits(d));
            return None;
        }
        let ghost k = (i - start) as int;
        assert(d.take(k + 1).drop_last() =~= d.take(k));
        assert(d.take(k + 1).last() == b);
        if acc > (usize::MAX - (b - 48u8) as usize) / 10 {
            proof {
                assert(all_digits(d.take(k + 1)));
                assert(digits_value(d.take(k + 1)) > usize::MAX) by (nonlinear_arith)
                    requires
                        digits_value(d.take(k + 1)) == acc * 10 + (b - 48) as nat,
                        acc > (usize::MAX - (b - 48u8) as usize) / 10,
                        b >= 48,
                        b <= 57,
                ;
                if all_digits(d) {
                    lemma_digits_prefix_le(d, k + 1);
                }
            }
            return None;
        }
        proof {
            assert(acc * 10 + (b - 48) as nat <= usize::MAX) by (nonlinear_arith)
                requires
                    acc <= (usize::MAX - (b - 48u8) as usize) / 10,
                    b >= 48,
                    b <= 57,
            ;
        }
        acc = acc * 10 + (b - 48u8) as usize;
        i = i + 1;
        assert(all_digits(d.take(i - start))) by {
            assert forall|j: int| 0 <= j < d.take(i - start).len() implies is_digit(
                #[trigger] d.take(i - start)[j],
            ) by {
                if j < k {
                    assert(d.take(i - start)[j] == d.take(k)[j]);
                }
            }
        }
    }
    assert(d.take(i - start) =~= d);
    Some(acc)
}

/// ASCII lowercase copy of a byte string (`str::to_ascii_lowercase`).
pub fn ascii_lowercase(s: &[u8]) -> (r: Vec<u8>)
    ensures
        r@ == ascii_lower(s@),
{
    let mut out: Vec<u8> = Vec::new();
    let mut i: usize = 0;
    while i < s.len()
        invariant
            i <= s.len(),
            out@ == ascii_lower(s@.take(i as int)),
        decreases s.len() - i,
    {
        let b = s[i];
        let l = if b >= 65u8 && b <= 90u8 { b + 32 } else { b };
        out.push(l);
        assert(ascii_lower(s@.take(i + 1)) =~= ascii_lower(s@.take(i as int)).push(lower_byte(b)));
        i = i + 1;
    }
    assert(s@.take(i as int) =~= s@);
    out
}

/// Byte equality of two strings.
pub fn str_eq(a: &str, b: &str) -> (r: bool)
    ensures
        r <==> a@ == b@,
{
    let ab = a.as_bytes();
    let bb = b.as_bytes();
    let r = bytes_eq(ab, bb);
    proof {
        if !r && a@ == b@ {
            assert(ab@ == bb@);
        }
        if r {
            lemma_utf8_injective(a@, b@);
        }
    }
    r
}

} // verus!
