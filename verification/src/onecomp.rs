//! OneComp progressive mixed-precision planning: per-tensor bit widths under a
//! memory budget, demoting the largest tensors first.
use vstd::prelude::*;

verus! {

/// `v` clamped to `[lo, hi]` (with `lo <= hi`).
pub open spec fn clamp_spec(v: int, lo: int, hi: int) -> int {
    if v < lo {
        lo
    } else if v > hi {
        hi
    } else {
        v
    }
}

/// OneComp quantizer settings.
pub struct OneCompQuantizer {
    /// Bit-width for protected tensors.
    pub hi_bits: u8,
    /// Bit-width for demoted tensors.
    pub lo_bits: u8,
    /// Group size sharing one scale.
    pub group: usize,
    /// Memory budget in bytes for the planned tensors.
    pub budget_bytes: u64,
}

/// Bytes a tensor of `len` elements costs at `bits`: `ceil(len * bits / 8)`.
pub open spec fn planned_bytes_spec(len: int, bits: int) -> int {
    (len * bits + 7) / 8
}

/// Total planned bytes of the first `k` tensors under plan `bits`.
pub open spec fn cost_upto(lens: Seq<usize>, bits: Seq<u8>, k: int) -> int
    decreases k,
{
    if k <= 0 {
        0
    } else {
        cost_upto(lens, bits, k - 1) + planned_bytes_spec(lens[k - 1] as int, bits[k - 1] as int)
    }
}

/// Total planned bytes of all tensors under plan `bits`.
pub open spec fn plan_cost(lens: Seq<usize>, bits: Seq<u8>) -> int {
    cost_upto(lens, bits, lens.len() as int)
}

/// The plan that gives every tensor width `b`.
pub open spec fn uniform_plan(n: nat, b: u8) -> Seq<u8> {
    Seq::new(n, |i: int| b)
}

/// Demotion order: larger tensors first, earlier index first among equals.
pub open spec fn demoted_before(lens: Seq<usize>, i: int, j: int) -> bool {
    lens[i] > lens[j] || (lens[i] == lens[j] && i < j)
}

/// The plan in which exactly the tensors ordered before `j` are demoted.
pub open spec fn plan_before(lens: Seq<usize>, j: int, hi: u8, lo: u8) -> Seq<u8> {
    Seq::new(lens.len(), |i: int| if demoted_before(lens, i, j) { lo } else { hi })
}

/// Number of `true` entries.
pub open spec fn count_true(s: Seq<bool>) -> nat
    decreases s.len(),
{
    if s.len() == 0 {
        0
    } else {
        count_true(s.drop_last()) + if s.last() { 1nat } else { 0nat }
    }
}

/// The planner's outcome: every width is `hi` or `lo`; the demoted tensors
/// (width `lo`, when `lo != hi`) are a prefix of the demotion order; each
/// demotion was made while the plan before it was still over budget; and
/// demotion stops as soon as the plan fits, or when every tensor is demoted.
pub open spec fn is_budget_plan(lens: Seq<usize>, hi: u8, lo: u8, budget: u64, r: Seq<u8>) -> bool {
    &&& r.len() == lens.len()
    &&& forall|j: int| 0 <= j < r.len() ==> #[trigger] r[j] == hi || r[j] == lo
    &&& plan_cost(lens, r) <= budget || forall|j: int| 0 <= j < r.len() ==> #[trigger] r[j] == lo
    &&& lo != hi ==> forall|i: int, j: int|
        0 <= i < r.len() && 0 <= j < r.len() && #[trigger] r[j] == lo && #[trigger] demoted_before(
            lens,
            i,
            j,
        ) ==> r[i] == lo
    &&& lo != hi ==> forall|j: int|
        0 <= j < r.len() && #[trigger] r[j] == lo ==> plan_cost(lens, plan_before(lens, j, hi, lo))
            > budget
}

/// Changing one width changes the cost by the difference of that tensor's
/// costs.
proof fn lemma_cost_update(lens: Seq<usize>, bits: Seq<u8>, j: int, b: u8, k: int)
    requires
        0 <= j < bits.len(),
        bits.len() == lens.len(),
        0 <= k <= lens.len(),
    ensures
        cost_upto(lens, bits.update(j, b), k) == cost_upto(lens, bits, k) + if j < k {
            planned_bytes_spec(lens[j] as int, b as int) - planned_bytes_spec(
                lens[j] as int,
                bits[j] as int,
            )
        } else {
            0
        },
    decreases k,
{
    if k > 0 {
        lemma_cost_update(lens, bits, j, b, k - 1);
    }
}

/// Planned bytes never go down as the width goes up.
proof fn lemma_pb_mono(len: int, a: int, b: int)
    by (nonlinear_arith)
    requires
        len >= 0,
        0 <= a <= b,
    ensures
        0 <= planned_bytes_spec(len, a) <= planned_bytes_spec(len, b),
{
}

/// Costs are monotone in every width, and each prefix costs at most the whole.
proof fn lemma_cost_mono(lens: Seq<usize>, a: Seq<u8>, b: Seq<u8>, k: int)
    requires
        a.len() == lens.len(),
        b.len() == lens.len(),
        0 <= k <= lens.len(),
        forall|i: int| 0 <= i < lens.len() ==> #[trigger] a[i] <= b[i],
    ensures
        0 <= cost_upto(lens, a, k) <= cost_upto(lens, b, k),
        cost_upto(lens, a, k) <= plan_cost(lens, a),
    decreases lens.len() - k,
{
    lemma_cost_prefix(lens, a, k);
    lemma_cost_le(lens, a, b, k);
}

proof fn lemma_cost_le(lens: Seq<usize>, a: Seq<u8>, b: Seq<u8>, k: int)
    requires
        a.len() == lens.len(),
        b.len() == lens.len(),
        0 <= k <= lens.len(),
        forall|i: int| 0 <= i < lens.len() ==> #[trigger] a[i] <= b[i],
    ensures
        0 <= cost_upto(lens, a, k) <= cost_upto(lens, b, k),
    decreases k,
{
    if k > 0 {
        lemma_cost_le(lens, a, b, k - 1);
        lemma_pb_mono(lens[k - 1] as int, a[k - 1] as int, b[k - 1] as int);
    }
}

proof fn lemma_cost_prefix(lens: Seq<usize>, a: Seq<u8>, k: int)
    requires
        a.len() == lens.len(),
        0 <= k <= lens.len(),
    ensures
        0 <= cost_upto(lens, a, k) <= plan_cost(lens, a),
        k < lens.len() ==> cost_upto(lens, a, k) + planned_bytes_spec(
            lens[k] as int,
            a[k] as int,
        ) <= plan_cost(lens, a),
    decreases lens.len() - k,
{
    lemma_cost_nonneg(lens, a, k);
    if k < lens.len() {
        lemma_cost_prefix(lens, a, k + 1);
        lemma_pb_mono(lens[k] as int, 0, a[k] as int);
    }
}

proof fn lemma_cost_nonneg(lens: Seq<usize>, a: Seq<u8>, k: int)
    requires
        a.len() == lens.len(),
        0 <= k <= lens.len(),
    ensures
        0 <= cost_upto(lens, a, k),
    decreases k,
{
    if k > 0 {
        lemma_cost_nonneg(lens, a, k - 1);
        lemma_pb_mono(lens[k - 1] as int, 0, a[k - 1] as int);
    }
}

/// A single tensor's cost is at most the plan's cost.
proof fn lemma_term_le_cost(lens: Seq<usize>, a: Seq<u8>, j: int)
    requires
        a.len() == lens.len(),
        0 <= j < lens.len(),
    ensures
        planned_bytes_spec(lens[j] as int, a[j] as int) <= plan_cost(lens, a),
{
    lemma_cost_prefix(lens, a, j);
    lemma_cost_nonneg(lens, a, j);
}

proof fn lemma_count_update(s: Seq<bool>, j: int)
    requires
        0 <= j < s.len(),
        !s[j],
    ensures
        count_true(s.update(j, true)) == count_true(s) + 1,
    decreases s.len(),
{
    if j < s.len() - 1 {
        lemma_count_update(s.drop_last(), j);
        assert(s.update(j, true).drop_last() =~= s.drop_last().update(j, true));
    } else {
        assert(s.update(j, true).drop_last() =~= s.drop_last());
    }
}

proof fn lemma_count_le(s: Seq<bool>)
    ensures
        count_true(s) <= s.len(),
        count_true(s) == s.len() ==> forall|i: int| 0 <= i < s.len() ==> #[trigger] s[i],
    decreases s.len(),
{
    if s.len() > 0 {
        lemma_count_le(s.drop_last());
        if count_true(s) == s.len() {
            assert forall|i: int| 0 <= i < s.len() implies #[trigger] s[i] by {
                if i < s.len() - 1 {
                    assert(s.drop_last()[i] == s[i]);
                }
            }
        }
    }
}

impl OneCompQuantizer {
    /// Clamp `hi_bits` into `[1, 8]`, `lo_bits` into `[1, 8]` and below the
    /// requested `hi_bits`, and raise `group` to at least 16.
    pub fn new(hi_bits: u8, lo_bits: u8, group: usize, budget_bytes: u64) -> (q: Self)
        ensures
            q.hi_bits == clamp_spec(hi_bits as int, 1, 8),
            q.lo_bits == if clamp_spec(lo_bits as int, 1, 8) <= hi_bits {
                clamp_spec(lo_bits as int, 1, 8)
            } else {
                hi_bits as int
            },
            q.group == if group < 16 {
                16
            } else {
                group
            },
            q.budget_bytes == budget_bytes,
    {
        let hi: u8 = if hi_bits < 1 {
            1
        } else if hi_bits > 8 {
            8
        } else {
            hi_bits
        };
        let lo_c: u8 = if lo_bits < 1 {
            1
        } else if lo_bits > 8 {
            8
        } else {
            lo_bits
        };
        let lo: u8 = if lo_c <= hi_bits {
            lo_c
        } else {
            hi_bits
        };
        OneCompQuantizer {
            hi_bits: hi,
            lo_bits: lo,
            group: if group < 16 {
                16
            } else {
                group
            },
            budget_bytes,
        }
    }

    /// 4-bit protected, 2-bit demoted, group 128, unlimited budget.
    pub fn default_4bit() -> (q: Self)
        ensures
            q.hi_bits == 4,
            q.lo_bits == 2,
            q.group == 128,
            q.budget_bytes == u64::MAX,
    {
        Self::new(4, 2, 128, u64::MAX)
    }

    /// Bytes a tensor of `len` elements costs at `bits`.
    pub fn planned_bytes(len: usize, bits: u8) -> (r: u64)
        requires
            len * bits <= u64::MAX,
        ensures
            r == planned_bytes_spec(len as int, bits as int),
    {
        let total = len as u64 * bits as u64;
        let q = total / 8;
        let r = q + if total % 8 != 0 {
            1
        } else {
            0
        };
        assert(r == (total + 7) / 8) by (nonlinear_arith)
            requires
                q == total / 8,
                r == q + if total % 8 != 0 {
                    1int
                } else {
                    0int
                },
        ;
        r
    }

    /// Assign one width per tensor length: every tensor at `hi_bits` when
    /// that fits the budget; otherwise demote to `lo_bits` the largest
    /// tensors first (earlier index first among equal lengths) until the
    /// plan fits or every tensor is demoted.
    pub fn plan_bits(&self, lens: &[usize]) -> (r: Vec<u8>)
        requires
            forall|i: int|
                0 <= i < lens@.len() ==> #[trigger] lens@[i] * self.hi_bits <= u64::MAX
                    && lens@[i] * self.lo_bits <= u64::MAX,
            plan_cost(
                lens@,
                uniform_plan(
                    lens@.len(),
                    if self.hi_bits >= self.lo_bits {
                        self.hi_bits
                    } else {
                        self.lo_bits
                    },
                ),
            ) <= u64::MAX,
        ensures
            is_budget_plan(lens@, self.hi_bits, self.lo_bits, self.budget_bytes, r@),
            plan_cost(lens@, uniform_plan(lens@.len(), self.hi_bits)) <= self.budget_bytes ==> r@
                == uniform_plan(lens@.len(), self.hi_bits),
            plan_cost(lens@, uniform_plan(lens@.len(), self.lo_bits)) <= self.budget_bytes
                ==> plan_cost(lens@, r@) <= self.budget_bytes,
    {
        let n = lens.len();
        let hi = self.hi_bits;
        let lo = self.lo_bits;
        let budget = self.budget_bytes;
        let ghost mx: u8 = if hi >= lo {
            hi
        } else {
            lo
        };
        let ghost all_max = uniform_plan(n as nat, mx);
        let mut bits: Vec<u8> = Vec::new();
        let mut total: u64 = 0;
        let mut i: usize = 0;
        while i < n
            invariant
                n == lens@.len(),
                i <= n,
                bits@ == uniform_plan(i as nat, hi),
                total == cost_upto(lens@, uniform_plan(n as nat, hi), i as int),
                forall|k: int|
                    0 <= k < lens@.len() ==> #[trigger] lens@[k] * hi <= u64::MAX && lens@[k] * lo
                        <= u64::MAX,
                plan_cost(lens@, all_max) <= u64::MAX,
                all_max == uniform_plan(n as nat, mx),
                hi <= mx,
            decreases n - i,
        {
            proof {
                lemma_cost_mono(lens@, uniform_plan(n as nat, hi), all_max, i + 1);
                lemma_cost_prefix(lens@, all_max, i + 1);
            }
            let c = Self::planned_bytes(lens[i], hi);
            total = total + c;
            bits.push(hi);
            assert(bits@ =~= uniform_plan((i + 1) as nat, hi));
            i = i + 1;
        }
        assert(bits@ =~= uniform_plan(n as nat, hi));
        if total <= budget {
            return bits;
        }
        let mut demoted: Vec<bool> = Vec::new();
        let mut k: usize = 0;
        while k < n
            invariant
                k <= n,
                demoted@ == Seq::new(k as nat, |t: int| false),
            decreases n - k,
        {
            demoted.push(false);
            assert(demoted@ =~= Seq::new((k + 1) as nat, |t: int| false));
            k = k + 1;
        }
        proof {
            assert(count_true(demoted@) == 0) by {
                lemma_count_zero(demoted@);
            }
        }
        let mut running: u64 = total;
        let mut count: usize = 0;
        while count < n && running > budget
            invariant
                n == lens@.len(),
                bits@.len() == n,
                demoted@.len() == n,
                forall|j: int| 0 <= j < n ==> #[trigger] bits@[j] == if demoted@[j] {
                    lo
                } else {
                    hi
                },
                running == plan_cost(lens@, bits@),
                forall|a: int, b: int|
                    0 <= a < n && 0 <= b < n && #[trigger] demoted@[b] && #[trigger] demoted_before(
                        lens@,
                        a,
                        b,
                    ) ==> demoted@[a],
                forall|j: int|
                    0 <= j < n && #[trigger] demoted@[j] ==> plan_cost(
                        lens@,
                        plan_before(lens@, j, hi, lo),
                    ) > budget,
                count == count_true(demoted@),
                count <= n,
                forall|q: int|
                    0 <= q < lens@.len() ==> #[trigger] lens@[q] * hi <= u64::MAX && lens@[q] * lo
                        <= u64::MAX,
                plan_cost(lens@, all_max) <= u64::MAX,
                all_max == uniform_plan(n as nat, mx),
                hi <= mx,
                lo <= mx,
                mx == hi || mx == lo,
            decreases n - count,
        {
            proof {
                lemma_count_le(demoted@);
            }
            // Find the first tensor in demotion order not yet demoted.
            let mut best: usize = n;
            let mut j: usize = 0;
            while j < n
                invariant
                    n == lens@.len(),
                    demoted@.len() == n,
                    j <= n,
                    best == n || (best < n && !demoted@[best as int]),
                    best == n ==> forall|q: int| 0 <= q < j ==> #[trigger] demoted@[q],
                    best < n ==> forall|q: int|
                        0 <= q < j && !#[trigger] demoted@[q] ==> !demoted_before(lens@, q, best as int),
                decreases n - j,
            {
                if !demoted[j] {
                    if best == n || lens[j] > lens[best] || (lens[j] == lens[best] && j < best) {
                        best = j;
                    }
                }
                j = j + 1;
            }
            if best == n {
                proof {
                    assert(false) by {
                        // every entry is demoted, so the count is n
                        lemma_count_all(demoted@);
                    }
                }
            }
            let ghost old_bits = bits@;
            let ghost old_dem = demoted@;
            proof {
                // the demoted set is exactly the set ordered before `best`
                assert(old_bits =~= plan_before(lens@, best as int, hi, lo)) by {
                    assert forall|a: int| 0 <= a < n implies #[trigger] old_bits[a] == plan_before(
                        lens@,
                        best as int,
                        hi,
                        lo,
                    )[a] by {
                        if demoted_before(lens@, a, best as int) {
                            assert(old_dem[a]);
                        } else if old_dem[a] {
                            assert(a != best);
                            assert(demoted_before(lens@, best as int, a));
                            assert(old_dem[best as int]);
                        }
                    }
                }
                lemma_term_le_cost(lens@, old_bits, best as int);
                lemma_cost_update(lens@, old_bits, best as int, lo, n as int);
                let nb = old_bits.update(best as int, lo);
                assert forall|q: int| 0 <= q < n implies #[trigger] nb[q] <= all_max[q] by {}
                lemma_cost_mono(lens@, nb, all_max, n as int);
                lemma_count_update(old_dem, best as int);
            }
            let c_hi = Self::planned_bytes(lens[best], hi);
            let c_lo = Self::planned_bytes(lens[best], lo);
            running = running - c_hi + c_lo;
            bits.set(best, lo);
            demoted.set(best, true);
            count = count + 1;
            proof {
                assert(bits@ == old_bits.update(best as int, lo));
                assert forall|a: int, b: int|
                    0 <= a < n && 0 <= b < n && #[trigger] demoted@[b] && #[trigger] demoted_before(
                        lens@,
                        a,
                        b,
                    ) implies demoted@[a] by {
                    if b == best {
                        if !old_dem[a] {
                            assert(a != best);
                        }
                    } else {
                        assert(old_dem[b]);
                    }
                }
            }
        }
        proof {
            lemma_count_le(demoted@);
            assert(bits@.len() == lens@.len());
            if lo != hi {
                assert forall|a: int, b: int|
                    0 <= a < bits@.len() && 0 <= b < bits@.len() && #[trigger] bits@[b] == lo
                        && #[trigger] demoted_before(lens@, a, b) implies bits@[a] == lo by {
                    assert(demoted@[b]);
                }
                assert forall|b: int|
                    0 <= b < bits@.len() && #[trigger] bits@[b] == lo implies plan_cost(
                    lens@,
                    plan_before(lens@, b, hi, lo),
                ) > budget by {
                    assert(demoted@[b]);
                }
            }
            if !(running <= budget) {
                assert forall|b: int| 0 <= b < bits@.len() implies #[trigger] bits@[b] == lo by {
                    assert(demoted@[b]);
                }
            }
            if plan_cost(lens@, uniform_plan(lens@.len(), lo)) <= budget && !(running <= budget) {
                assert(bits@ =~= uniform_plan(lens@.len(), lo));
            }
        }
        bits
    }
}

proof fn lemma_count_zero(s: Seq<bool>)
    requires
        forall|i: int| 0 <= i < s.len() ==> !#[trigger] s[i],
    ensures
        count_true(s) == 0,
    decreases s.len(),
{
    if s.len() > 0 {
        lemma_count_zero(s.drop_last());
    }
}

proof fn lemma_count_all(s: Seq<bool>)
    requires
        forall|i: int| 0 <= i < s.len() ==> #[trigger] s[i],
    ensures
        count_true(s) == s.len(),
    decreases s.len(),
{
    if s.len() > 0 {
        lemma_count_all(s.drop_last());
    }
}

} // verus!
