//! Sums over sequences of integers, and the few facts about them that the
//! layout engine's proofs rest on.

use vstd::prelude::*;

verus! {

/// The sum of the first `k` entries of `s`.
pub open spec fn prefix_sum(s: Seq<int>, k: int) -> int
    decreases k,
{
    if k <= 0 {
        0
    } else {
        prefix_sum(s, k - 1) + s[k - 1]
    }
}

/// The sum of all entries of `s`.
pub open spec fn total(s: Seq<int>) -> int {
    prefix_sum(s, s.len() as int)
}

/// No entry of `s` is negative.
pub open spec fn non_negative(s: Seq<int>) -> bool {
    forall|j: int| 0 <= j < s.len() ==> #[trigger] s[j] >= 0
}

/// Sequences that agree on their first `k` entries have the same prefix sum.
pub proof fn lemma_prefix_sum_agree(s: Seq<int>, t: Seq<int>, k: int)
    requires
        0 <= k <= s.len(),
        k <= t.len(),
        forall|j: int| 0 <= j < k ==> s[j] == t[j],
    ensures
        prefix_sum(s, k) == prefix_sum(t, k),
    decreases k,
{
    if k > 0 {
        lemma_prefix_sum_agree(s, t, k - 1);
    }
}

/// A sequence of zeros sums to zero.
pub proof fn lemma_prefix_sum_zero(s: Seq<int>, k: int)
    requires
        0 <= k <= s.len(),
        forall|j: int| 0 <= j < k ==> s[j] == 0,
    ensures
        prefix_sum(s, k) == 0,
    decreases k,
{
    if k > 0 {
        lemma_prefix_sum_zero(s, k - 1);
    }
}

/// Prefix sums of a sequence without negative entries grow with the prefix.
pub proof fn lemma_prefix_sum_grows(s: Seq<int>, a: int, b: int)
    requires
        non_negative(s),
        0 <= a <= b <= s.len(),
    ensures
        0 <= prefix_sum(s, a) <= prefix_sum(s, b),
    decreases b,
{
    if a < b {
        lemma_prefix_sum_grows(s, a, b - 1);
    } else if a > 0 {
        lemma_prefix_sum_grows(s, a - 1, a - 1);
        assert(s[a - 1] >= 0);
    }
}

/// In a sequence without negative entries no entry exceeds a sum it is part
/// of.
pub proof fn lemma_entry_at_most_sum(s: Seq<int>, i: int, k: int)
    requires
        non_negative(s),
        0 <= i < k <= s.len(),
    ensures
        s[i] <= prefix_sum(s, k),
{
    lemma_prefix_sum_grows(s, 0, i);
    lemma_prefix_sum_grows(s, i + 1, k);
}

/// Where two sequences differ in the one entry `i`, their sums differ by as
/// much.
pub proof fn lemma_prefix_sum_one_changed(s: Seq<int>, t: Seq<int>, i: int, k: int)
    requires
        0 <= i < k <= s.len(),
        s.len() == t.len(),
        forall|j: int| 0 <= j < k && j != i ==> s[j] == t[j],
    ensures
        prefix_sum(t, k) == prefix_sum(s, k) - s[i] + t[i],
    decreases k,
{
    if k - 1 == i {
        lemma_prefix_sum_agree(s, t, k - 1);
    } else {
        lemma_prefix_sum_one_changed(s, t, i, k - 1);
    }
}

/// Entry by entry smaller means smaller in sum.
pub proof fn lemma_prefix_sum_ordered(s: Seq<int>, t: Seq<int>, k: int)
    requires
        0 <= k <= s.len(),
        k <= t.len(),
        forall|j: int| 0 <= j < k ==> s[j] <= t[j],
    ensures
        prefix_sum(s, k) <= prefix_sum(t, k),
    decreases k,
{
    if k > 0 {
        lemma_prefix_sum_ordered(s, t, k - 1);
    }
}

/// The sum of an entry-wise sum is the sum of the sums.
pub proof fn lemma_prefix_sum_add(s: Seq<int>, t: Seq<int>, u: Seq<int>, k: int)
    requires
        0 <= k <= s.len(),
        k <= t.len(),
        k <= u.len(),
        forall|j: int| 0 <= j < k ==> u[j] == s[j] + t[j],
    ensures
        prefix_sum(u, k) == prefix_sum(s, k) + prefix_sum(t, k),
    decreases k,
{
    if k > 0 {
        lemma_prefix_sum_add(s, t, u, k - 1);
    }
}

/// A sequence that repeats one value sums to as many times that value.
pub proof fn lemma_prefix_sum_constant(s: Seq<int>, c: int, k: int)
    requires
        0 <= k <= s.len(),
        forall|j: int| 0 <= j < k ==> s[j] == c,
    ensures
        prefix_sum(s, k) == k * c,
    decreases k,
{
    if k > 0 {
        lemma_prefix_sum_constant(s, c, k - 1);
        assert(k * c == (k - 1) * c + c) by (nonlinear_arith);
    } else {
        assert(0 * c == 0) by (nonlinear_arith);
    }
}

/// The prefix sums of a short sequence, written out.
pub proof fn lemma_prefix_sums_written_out(s: Seq<int>)
    ensures
        prefix_sum(s, 0) == 0,
        prefix_sum(s, 1) == s[0],
        prefix_sum(s, 2) == s[0] + s[1],
        prefix_sum(s, 3) == s[0] + s[1] + s[2],
{
    reveal_with_fuel(prefix_sum, 4);
}

} // verus!
