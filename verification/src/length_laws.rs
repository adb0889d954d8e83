//! What holds of the lengths of the segments, whatever the constraints.

use vstd::prelude::*;
use vstd::arithmetic::div_mod::{
    lemma_div_multiples_vanish_quotient,
    lemma_fundamental_div_mod,
    lemma_mod_bound,
};
use crate::constraint::Constraint;
use crate::sizing::{
    claimed_ahead,
    fill_flags,
    fill_weights,
    granted,
    grow_weight,
    grow_weights,
    grower_flags,
    leftover,
    lemma_all_claimed_last,
    lemma_claim_next_rank,
    lemma_claim_step,
    lemma_nothing_claimed_first,
    lemma_request_not_negative,
    lemma_requests_not_negative,
    lemma_weights_not_negative,
    lemma_whole_shares,
    length,
    lengths,
    requests,
    requests_ahead,
    served_before,
    share,
    smaller,
    surplus,
    whole_share,
    whole_shares,
};
use crate::sums::{
    lemma_entry_at_most_sum,
    lemma_prefix_sum_add,
    lemma_prefix_sum_constant,
    lemma_prefix_sum_grows,
    lemma_prefix_sum_one_changed,
    lemma_prefix_sum_ordered,
    lemma_prefix_sum_zero,
    non_negative,
    prefix_sum,
    total,
};

verus! {

/// What every segment is granted of its request.
pub open spec fn grants(cs: Seq<Constraint>, len: int, avail: int) -> Seq<int> {
    Seq::new(cs.len(), |j: int| granted(cs, len, avail, j))
}

/// What every segment receives of `extra` cells.
pub open spec fn shares(cs: Seq<Constraint>, extra: int) -> Seq<int> {
    Seq::new(cs.len(), |j: int| share(cs, extra, j))
}

/// The grants of the segments served before `(rank, i)`, zero elsewhere.
spec fn grants_ahead(cs: Seq<Constraint>, len: int, avail: int, rank: int, i: int) -> Seq<int> {
    Seq::new(
        cs.len(),
        |j: int|
            if served_before(cs, j, rank, i) {
                granted(cs, len, avail, j)
            } else {
                0
            },
    )
}

/// The one cell more that a segment receives while the leftover lasts.
spec fn bonuses(cs: Seq<Constraint>, extra: int) -> Seq<int> {
    Seq::new(cs.len(), |j: int| share(cs, extra, j) - whole_share(cs, extra, j))
}

/// The segments served before `(rank, i)` are granted what they claim, as
/// far as `avail` reaches.
proof fn lemma_grants_upto(cs: Seq<Constraint>, len: int, avail: int, rank: int, i: int)
    requires
        0 <= len,
        0 <= avail,
        0 <= rank <= 5,
        0 <= i <= cs.len(),
    ensures
        total(grants_ahead(cs, len, avail, rank, i)) == smaller(
            avail,
            claimed_ahead(cs, len, rank, i),
        ),
    decreases 5 - rank, i,
{
    let n = cs.len() as int;
    if i > 0 {
        lemma_grants_upto(cs, len, avail, rank, i - 1);
        lemma_claim_step(cs, len, rank, i - 1);
        lemma_prefix_sum_one_changed(
            grants_ahead(cs, len, avail, rank, i - 1),
            grants_ahead(cs, len, avail, rank, i),
            i - 1,
            n,
        );
        lemma_request_not_negative(cs[i - 1], len);
        lemma_requests_not_negative(cs, len, rank, i - 1);
        lemma_prefix_sum_grows(requests_ahead(cs, len, rank, i - 1), 0, n);
    } else if rank < 5 {
        lemma_grants_upto(cs, len, avail, rank + 1, n);
        lemma_claim_next_rank(cs, len, rank + 1);
        assert(grants_ahead(cs, len, avail, rank + 1, n) =~= grants_ahead(cs, len, avail, rank, 0));
    } else {
        lemma_nothing_claimed_first(cs, len);
        lemma_prefix_sum_zero(grants_ahead(cs, len, avail, 5, 0), n);
    }
}

/// Together the segments are granted what they ask for, or all there is
/// where they ask for more.
pub proof fn lemma_grants_total(cs: Seq<Constraint>, len: int, avail: int)
    requires
        0 <= len,
        0 <= avail,
    ensures
        non_negative(grants(cs, len, avail)),
        total(grants(cs, len, avail)) == smaller(avail, total(requests(cs, len))),
        forall|j: int|
            0 <= j < cs.len() ==> #[trigger] granted(cs, len, avail, j) <= cs[j].request(len),
{
    lemma_grants_upto(cs, len, avail, 0, 0);
    lemma_all_claimed_last(cs, len);
    assert forall|j: int| 0 <= j < cs.len() implies grants_ahead(cs, len, avail, 0, 0)[j] == grants(
        cs,
        len,
        avail,
    )[j] && grants(cs, len, avail)[j] >= 0 by {
        lemma_request_not_negative(cs[j], len);
    }
    assert(grants_ahead(cs, len, avail, 0, 0) =~= grants(cs, len, avail));
}

/// Of the first `k` segments, as many receive one cell more as grow, until
/// the leftover is used up.
proof fn lemma_bonuses_upto(cs: Seq<Constraint>, extra: int, k: int)
    requires
        0 <= extra,
        0 <= k <= cs.len(),
    ensures
        prefix_sum(bonuses(cs, extra), k) == smaller(
            prefix_sum(grower_flags(cs), k),
            leftover(cs, extra),
        ),
    decreases k,
{
    lemma_whole_shares(cs, extra);
    if k > 0 {
        lemma_bonuses_upto(cs, extra, k - 1);
        lemma_weights_not_negative(cs);
        lemma_prefix_sum_grows(grower_flags(cs), 0, k - 1);
    }
}

/// The surplus is shared out to the last cell where any segment grows, and
/// not at all where none does.
pub proof fn lemma_shares_total(cs: Seq<Constraint>, extra: int)
    requires
        0 <= extra,
    ensures
        non_negative(shares(cs, extra)),
        total(shares(cs, extra)) == if total(grow_weights(cs)) > 0 {
            extra
        } else {
            0
        },
{
    let n = cs.len() as int;
    lemma_whole_shares(cs, extra);
    lemma_bonuses_upto(cs, extra, n);
    lemma_prefix_sum_add(whole_shares(cs, extra), bonuses(cs, extra), shares(cs, extra), n);
    lemma_weights_not_negative(cs);
    lemma_prefix_sum_grows(grow_weights(cs), 0, n);
    if total(grow_weights(cs)) == 0 {
        lemma_prefix_sum_zero(whole_shares(cs, extra), n);
    }
}

/// No segment has a negative length, and together the segments never take
/// more than there is. They take all of it where their requests come to as
/// much, or where a segment grows; else they take what they ask for.
pub proof fn lemma_lengths_total(cs: Seq<Constraint>, len: int, avail: int)
    requires
        0 <= len,
        0 <= avail,
    ensures
        non_negative(lengths(cs, len, avail)),
        total(lengths(cs, len, avail)) <= avail,
        total(lengths(cs, len, avail)) == if total(requests(cs, len)) >= avail || total(
            grow_weights(cs),
        ) > 0 {
            avail
        } else {
            total(requests(cs, len))
        },
{
    let n = cs.len() as int;
    let extra = surplus(cs, len, avail);
    lemma_grants_total(cs, len, avail);
    lemma_shares_total(cs, extra);
    lemma_prefix_sum_add(grants(cs, len, avail), shares(cs, extra), lengths(cs, len, avail), n);
    assert forall|j: int| 0 <= j < n implies #[trigger] lengths(cs, len, avail)[j] >= 0 by {
        assert(grants(cs, len, avail)[j] >= 0);
        assert(shares(cs, extra)[j] >= 0);
    }
}

/// A source too short for the requests is shared out in order of firmness.
///
/// Where the constraints ask for more than `avail`, every cell is used, no
/// segment is longer than it asked for, and a segment has any length only
/// where every segment served before it has all it asked for. So `Fill`
/// comes away empty, and then `Max`, `Min`, `Ratio`, `Percentage` and
/// `Fixed` yield in this order, the rightmost of a kind first.
pub proof fn law_short_source_served_by_firmness(cs: Seq<Constraint>, len: int, avail: int)
    requires
        0 <= len,
        0 <= avail,
        total(requests(cs, len)) > avail,
    ensures
        total(lengths(cs, len, avail)) == avail,
        forall|i: int|
            0 <= i < cs.len() ==> 0 <= #[trigger] length(cs, len, avail, i) <= cs[i].request(len),
        forall|i: int, j: int|
            #![trigger length(cs, len, avail, i), length(cs, len, avail, j)]
            0 <= i < cs.len() && 0 <= j < cs.len() && served_before(cs, j, cs[i].keep_rank(), i)
                && length(cs, len, avail, i) > 0 ==> length(cs, len, avail, j) == cs[j].request(
                len,
            ),
{
    let n = cs.len() as int;
    lemma_lengths_total(cs, len, avail);
    lemma_grants_total(cs, len, avail);
    lemma_shares_total(cs, 0);
    assert forall|i: int| 0 <= i < n implies length(cs, len, avail, i) == granted(
        cs,
        len,
        avail,
        i,
    ) by {
        lemma_entry_at_most_sum(shares(cs, 0), i, n);
        lemma_prefix_sum_grows(shares(cs, 0), 0, n);
        lemma_whole_shares(cs, 0);
        lemma_weights_not_negative(cs);
        lemma_prefix_sum_grows(grower_flags(cs), 0, i);
        assert(0 * grow_weight(cs, i) == 0) by (nonlinear_arith);
    }
    assert forall|i: int| 0 <= i < n implies 0 <= #[trigger] length(cs, len, avail, i)
        <= cs[i].request(len) by {
        assert(lengths(cs, len, avail)[i] >= 0);
    }
    assert forall|i: int, j: int|
        #![trigger length(cs, len, avail, i), length(cs, len, avail, j)]
        0 <= i < n && 0 <= j < n && served_before(cs, j, cs[i].keep_rank(), i) && length(
            cs,
            len,
            avail,
            i,
        ) > 0 implies length(cs, len, avail, j) == cs[j].request(len) by {
        lemma_served_first_is_whole(cs, len, avail, i, j);
    }
}

/// Where a segment is granted anything, a segment served before it is
/// granted all it asked for.
pub proof fn lemma_served_first_is_whole(cs: Seq<Constraint>, len: int, avail: int, i: int, j: int)
    requires
        0 <= len,
        0 <= i < cs.len(),
        0 <= j < cs.len(),
        served_before(cs, j, cs[i].keep_rank(), i),
        granted(cs, len, avail, i) > 0,
    ensures
        granted(cs, len, avail, j) == cs[j].request(len),
{
    let n = cs.len() as int;
    let after_j = requests_ahead(cs, len, cs[j].keep_rank(), j + 1);
    let before_i = requests_ahead(cs, len, cs[i].keep_rank(), i);
    lemma_claim_step(cs, len, cs[j].keep_rank(), j);
    assert forall|m: int| 0 <= m < n implies after_j[m] <= before_i[m] by {
        lemma_request_not_negative(cs[m], len);
    }
    lemma_prefix_sum_ordered(after_j, before_i, n);
    lemma_request_not_negative(cs[j], len);
}

/// Segments that all fill with one weight share the source evenly.
///
/// Each is as long as the whole part of `avail` divided among them, the
/// first ones one cell longer while the remainder lasts: every length is the
/// quotient rounded down or rounded up, and together they come to `avail`.
pub proof fn law_equal_fills_share_evenly(cs: Seq<Constraint>, weight: u16, len: int, avail: int)
    requires
        0 <= len,
        0 <= avail,
        cs.len() >= 1,
        forall|i: int| 0 <= i < cs.len() ==> cs[i] == Constraint::Fill(weight),
    ensures
        total(lengths(cs, len, avail)) == avail,
        forall|i: int|
            0 <= i < cs.len() ==> #[trigger] length(cs, len, avail, i) == avail / (cs.len() as int)
                + if i < avail % (cs.len() as int) {
                1int
            } else {
                0int
            },
{
    let n = cs.len() as int;
    let g: int = if weight == 0 {
        1
    } else {
        weight as int
    };
    lemma_prefix_sum_constant(fill_weights(cs), weight as int, n);
    lemma_prefix_sum_constant(fill_flags(cs), 1, n);
    assert(n * (weight as int) == 0 <==> weight == 0) by (nonlinear_arith)
        requires
            n >= 1,
            weight >= 0,
    ;
    assert forall|j: int| 0 <= j < n implies grow_weights(cs)[j] == g by {}
    lemma_prefix_sum_constant(grow_weights(cs), g, n);
    lemma_prefix_sum_zero(requests(cs, len), n);
    assert(surplus(cs, len, avail) == avail);
    assert(n * g > 0) by (nonlinear_arith)
        requires
            n >= 1,
            g >= 1,
    ;
    assert(avail * g == g * avail && n * g == g * n) by (nonlinear_arith);
    lemma_div_multiples_vanish_quotient(g, avail, n);
    let q = avail / n;
    assert forall|j: int| 0 <= j < n implies whole_shares(cs, avail)[j] == q by {}
    lemma_prefix_sum_constant(whole_shares(cs, avail), q, n);
    lemma_fundamental_div_mod(avail, n);
    lemma_mod_bound(avail, n);
    assert(leftover(cs, avail) == avail % n);
    assert forall|i: int| 0 <= i < n implies #[trigger] length(cs, len, avail, i) == q + if i
        < avail % n {
        1int
    } else {
        0int
    } by {
        lemma_prefix_sum_constant(grower_flags(cs), 1, i);
        lemma_grants_total(cs, len, avail);
        lemma_request_not_negative(cs[i], len);
        assert(granted(cs, len, avail, i) == 0);
    }
    lemma_lengths_total(cs, len, avail);
}

/// A source long enough for the requests meets every one of them.
///
/// Where the constraints ask for no more than `avail`, each segment is at
/// least as long as it asked for, and exactly as long unless it grows.
pub proof fn law_long_source_meets_requests(cs: Seq<Constraint>, len: int, avail: int)
    requires
        0 <= len,
        0 <= avail,
        total(requests(cs, len)) <= avail,
    ensures
        forall|i: int|
            0 <= i < cs.len() ==> #[trigger] length(cs, len, avail, i) >= cs[i].request(len),
        forall|i: int|
            0 <= i < cs.len() && grow_weight(cs, i) == 0 ==> #[trigger] length(cs, len, avail, i)
                == cs[i].request(len),
{
    let n = cs.len() as int;
    let extra = surplus(cs, len, avail);
    lemma_shares_total(cs, extra);
    lemma_whole_shares(cs, extra);
    assert forall|i: int| 0 <= i < n implies length(cs, len, avail, i) >= cs[i].request(len) && (
    grow_weight(cs, i) == 0 ==> length(cs, len, avail, i) == cs[i].request(len)) by {
        let upto_i = requests_ahead(cs, len, cs[i].keep_rank(), i + 1);
        lemma_claim_step(cs, len, cs[i].keep_rank(), i);
        assert forall|m: int| 0 <= m < n implies upto_i[m] <= requests(cs, len)[m] by {
            lemma_request_not_negative(cs[m], len);
        }
        lemma_prefix_sum_ordered(upto_i, requests(cs, len), n);
        assert(granted(cs, len, avail, i) == cs[i].request(len));
        assert(shares(cs, extra)[i] >= 0);
        if grow_weight(cs, i) == 0 {
            if total(grow_weights(cs)) != 0 {
                assert(extra * grow_weight(cs, i) == 0) by (nonlinear_arith)
                    requires
                        grow_weight(cs, i) == 0,
                ;
            }
        }
    }
}

/// Where no segment grows and the source is long enough, the lengths are
/// the requests.
pub proof fn lemma_requests_kept(cs: Seq<Constraint>, len: int, avail: int)
    requires
        0 <= len,
        0 <= avail,
        total(requests(cs, len)) <= avail,
        forall|i: int| 0 <= i < cs.len() ==> !(cs[i] is Fill) && !(cs[i] is Min),
    ensures
        lengths(cs, len, avail) =~= requests(cs, len),
{
    law_long_source_meets_requests(cs, len, avail);
    assert forall|i: int| 0 <= i < cs.len() implies lengths(cs, len, avail)[i] == requests(
        cs,
        len,
    )[i] by {
        assert(grow_weight(cs, i) == 0);
        assert(length(cs, len, avail, i) == cs[i].request(len));
    }
}

} // verus!
