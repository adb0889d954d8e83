//! How long each segment of a partition becomes.
//!
//! Every constraint asks for a length. Where the source is long enough, each
//! gets what it asks for and the rest goes to the segments that grow: the
//! `Fill` segments in proportion to their weights or, where there is none,
//! the `Min` segments in equal parts. Where the source is too short, the
//! requests are granted in order of firmness, earlier segments before later
//! ones of the same kind, until nothing is left.

use vstd::prelude::*;
use vstd::arithmetic::div_mod::{lemma_div_pos_is_pos, lemma_fundamental_div_mod, lemma_mod_bound};
use crate::constraint::Constraint;
use crate::sums::{
    lemma_entry_at_most_sum,
    lemma_prefix_sum_grows,
    lemma_prefix_sum_one_changed,
    lemma_prefix_sum_zero,
    non_negative,
    prefix_sum,
    total,
};

verus! {

/// `x`, or zero where `x` is negative.
pub open spec fn at_least_zero(x: int) -> int {
    if x < 0 {
        0
    } else {
        x
    }
}

/// The smaller of the two.
pub open spec fn smaller(a: int, b: int) -> int {
    if a <= b {
        a
    } else {
        b
    }
}

/// What each constraint asks for along a source `len` cells long.
pub open spec fn requests(cs: Seq<Constraint>, len: int) -> Seq<int> {
    Seq::new(cs.len(), |j: int| cs[j].request(len))
}

/// Segment `j` is served before a segment at index `i` whose constraint has
/// rank `rank`: it is of a firmer kind, or of the same kind and further left.
pub open spec fn served_before(cs: Seq<Constraint>, j: int, rank: int, i: int) -> bool {
    cs[j].keep_rank() > rank || (cs[j].keep_rank() == rank && j < i)
}

/// The requests of the segments served before `(rank, i)`, zero elsewhere.
pub open spec fn requests_ahead(cs: Seq<Constraint>, len: int, rank: int, i: int) -> Seq<int> {
    Seq::new(
        cs.len(),
        |j: int|
            if served_before(cs, j, rank, i) {
                cs[j].request(len)
            } else {
                0
            },
    )
}

/// How much the segments served before `(rank, i)` ask for together.
pub open spec fn claimed_ahead(cs: Seq<Constraint>, len: int, rank: int, i: int) -> int {
    total(requests_ahead(cs, len, rank, i))
}

/// What segment `i` is granted of its request when `avail` cells are to be
/// had: all of it, or what those served before it have left.
pub open spec fn granted(cs: Seq<Constraint>, len: int, avail: int, i: int) -> int {
    smaller(
        cs[i].request(len),
        at_least_zero(avail - claimed_ahead(cs, len, cs[i].keep_rank(), i)),
    )
}

/// What is left of `avail` cells once every request is met.
pub open spec fn surplus(cs: Seq<Constraint>, len: int, avail: int) -> int {
    at_least_zero(avail - total(requests(cs, len)))
}

/// One for each `Fill`, zero elsewhere.
pub open spec fn fill_flags(cs: Seq<Constraint>) -> Seq<int> {
    Seq::new(
        cs.len(),
        |j: int|
            if cs[j] is Fill {
                1int
            } else {
                0int
            },
    )
}

/// The weight of each `Fill`, zero elsewhere.
pub open spec fn fill_weights(cs: Seq<Constraint>) -> Seq<int> {
    Seq::new(
        cs.len(),
        |j: int|
            match cs[j] {
                Constraint::Fill(w) => w as int,
                _ => 0int,
            },
    )
}

/// The weight with which segment `j` takes part in the surplus. A `Fill`
/// takes part with its weight, or with one where all the weights are zero.
/// A `Min` takes part with one where the list holds no `Fill`. No other
/// segment grows.
pub open spec fn grow_weight(cs: Seq<Constraint>, j: int) -> int {
    match cs[j] {
        Constraint::Fill(w) => if total(fill_weights(cs)) == 0 {
            1
        } else {
            w as int
        },
        Constraint::Min(_) => if total(fill_flags(cs)) == 0 {
            1
        } else {
            0
        },
        _ => 0,
    }
}

/// The weights with which the segments take part in the surplus.
pub open spec fn grow_weights(cs: Seq<Constraint>) -> Seq<int> {
    Seq::new(cs.len(), |j: int| grow_weight(cs, j))
}

/// One for each segment that grows, zero elsewhere.
pub open spec fn grower_flags(cs: Seq<Constraint>) -> Seq<int> {
    Seq::new(
        cs.len(),
        |j: int|
            if grow_weight(cs, j) > 0 {
                1int
            } else {
                0int
            },
    )
}

/// The part of `extra` cells that falls to segment `j` by its weight,
/// rounded down.
pub open spec fn whole_share(cs: Seq<Constraint>, extra: int, j: int) -> int {
    let weight_sum = total(grow_weights(cs));
    if weight_sum == 0 {
        0
    } else {
        (extra * grow_weight(cs, j)) / weight_sum
    }
}

/// The rounded-down parts of all segments.
pub open spec fn whole_shares(cs: Seq<Constraint>, extra: int) -> Seq<int> {
    Seq::new(cs.len(), |j: int| whole_share(cs, extra, j))
}

/// The cells of `extra` that the rounding down has left over.
pub open spec fn leftover(cs: Seq<Constraint>, extra: int) -> int {
    extra - total(whole_shares(cs, extra))
}

/// What segment `j` receives of `extra` cells: its rounded-down part, and
/// one cell more while the leftover lasts, growing segments served from the
/// left.
pub open spec fn share(cs: Seq<Constraint>, extra: int, j: int) -> int {
    whole_share(cs, extra, j) + if grow_weight(cs, j) > 0 && prefix_sum(grower_flags(cs), j)
        < leftover(cs, extra) {
        1int
    } else {
        0int
    }
}

/// The length of segment `i` when the source is `len` cells long and
/// `avail` of them are to be had for segments.
pub open spec fn length(cs: Seq<Constraint>, len: int, avail: int, i: int) -> int {
    granted(cs, len, avail, i) + share(cs, surplus(cs, len, avail), i)
}

/// The lengths of all segments.
pub open spec fn lengths(cs: Seq<Constraint>, len: int, avail: int) -> Seq<int> {
    Seq::new(cs.len(), |i: int| length(cs, len, avail, i))
}

/// The entries of `v` as mathematical integers.
pub open spec fn as_ints(v: Seq<u16>) -> Seq<int> {
    Seq::new(v.len(), |i: int| v[i] as int)
}

/// No constraint asks for a negative length.
pub proof fn lemma_request_not_negative(c: Constraint, len: int)
    requires
        0 <= len,
    ensures
        0 <= c.request(len),
{
    match c {
        Constraint::Percentage(p) => {
            assert(0 <= p * len) by (nonlinear_arith)
                requires
                    0 <= p,
                    0 <= len,
            ;
            lemma_div_pos_is_pos(p * len + 50, 100);
        },
        Constraint::Ratio(num, den) => {
            if den != 0 {
                assert(0 <= num * len) by (nonlinear_arith)
                    requires
                        0 <= num,
                        0 <= len,
                ;
                lemma_div_pos_is_pos(num * len, den as int);
            }
        },
        _ => {},
    }
}

/// Neither the requests nor any selection of them holds a negative entry.
pub proof fn lemma_requests_not_negative(cs: Seq<Constraint>, len: int, rank: int, i: int)
    requires
        0 <= len,
    ensures
        non_negative(requests(cs, len)),
        non_negative(requests_ahead(cs, len, rank, i)),
{
    assert forall|j: int| 0 <= j < cs.len() implies #[trigger] requests(cs, len)[j] >= 0 by {
        lemma_request_not_negative(cs[j], len);
    }
    assert forall|j: int| 0 <= j < cs.len() implies #[trigger] requests_ahead(cs, len, rank, i)[j]
        >= 0 by {
        lemma_request_not_negative(cs[j], len);
    }
}

/// Before the firmest kind is served, nothing is claimed.
pub proof fn lemma_nothing_claimed_first(cs: Seq<Constraint>, len: int)
    ensures
        claimed_ahead(cs, len, 5, 0) == 0,
{
    lemma_prefix_sum_zero(requests_ahead(cs, len, 5, 0), cs.len() as int);
}

/// Serving segment `i` adds its request to what is claimed, where its rank
/// is the one being served.
pub proof fn lemma_claim_step(cs: Seq<Constraint>, len: int, rank: int, i: int)
    requires
        0 <= i < cs.len(),
    ensures
        claimed_ahead(cs, len, rank, i + 1) == claimed_ahead(cs, len, rank, i) + if cs[i].keep_rank()
            == rank {
            cs[i].request(len)
        } else {
            0
        },
{
    let before = requests_ahead(cs, len, rank, i);
    let after = requests_ahead(cs, len, rank, i + 1);
    lemma_prefix_sum_one_changed(before, after, i, cs.len() as int);
}

/// Once a kind is served through, the next kind starts from the same claim.
pub proof fn lemma_claim_next_rank(cs: Seq<Constraint>, len: int, rank: int)
    ensures
        claimed_ahead(cs, len, rank, cs.len() as int) == claimed_ahead(cs, len, rank - 1, 0),
{
    assert(requests_ahead(cs, len, rank, cs.len() as int) =~= requests_ahead(cs, len, rank - 1, 0));
}

/// Once every kind but `Fill` is served, every request is claimed.
pub proof fn lemma_all_claimed_last(cs: Seq<Constraint>, len: int)
    ensures
        claimed_ahead(cs, len, 0, 0) == total(requests(cs, len)),
{
    assert(requests_ahead(cs, len, 0, 0) =~= requests(cs, len));
}

/// The weights of growth are not negative, and a segment grows exactly where
/// its weight is positive.
pub proof fn lemma_weights_not_negative(cs: Seq<Constraint>)
    ensures
        non_negative(grow_weights(cs)),
        non_negative(grower_flags(cs)),
        non_negative(fill_flags(cs)),
        non_negative(fill_weights(cs)),
{
}

/// What the rounded-down shares of `extra` cells come to: no share is
/// negative, together they stay within `extra`, and fewer cells are left
/// over than segments grow.
pub proof fn lemma_whole_shares(cs: Seq<Constraint>, extra: int)
    requires
        0 <= extra,
    ensures
        non_negative(whole_shares(cs, extra)),
        0 <= leftover(cs, extra) <= extra,
        total(grow_weights(cs)) > 0 ==> leftover(cs, extra) < total(grower_flags(cs)),
        total(grow_weights(cs)) == 0 ==> total(grower_flags(cs)) == 0,
{
    let n = cs.len() as int;
    let w = total(grow_weights(cs));
    lemma_weights_not_negative(cs);
    lemma_prefix_sum_grows(grow_weights(cs), 0, n);
    if w == 0 {
        assert forall|j: int| 0 <= j < n implies grow_weights(cs)[j] == 0 by {
            lemma_entry_at_most_sum(grow_weights(cs), j, n);
        }
        assert forall|j: int| 0 <= j < n implies grower_flags(cs)[j] == 0 by {
            assert(grow_weights(cs)[j] == 0);
        }
        lemma_prefix_sum_zero(whole_shares(cs, extra), n);
        lemma_prefix_sum_zero(grower_flags(cs), n);
    } else {
        lemma_whole_shares_upto(cs, extra, n);
        let f = total(whole_shares(cs, extra));
        let k = total(grower_flags(cs));
        lemma_prefix_sum_grows(grower_flags(cs), 0, n);
        if k == 0 {
            assert forall|j: int| 0 <= j < n implies grow_weights(cs)[j] == 0 by {
                lemma_entry_at_most_sum(grower_flags(cs), j, n);
            }
            lemma_prefix_sum_zero(grow_weights(cs), n);
        }
        // w * f <= extra * w  and  extra * w - w * f <= (w - 1) * k
        assert(f <= extra) by (nonlinear_arith)
            requires
                w > 0,
                w * f <= extra * w,
        ;
        assert(extra - f < k) by (nonlinear_arith)
            requires
                w > 0,
                0 < k,
                extra * w - w * f <= (w - 1) * k,
                f <= extra,
        ;
        assert forall|j: int| 0 <= j < n implies #[trigger] whole_shares(cs, extra)[j] >= 0 by {
            assert(0 <= extra * grow_weight(cs, j)) by (nonlinear_arith)
                requires
                    0 <= extra,
                    0 <= grow_weight(cs, j),
            ;
            lemma_div_pos_is_pos(extra * grow_weight(cs, j), w);
        }
        lemma_prefix_sum_grows(whole_shares(cs, extra), 0, n);
    }
}

/// The first `k` rounded-down shares, multiplied out: they stay below the
/// exact shares, and by less than one cell for each segment that grows.
proof fn lemma_whole_shares_upto(cs: Seq<Constraint>, extra: int, k: int)
    requires
        0 <= extra,
        0 <= k <= cs.len(),
        total(grow_weights(cs)) > 0,
    ensures
        total(grow_weights(cs)) * prefix_sum(whole_shares(cs, extra), k) <= extra * prefix_sum(
            grow_weights(cs),
            k,
        ),
        extra * prefix_sum(grow_weights(cs), k) - total(grow_weights(cs)) * prefix_sum(
            whole_shares(cs, extra),
            k,
        ) <= (total(grow_weights(cs)) - 1) * prefix_sum(grower_flags(cs), k),
    decreases k,
{
    let w = total(grow_weights(cs));
    if k > 0 {
        lemma_whole_shares_upto(cs, extra, k - 1);
        let g = grow_weight(cs, k - 1);
        let q = whole_share(cs, extra, k - 1);
        let f0 = prefix_sum(whole_shares(cs, extra), k - 1);
        let g0 = prefix_sum(grow_weights(cs), k - 1);
        let k0 = prefix_sum(grower_flags(cs), k - 1);
        let flag = grower_flags(cs)[k - 1];
        assert(0 <= extra * g) by (nonlinear_arith)
            requires
                0 <= extra,
                0 <= g,
        ;
        lemma_fundamental_div_mod(extra * g, w);
        lemma_mod_bound(extra * g, w);
        let r = (extra * g) % w;
        if g == 0 {
            assert(extra * g == 0) by (nonlinear_arith)
                requires
                    g == 0,
            ;
            assert(q == 0 && r == 0) by (nonlinear_arith)
                requires
                    w > 0,
                    0 == w * q + r,
                    0 <= r < w,
            ;
        }
        assert(w * (f0 + q) == w * f0 + w * q) by (nonlinear_arith);
        assert(extra * (g0 + g) == extra * g0 + extra * g) by (nonlinear_arith);
        assert((w - 1) * (k0 + flag) == (w - 1) * k0 + (w - 1) * flag) by (nonlinear_arith);
        assert(r <= (w - 1) * flag) by (nonlinear_arith)
            requires
                0 <= r < w,
                flag == 1 || (flag == 0 && r == 0),
        ;
    }
}

/// The weight with which one constraint takes part in the surplus, given
/// what the whole list holds.
fn weight_of(c: &Constraint, any_fill: bool, fill_weights_zero: bool) -> (w: u16)
    ensures
        w as int == match *c {
            Constraint::Fill(fw) => if fill_weights_zero {
                1
            } else {
                fw as int
            },
            Constraint::Min(_) => if any_fill {
                0
            } else {
                1
            },
            _ => 0,
        },
{
    match *c {
        Constraint::Fill(fw) => if fill_weights_zero {
            1
        } else {
            fw
        },
        Constraint::Min(_) => if any_fill {
            0
        } else {
            1
        },
        _ => 0,
    }
}

/// Grants the requests, firmest kind first and left to right within a kind,
/// and returns the granted lengths with what is left of `avail`.
fn grant_requests(constraints: &Vec<Constraint>, len: u16, avail: u16) -> (res: (Vec<u16>, u16))
    ensures
        res.0.len() == constraints.len(),
        forall|i: int|
            0 <= i < res.0.len() ==> res.0[i] as int == granted(
                constraints@,
                len as int,
                avail as int,
                i,
            ),
        res.1 as int == surplus(constraints@, len as int, avail as int),
{
    let n = constraints.len();
    let ghost cs = constraints@;
    let mut out: Vec<u16> = Vec::new();
    let mut k: usize = 0;
    while k < n
        invariant
            k <= n,
            out.len() == k,
            forall|j: int| 0 <= j < k ==> out[j] == 0,
        decreases n - k,
    {
        out.push(0);
        k += 1;
    }
    let mut room: u16 = avail;
    let mut rank: u8 = 5;
    proof {
        lemma_nothing_claimed_first(cs, len as int);
    }
    while rank > 0
        invariant
            rank <= 5,
            n == constraints.len(),
            cs == constraints@,
            out.len() == n,
            room as int == at_least_zero(avail - claimed_ahead(cs, len as int, rank as int, 0)),
            forall|j: int|
                0 <= j < n ==> out[j] as int == if served_before(cs, j, rank as int, 0) {
                    granted(cs, len as int, avail as int, j)
                } else {
                    0
                },
        decreases rank,
    {
        let mut i: usize = 0;
        while i < n
            invariant
                i <= n,
                1 <= rank <= 5,
                n == constraints.len(),
                cs == constraints@,
                    out.len() == n,
                room as int == at_least_zero(
                    avail - claimed_ahead(cs, len as int, rank as int, i as int),
                ),
                forall|j: int|
                    0 <= j < n ==> out[j] as int == if served_before(cs, j, rank as int, i as int) {
                        granted(cs, len as int, avail as int, j)
                    } else {
                        0
                    },
            decreases n - i,
        {
            proof {
                lemma_claim_step(cs, len as int, rank as int, i as int);
                lemma_request_not_negative(cs[i as int], len as int);
            }
            if constraints[i].rank() == rank {
                let asked: u64 = constraints[i].requested(len);
                let given: u16 = if asked <= room as u64 {
                    asked as u16
                } else {
                    room
                };
                out.set(i, given);
                room = room - given;
            }
            i += 1;
        }
        proof {
            lemma_claim_next_rank(cs, len as int, rank as int);
        }
        rank = rank - 1;
    }
    proof {
        lemma_all_claimed_last(cs, len as int);
        assert forall|j: int| 0 <= j < n implies out[j] as int == granted(
            cs,
            len as int,
            avail as int,
            j,
        ) by {
            lemma_request_not_negative(cs[j], len as int);
        }
    }
    (out, room)
}

/// What the segments come to when nothing is shared out: each keeps what it
/// was granted.
proof fn lemma_nothing_to_share(cs: Seq<Constraint>, extra: int, j: int)
    requires
        0 <= j < cs.len(),
        0 <= extra,
        extra == 0 || total(grow_weights(cs)) == 0,
    ensures
        share(cs, extra, j) == 0,
{
    let n = cs.len() as int;
    lemma_weights_not_negative(cs);
    lemma_whole_shares(cs, extra);
    lemma_prefix_sum_grows(grower_flags(cs), j, n);
    if total(grow_weights(cs)) == 0 {
        lemma_prefix_sum_grows(grow_weights(cs), 0, n);
        lemma_entry_at_most_sum(grow_weights(cs), j, n);
    } else {
        assert(extra * grow_weight(cs, j) == 0) by (nonlinear_arith)
            requires
                extra == 0,
        ;
    }
}

/// Bounds that keep the growing of a segment within sixteen bits: what was
/// granted and what is shared out stay together within `avail`.
proof fn lemma_grown_fits(cs: Seq<Constraint>, len: int, avail: int, j: int)
    requires
        0 <= j < cs.len(),
        0 <= len,
        0 <= avail,
        surplus(cs, len, avail) > 0,
    ensures
        0 <= whole_share(cs, surplus(cs, len, avail), j),
        granted(cs, len, avail, j) + whole_share(cs, surplus(cs, len, avail), j) + leftover(
            cs,
            surplus(cs, len, avail),
        ) <= avail,
{
    let n = cs.len() as int;
    let extra = surplus(cs, len, avail);
    lemma_requests_not_negative(cs, len, 0, 0);
    lemma_entry_at_most_sum(requests(cs, len), j, n);
    lemma_whole_shares(cs, extra);
    lemma_entry_at_most_sum(whole_shares(cs, extra), j, n);
}

/// The lengths of the segments of a partition: `avail` cells shared among
/// the constraints of a source `len` cells long.
pub fn segment_lengths(constraints: &Vec<Constraint>, len: u16, avail: u16) -> (out: Vec<u16>)
    ensures
        as_ints(out@) =~= lengths(constraints@, len as int, avail as int),
{
    let n = constraints.len();
    let ghost cs = constraints@;
    let (mut out, extra) = grant_requests(constraints, len, avail);
    let ghost base = out@;
    proof {
        lemma_weights_not_negative(cs);
    }
    // what the list holds: how many `Fill`, and their weights together
    let mut fill_n: usize = 0;
    let mut fill_w: u128 = 0;
    let mut i: usize = 0;
    while i < n
        invariant
            i <= n,
            n == constraints.len(),
            cs == constraints@,
            fill_n as int == prefix_sum(fill_flags(cs), i as int),
            fill_w as int == prefix_sum(fill_weights(cs), i as int),
            fill_n <= i,
            fill_w <= i * 0xffff,
        decreases n - i,
    {
        match constraints[i] {
            Constraint::Fill(w) => {
                fill_n = fill_n + 1;
                fill_w = fill_w + w as u128;
            },
            _ => {},
        }
        i += 1;
    }
    let any_fill = fill_n > 0;
    let fill_weights_zero = fill_w == 0;
    // the weights of growth together
    let mut weight_sum: u128 = 0;
    i = 0;
    while i < n
        invariant
            i <= n,
            n == constraints.len(),
            cs == constraints@,
            any_fill == (total(fill_flags(cs)) != 0),
            fill_weights_zero == (total(fill_weights(cs)) == 0),
            weight_sum as int == prefix_sum(grow_weights(cs), i as int),
            weight_sum <= i * 0xffff,
        decreases n - i,
    {
        let w = weight_of(&constraints[i], any_fill, fill_weights_zero);
        weight_sum = weight_sum + w as u128;
        i += 1;
    }
    if weight_sum == 0 || extra == 0 {
        proof {
            assert forall|j: int| 0 <= j < n implies out[j] as int == length(
                cs,
                len as int,
                avail as int,
                j,
            ) by {
                lemma_nothing_to_share(cs, extra as int, j);
            }
        }
        return out;
    }
    proof {
        lemma_whole_shares(cs, extra as int);
    }
    // the rounded-down shares
    let mut shared: u16 = 0;
    i = 0;
    while i < n
        invariant
            i <= n,
            n == constraints.len(),
            cs == constraints@,
            out.len() == n,
            base.len() == n,
            extra > 0,
            extra as int == surplus(cs, len as int, avail as int),
            any_fill == (total(fill_flags(cs)) != 0),
            fill_weights_zero == (total(fill_weights(cs)) == 0),
            weight_sum > 0,
            weight_sum as int == total(grow_weights(cs)),
            non_negative(whole_shares(cs, extra as int)),
            0 <= leftover(cs, extra as int) <= extra,
            shared as int == prefix_sum(whole_shares(cs, extra as int), i as int),
            forall|j: int|
                0 <= j < n ==> base[j] as int == granted(cs, len as int, avail as int, j),
            forall|j: int|
                0 <= j < n ==> out[j] as int == base[j] + if j < i {
                    whole_share(cs, extra as int, j)
                } else {
                    0
                },
        decreases n - i,
    {
        let w = weight_of(&constraints[i], any_fill, fill_weights_zero);
        proof {
            assert(extra * w <= 0xffff * 0xffff) by (nonlinear_arith)
                requires
                    extra <= 0xffff,
                    w <= 0xffff,
            ;
            lemma_grown_fits(cs, len as int, avail as int, i as int);
            lemma_prefix_sum_grows(whole_shares(cs, extra as int), i as int + 1, n as int);
        }
        let part: u128 = (extra as u128 * w as u128) / weight_sum;
        let grown: u16 = out[i] + part as u16;
        out.set(i, grown);
        shared = shared + part as u16;
        i += 1;
    }
    // one more cell each while the leftover lasts
    let left: u16 = extra - shared;
    let mut seen: usize = 0;
    i = 0;
    while i < n
        invariant
            i <= n,
            n == constraints.len(),
            cs == constraints@,
            out.len() == n,
            base.len() == n,
            extra > 0,
            extra as int == surplus(cs, len as int, avail as int),
            any_fill == (total(fill_flags(cs)) != 0),
            fill_weights_zero == (total(fill_weights(cs)) == 0),
            left as int == leftover(cs, extra as int),
            seen as int == prefix_sum(grower_flags(cs), i as int),
            seen <= i,
            forall|j: int|
                0 <= j < n ==> base[j] as int == granted(cs, len as int, avail as int, j),
            forall|j: int|
                0 <= j < n ==> out[j] as int == base[j] + if j < i {
                    share(cs, extra as int, j)
                } else {
                    whole_share(cs, extra as int, j)
                },
        decreases n - i,
    {
        let w = weight_of(&constraints[i], any_fill, fill_weights_zero);
        proof {
            lemma_grown_fits(cs, len as int, avail as int, i as int);
        }
        if w > 0 {
            if (seen as u64) < (left as u64) {
                let grown: u16 = out[i] + 1;
                out.set(i, grown);
            }
            seen = seen + 1;
        }
        i += 1;
    }
    out
}

} // verus!
