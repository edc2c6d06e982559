//! The settlement engine: deterministic winner selection from an external
//! random seed, and the parimutuel payout formula with its conservation
//! bounds.

use vstd::prelude::*;

use crate::fee::MAX_BPS;
use crate::run::{
    bidder_deposit_on, bidder_total, has_bidder, lemma_sum_amounts_to_bounds,
    lemma_sum_amounts_to_zero, losing_pool, sum_amounts, sum_amounts_to, Horse, HorseSlot, Run,
};
use crate::ActorId;
use crate::Error;
use vstd::arithmetic::div_mod::{
    lemma_div_is_ordered, lemma_div_multiples_vanish, lemma_div_multiples_vanish_fancy,
    lemma_div_pos_is_pos, lemma_fundamental_div_mod, lemma_fundamental_div_mod_converse_div,
    lemma_mod_bound,
};
use vstd::arithmetic::mul::{
    lemma_mul_is_commutative, lemma_mul_is_distributive_add, lemma_mul_is_distributive_sub,
    lemma_mul_left_inequality, lemma_mul_nonnegative, lemma_mul_strict_inequality,
};

verus! {

/// Sum of the selection weights of the first `n` horses.
pub open spec fn weight_to(horses: Seq<HorseSlot>, n: int) -> int
    decreases n,
{
    if n <= 0 {
        0
    } else {
        weight_to(horses, n - 1) + horses[n - 1].horse.weight
    }
}

/// Sum of all the horses' selection weights.
pub open spec fn total_weight(horses: Seq<HorseSlot>) -> int {
    weight_to(horses, horses.len() as int)
}

/// The external seed folded with the run's identifier, so that one oracle
/// seed is never reused across runs.
pub open spec fn spec_mix(seed: u128, run_id: u128) -> u128 {
    seed ^ run_id
}

/// The winner for draw `r`, walking the cumulative weights from index `i`:
/// the first horse whose weight bracket contains the remaining draw, the
/// last horse when the draw walks off the end.
pub open spec fn winner_from(horses: Seq<HorseSlot>, i: int, r: int) -> int
    decreases horses.len() - i,
{
    if i >= horses.len() - 1 {
        horses.len() - 1
    } else if r < horses[i].horse.weight {
        i
    } else {
        winner_from(horses, i + 1, r - horses[i].horse.weight)
    }
}

/// The index of the winning horse for a seed: the mixed draw is reduced
/// modulo the total weight and mapped through the cumulative brackets, so a
/// horse with twice the weight owns twice the residues. When every weight
/// is zero the draw picks a horse uniformly by index.
pub open spec fn spec_select_winner(horses: Seq<HorseSlot>, seed: u128, run_id: u128) -> int {
    if total_weight(horses) > 0 {
        winner_from(horses, 0, spec_mix(seed, run_id) as int % total_weight(horses))
    } else {
        spec_mix(seed, run_id) as int % horses.len() as int
    }
}

/// The weights of the first `n` horses sum to less than `n` times the
/// largest weight value.
proof fn lemma_weight_to_bound(horses: Seq<HorseSlot>, n: int)
    requires
        0 <= n,
    ensures
        0 <= weight_to(horses, n) <= n * (u32::MAX as int),
    decreases n,
{
    if n > 0 {
        lemma_weight_to_bound(horses, n - 1);
        lemma_mul_is_distributive_add(u32::MAX as int, n - 1, 1);
    }
}

/// Picks exactly one horse from a non-empty set, deterministically from the
/// seed and the run id, weighted by the declared weights. Whenever any
/// weight is positive, the picked horse has positive weight.
pub fn select_winner(horses: &Vec<HorseSlot>, seed: u128, run_id: u128) -> (idx: usize)
    requires
        horses@.len() >= 1,
    ensures
        0 <= idx < horses@.len(),
        idx == spec_select_winner(horses@, seed, run_id),
        total_weight(horses@) > 0 ==> horses@[idx as int].horse.weight > 0,
{
    let n: usize = horses.len();
    let mixed: u128 = seed ^ run_id;
    let mut total: u128 = 0;
    let mut i: usize = 0;
    proof {
        lemma_weight_to_bound(horses@, n as int);
    }
    while i < n
        invariant
            i <= n,
            total == weight_to(horses@, i as int),
        decreases n - i,
    {
        proof {
            lemma_weight_to_bound(horses@, i as int);
        }
        total = total + (horses[i].horse.weight as u128);
        i = i + 1;
    }
    if total == 0 {
        proof {
            lemma_mod_bound(mixed as int, n as int);
        }
        let idx: usize = (mixed % (n as u128)) as usize;
        idx
    } else {
        proof {
            lemma_mod_bound(mixed as int, total as int);
        }
        let draw: u128 = mixed % total;
        let mut r: u128 = draw;
        let mut w: usize = 0;
        while w < n - 1
            invariant
                w < n,
                r <= draw,
                winner_from(horses@, 0, draw as int) == winner_from(horses@, w as int, r as int),
                draw == r + weight_to(horses@, w as int),
            decreases n - w,
        {
            let wt: u128 = horses[w].horse.weight as u128;
            if r < wt {
                return w;
            }
            r = r - wt;
            w = w + 1;
        }
        proof {
            // The residual draw lands inside the last bracket.
            assert(total_weight(horses@) == weight_to(horses@, n - 1) + horses@[n - 1].horse.weight);
        }
        n - 1
    }
}

/// The winning bidder's pro-rata share of the winning pool, in basis points,
/// rounded down.
pub open spec fn share_bps_of(deposit: int, winning_total: int) -> int {
    (deposit * (MAX_BPS as int)) / winning_total
}

/// The winning bidder's cut of the losing pool, rounded down.
pub open spec fn profit_of(deposit: int, winning_total: int, losing_pool: int) -> int {
    (losing_pool * share_bps_of(deposit, winning_total)) / (MAX_BPS as int)
}

/// What a winning bidder is paid: the full stake back, plus the cut of the
/// losing pool.
pub open spec fn payout_of(deposit: int, winning_total: int, losing_pool: int) -> int {
    deposit + profit_of(deposit, winning_total, losing_pool)
}

/// Sum of the shares of the first `n` deposits.
pub open spec fn sum_shares_to(deps: Seq<u128>, w: int, n: int) -> int
    decreases n,
{
    if n <= 0 {
        0
    } else {
        sum_shares_to(deps, w, n - 1) + share_bps_of(deps[n - 1] as int, w)
    }
}

/// Sum of the profits of the first `n` deposits.
pub open spec fn sum_profits_to(deps: Seq<u128>, w: int, l: int, n: int) -> int
    decreases n,
{
    if n <= 0 {
        0
    } else {
        sum_profits_to(deps, w, l, n - 1) + profit_of(deps[n - 1] as int, w, l)
    }
}

/// Sum of the payouts of the first `n` deposits.
pub open spec fn sum_payouts_to(deps: Seq<u128>, w: int, l: int, n: int) -> int
    decreases n,
{
    if n <= 0 {
        0
    } else {
        sum_payouts_to(deps, w, l, n - 1) + payout_of(deps[n - 1] as int, w, l)
    }
}

/// Sum of the payouts of a sequence of winning deposits.
pub open spec fn sum_payouts(deps: Seq<u128>, w: int, l: int) -> int {
    sum_payouts_to(deps, w, l, deps.len() as int)
}

/// What a bidder is owed from a finished run, by the parimutuel formula:
/// the stake placed on the winning horse comes back in full, plus the
/// bidder's pro-rata cut of the losing pool. A bidder with no record gets
/// `NotFound`, one whose stake went only to losing horses `NotAWinner`, one
/// with no stake at all (also after a withdrawal) `ZeroDeposit`; arithmetic
/// that cannot be carried out in the amount type is `Overflow`.
pub fn compute_payout(run: &Run, bidder: ActorId) -> (r: Result<u128, Error>)
    requires
        run.wf(),
    ensures
        !(run.status is Finished) ==> r == Err::<u128, Error>(Error::InvalidStage),
        run.status is Finished ==> ({
            let wi = run.spec_winner_index();
            let w = run.horses@[wi].total_deposit as int;
            let d = bidder_deposit_on(run.bidders@, bidder, wi);
            let tot = bidder_total(run.bidders@, bidder);
            let l = losing_pool(run.horses@, wi);
            &&& !has_bidder(run.bidders@, bidder) ==> r == Err::<u128, Error>(Error::NotFound)
            &&& has_bidder(run.bidders@, bidder) && tot == 0 ==> r == Err::<u128, Error>(
                Error::ZeroDeposit,
            )
            &&& has_bidder(run.bidders@, bidder) && tot > 0 && d == 0 ==> r == Err::<u128, Error>(
                Error::NotAWinner,
            )
            &&& has_bidder(run.bidders@, bidder) && d > 0 ==> {
                &&& d * (MAX_BPS as int) > u128::MAX ==> r == Err::<u128, Error>(Error::Overflow)
                &&& d * (MAX_BPS as int) <= u128::MAX ==> {
                    let sh = share_bps_of(d, w);
                    &&& l > u128::MAX ==> r == Err::<u128, Error>(Error::Overflow)
                    &&& l <= u128::MAX && l * sh > u128::MAX ==> r == Err::<u128, Error>(
                        Error::Overflow,
                    )
                    &&& l <= u128::MAX && l * sh <= u128::MAX ==> {
                        &&& payout_of(d, w, l) > u128::MAX ==> r == Err::<u128, Error>(
                            Error::Overflow,
                        )
                        &&& payout_of(d, w, l) <= u128::MAX ==> r == Ok::<u128, Error>(
                            payout_of(d, w, l) as u128,
                        )
                    }
                }
            }
        }),
{
    let winner: (String, Horse, u128) = match run.get_winner_horse() {
        Some(t) => t,
        None => {
            return Err(Error::InvalidStage);
        },
    };
    let wi: usize = match crate::run::find_horse(&run.horses, &winner.0) {
        Some(i) => i,
        None => {
            return Err(Error::InvalidStage);
        },
    };
    proof {
        crate::run::lemma_horse_index_unique(run.horses@, winner.0@, wi as int);
        crate::run::lemma_horse_index_unique(run.horses@, winner.0@, run.spec_winner_index());
    }
    let k: usize = match crate::run::find_bidder(&run.bidders, bidder) {
        Some(k) => k,
        None => {
            return Err(Error::NotFound);
        },
    };
    proof {
        crate::run::lemma_bidder_index_unique(run.bidders@, bidder, k as int);
    }
    let width: usize = run.bidders[k].deposits.len();
    let d: u128 = run.bidders[k].deposits[wi];
    if d == 0 {
        let mut j: usize = 0;
        while j < width
            invariant
                j <= width,
                forall|x: int| 0 <= x < j ==> run.bidders@[k as int].deposits@[x] == 0,
            decreases width - j,
        {
            if run.bidders[k].deposits[j] > 0 {
                proof {
                    // A positive entry bounds the bidder's total from below.
                    lemma_sum_amounts_to_bounds(run.bidders@[k as int].deposits@, width as int);
                }
                return Err(Error::NotAWinner);
            }
            j = j + 1;
        }
        proof {
            lemma_sum_amounts_to_zero(run.bidders@[k as int].deposits@, width as int);
        }
        return Err(Error::ZeroDeposit);
    }
    let w: u128 = run.horses[wi].total_deposit;
    proof {
        // The bidder's entry is at most the column sum, which the frozen
        // aggregate bounds; so the winning pool is positive. The entry also
        // bounds the bidder's total from below, ruling a zero total out.
        crate::run::lemma_deposits_at_to_bounds(run.bidders@, wi as int, run.bidders@.len() as int);
        lemma_sum_amounts_to_bounds(run.bidders@[k as int].deposits@, width as int);
    }
    let bps: u128 = MAX_BPS as u128;
    if d > u128::MAX / bps {
        proof {
            crate::fee::lemma_mul_fits_iff(d as int, bps as int, u128::MAX as int);
        }
        return Err(Error::Overflow);
    }
    proof {
        crate::fee::lemma_mul_fits_iff(d as int, bps as int, u128::MAX as int);
    }
    let sh: u128 = d * bps / w;
    let l: u128 = match run.sum_deposits_except_winner() {
        Ok(l) => l,
        Err(e) => {
            return Err(e);
        },
    };
    proof {
        // The losing pool is a sum of amounts, hence nonnegative, so the
        // returned value is it exactly.
        crate::run::lemma_losing_pool_to_monotonic(
            run.horses@,
            run.spec_winner_index(),
            0,
            run.horses@.len() as int,
        );
    }
    let profit: u128 = if sh == 0 {
        proof {
            assert((l as int) * 0 == 0);
        }
        0
    } else {
        if l > u128::MAX / sh {
            proof {
                crate::fee::lemma_mul_fits_iff(l as int, sh as int, u128::MAX as int);
            }
            return Err(Error::Overflow);
        }
        proof {
            crate::fee::lemma_mul_fits_iff(l as int, sh as int, u128::MAX as int);
        }
        l * sh / bps
    };
    if profit > u128::MAX - d {
        return Err(Error::Overflow);
    }
    Ok(d + profit)
}

/// Rounding down distributes sub-additively: the floored parts never sum to
/// more than the floor of the sum.
proof fn lemma_floor_add(a: int, b: int, d: int)
    requires
        0 <= a,
        0 <= b,
        0 < d,
    ensures
        a / d + b / d <= (a + b) / d,
{
    let qa = a / d;
    let qb = b / d;
    let ra = a % d;
    let rb = b % d;
    lemma_fundamental_div_mod(a, d);
    lemma_fundamental_div_mod(b, d);
    lemma_mod_bound(a, d);
    lemma_mod_bound(b, d);
    assert(a + b == d * (qa + qb) + (ra + rb)) by {
        lemma_mul_is_distributive_add(d, qa, qb);
    }
    if ra + rb < d {
        lemma_div_multiples_vanish_fancy(qa + qb, ra + rb, d);
    } else {
        assert(a + b == d * (qa + qb + 1) + (ra + rb - d)) by {
            lemma_mul_is_distributive_add(d, qa + qb, 1);
        }
        lemma_div_multiples_vanish_fancy(qa + qb + 1, ra + rb - d, d);
    }
}

/// The pro-rata shares of the first `n` deposits sum to at most the share
/// of their sum.
proof fn lemma_sum_shares_le(deps: Seq<u128>, w: int, n: int)
    requires
        w > 0,
        0 <= n,
    ensures
        0 <= sum_shares_to(deps, w, n) <= (sum_amounts_to(deps, n) * (MAX_BPS as int)) / w,
    decreases n,
{
    if n == 0 {
        assert((sum_amounts_to(deps, 0) * (MAX_BPS as int)) / w == 0) by {
            assert(sum_amounts_to(deps, 0) * (MAX_BPS as int) == 0);
        }
    } else {
        lemma_sum_shares_le(deps, w, n - 1);
        let s = sum_amounts_to(deps, n - 1);
        let d = deps[n - 1] as int;
        crate::run::lemma_sum_amounts_to_bounds(deps, n - 1);
        lemma_mul_nonnegative(s, MAX_BPS as int);
        lemma_mul_nonnegative(d, MAX_BPS as int);
        lemma_div_pos_is_pos(d * (MAX_BPS as int), w);
        lemma_floor_add(s * (MAX_BPS as int), d * (MAX_BPS as int), w);
        assert((s + d) * (MAX_BPS as int) == s * (MAX_BPS as int) + d * (MAX_BPS as int)) by {
            lemma_mul_is_commutative(s + d, MAX_BPS as int);
            lemma_mul_is_distributive_add(MAX_BPS as int, s, d);
            lemma_mul_is_commutative(s, MAX_BPS as int);
            lemma_mul_is_commutative(d, MAX_BPS as int);
        }
    }
}

/// The profits of the first `n` deposits sum to at most the profit the
/// summed shares would earn.
proof fn lemma_sum_profits_le(deps: Seq<u128>, w: int, l: int, n: int)
    requires
        w > 0,
        l >= 0,
        0 <= n,
    ensures
        sum_profits_to(deps, w, l, n) <= (l * sum_shares_to(deps, w, n)) / (MAX_BPS as int),
    decreases n,
{
    if n == 0 {
        assert((l * 0) / (MAX_BPS as int) == 0) by {
            assert(l * 0 == 0);
        }
    } else {
        lemma_sum_profits_le(deps, w, l, n - 1);
        let ss = sum_shares_to(deps, w, n - 1);
        let d = deps[n - 1] as int;
        let sh = share_bps_of(d, w);
        lemma_mul_nonnegative(d, MAX_BPS as int);
        lemma_div_pos_is_pos(d * (MAX_BPS as int), w);
        lemma_sum_shares_le(deps, w, n - 1);
        lemma_mul_nonnegative(l, ss);
        lemma_mul_nonnegative(l, sh);
        lemma_floor_add(l * ss, l * sh, MAX_BPS as int);
        assert(l * (ss + sh) == l * ss + l * sh) by {
            lemma_mul_is_distributive_add(l, ss, sh);
        }
    }
}

/// Payouts decompose into the stakes plus the profits.
proof fn lemma_sum_payouts_split(deps: Seq<u128>, w: int, l: int, n: int)
    requires
        0 <= n,
    ensures
        sum_payouts_to(deps, w, l, n) == sum_amounts_to(deps, n) + sum_profits_to(deps, w, l, n),
    decreases n,
{
    if n > 0 {
        lemma_sum_payouts_split(deps, w, l, n - 1);
    }
}

/// Conservation: however the winning stakes relate to the winning pool `w`
/// that backs them (their sum never exceeds it), the payouts computed by
/// the parimutuel formula never sum to more than the whole pool, winning
/// stakes plus losing pool. The dust the truncations leave behind stays in
/// the contract.
pub proof fn lemma_payout_conservation(deps: Seq<u128>, w: int, l: int)
    requires
        sum_amounts(deps) <= w,
        w > 0,
        l >= 0,
    ensures
        sum_payouts(deps, w, l) <= sum_amounts(deps) + l <= w + l,
{
    let n = deps.len() as int;
    let bps = MAX_BPS as int;
    lemma_sum_payouts_split(deps, w, l, n);
    lemma_sum_profits_le(deps, w, l, n);
    lemma_sum_shares_le(deps, w, n);
    // sum_shares <= (sum * bps) / w <= (w * bps) / w == bps
    crate::run::lemma_sum_amounts_to_bounds(deps, n);
    assert((w * bps) / w == bps) by {
        lemma_mul_is_commutative(w, bps);
        lemma_div_multiples_vanish(bps, w);
    }
    assert((sum_amounts_to(deps, n) * bps) <= w * bps) by {
        vstd::arithmetic::mul::lemma_mul_inequality(sum_amounts_to(deps, n), w, bps);
    }
    lemma_div_is_ordered(sum_amounts_to(deps, n) * bps, w * bps, w);
    // profits <= (l * sum_shares) / bps <= (l * bps) / bps == l
    let ss = sum_shares_to(deps, w, n);
    if l > 0 {
        lemma_mul_left_inequality(l, ss, bps);
    } else {
        assert(l * ss == 0 && l * bps == 0) by {
            assert(l == 0);
            lemma_mul_is_commutative(l, ss);
            lemma_mul_is_commutative(l, bps);
        }
    }
    lemma_div_is_ordered(l * ss, l * bps, bps);
    assert((l * bps) / bps == l) by {
        lemma_mul_is_commutative(l, bps);
        lemma_div_multiples_vanish(l, bps);
    }
}

/// The deposits every bidder of the ledger records on horse `i`, as one
/// row: the winning column when `i` is the winning horse.
pub open spec fn deposits_column(bidders: Seq<crate::run::BidderSlot>, i: int) -> Seq<u128> {
    Seq::new(bidders.len(), |k: int| bidders[k].deposits@[i])
}

/// The column's sum is the ledger's column sum.
proof fn lemma_deposits_column_sum(bidders: Seq<crate::run::BidderSlot>, i: int, n: int)
    requires
        0 <= n <= bidders.len(),
    ensures
        sum_amounts_to(deposits_column(bidders, i), n) == crate::run::deposits_at_to(bidders, i, n),
    decreases n,
{
    if n > 0 {
        lemma_deposits_column_sum(bidders, i, n - 1);
    }
}

/// Conservation over a finished run: were every bidder paid what
/// `compute_payout` computes for the stake recorded on the winning horse,
/// the payouts would sum to at most the whole pool — the winning pool plus
/// the losing pool. Bidders without a winning stake are paid nothing by
/// the formula, so the sum over all rows covers the sum over the winners.
pub proof fn lemma_run_payout_conservation(run: Run)
    requires
        run.wf(),
        run.status is Finished,
        run.horses@[run.spec_winner_index()].total_deposit > 0,
    ensures
        sum_payouts(
            deposits_column(run.bidders@, run.spec_winner_index()),
            run.horses@[run.spec_winner_index()].total_deposit as int,
            losing_pool(run.horses@, run.spec_winner_index()),
        ) <= run.horses@[run.spec_winner_index()].total_deposit + losing_pool(
            run.horses@,
            run.spec_winner_index(),
        ),
{
    let wi = run.spec_winner_index();
    let w = run.horses@[wi].total_deposit as int;
    let l = losing_pool(run.horses@, wi);
    let deps = deposits_column(run.bidders@, wi);
    lemma_deposits_column_sum(run.bidders@, wi, run.bidders@.len() as int);
    crate::run::lemma_losing_pool_to_monotonic(run.horses@, wi, 0, run.horses@.len() as int);
    lemma_payout_conservation(deps, w, l);
}

/// With exact pro-rata shares the shares of the first `n` deposits sum to
/// exactly the share of their sum.
proof fn lemma_sum_shares_exact(deps: Seq<u128>, w: int, n: int)
    requires
        w > 0,
        0 <= n <= deps.len(),
        forall|k: int| 0 <= k < deps.len() ==> ((deps[k] as int) * (MAX_BPS as int)) % w == 0,
    ensures
        sum_shares_to(deps, w, n) * w == sum_amounts_to(deps, n) * (MAX_BPS as int),
    decreases n,
{
    let bps = MAX_BPS as int;
    if n == 0 {
        assert(0 * w == 0);
        assert(sum_amounts_to(deps, 0) * bps == 0) by {
            assert(sum_amounts_to(deps, 0) == 0);
        }
    } else {
        lemma_sum_shares_exact(deps, w, n - 1);
        let d = deps[n - 1] as int;
        let sh = share_bps_of(d, w);
        // d * bps == w * sh exactly, because the remainder vanishes.
        lemma_fundamental_div_mod(d * bps, w);
        assert((sum_shares_to(deps, w, n - 1) + sh) * w == sum_shares_to(deps, w, n - 1) * w + sh
            * w) by {
            lemma_mul_is_commutative(sum_shares_to(deps, w, n - 1) + sh, w);
            lemma_mul_is_distributive_add(w, sum_shares_to(deps, w, n - 1), sh);
            lemma_mul_is_commutative(sum_shares_to(deps, w, n - 1), w);
            lemma_mul_is_commutative(sh, w);
        }
        assert((sum_amounts_to(deps, n - 1) + d) * bps == sum_amounts_to(deps, n - 1) * bps + d
            * bps) by {
            lemma_mul_is_commutative(sum_amounts_to(deps, n - 1) + d, bps);
            lemma_mul_is_distributive_add(bps, sum_amounts_to(deps, n - 1), d);
            lemma_mul_is_commutative(sum_amounts_to(deps, n - 1), bps);
            lemma_mul_is_commutative(d, bps);
        }
        assert(sh * w == w * sh) by {
            lemma_mul_is_commutative(sh, w);
        }
    }
}

/// The profits of the first `n` deposits reconstruct `l` times the summed
/// shares, up to one sub-`MAX_BPS` remainder per deposit.
proof fn lemma_sum_profits_exact(deps: Seq<u128>, w: int, l: int, n: int)
    requires
        w > 0,
        l >= 0,
        0 <= n,
    ensures
        (MAX_BPS as int) * sum_profits_to(deps, w, l, n) <= l * sum_shares_to(deps, w, n),
        l * sum_shares_to(deps, w, n) - n * (MAX_BPS as int) <= (MAX_BPS as int) * sum_profits_to(
            deps,
            w,
            l,
            n,
        ),
        n >= 1 ==> l * sum_shares_to(deps, w, n) - n * (MAX_BPS as int) < (MAX_BPS as int)
            * sum_profits_to(deps, w, l, n),
    decreases n,
{
    let bps = MAX_BPS as int;
    if n == 0 {
        assert(l * 0 == 0);
        assert(0 * bps == 0);
        assert(bps * 0 == 0);
    } else {
        lemma_sum_profits_exact(deps, w, l, n - 1);
        let ss = sum_shares_to(deps, w, n - 1);
        let d = deps[n - 1] as int;
        let sh = share_bps_of(d, w);
        let p = profit_of(d, w, l);
        lemma_mul_nonnegative(d, bps);
        lemma_div_pos_is_pos(d * bps, w);
        lemma_mul_nonnegative(l, sh);
        lemma_fundamental_div_mod(l * sh, bps);
        lemma_mod_bound(l * sh, bps);
        assert(l * (ss + sh) == l * ss + l * sh) by {
            lemma_mul_is_distributive_add(l, ss, sh);
        }
        assert(bps * (sum_profits_to(deps, w, l, n - 1) + p) == bps * sum_profits_to(
            deps,
            w,
            l,
            n - 1,
        ) + bps * p) by {
            lemma_mul_is_distributive_add(bps, sum_profits_to(deps, w, l, n - 1), p);
        }
        assert(n * bps == (n - 1) * bps + bps) by {
            lemma_mul_is_commutative(n, bps);
            lemma_mul_is_distributive_add(bps, n - 1, 1);
            lemma_mul_is_commutative(n - 1, bps);
        }
    }
}

/// Bounded dust: when every winning stake's pro-rata share is exact (the
/// winning pool divides each stake times `MAX_BPS`), the whole pool is paid
/// out except for strictly less than one unit per winning bidder.
pub proof fn lemma_payout_dust_bound(deps: Seq<u128>, w: int, l: int)
    requires
        w == sum_amounts(deps),
        w > 0,
        l >= 0,
        deps.len() >= 1,
        forall|k: int| 0 <= k < deps.len() ==> ((deps[k] as int) * (MAX_BPS as int)) % w == 0,
    ensures
        w + l - sum_payouts(deps, w, l) < deps.len(),
{
    let n = deps.len() as int;
    let bps = MAX_BPS as int;
    lemma_sum_payouts_split(deps, w, l, n);
    lemma_sum_shares_exact(deps, w, n);
    // Shares are exact, so they sum to exactly MAX_BPS.
    let ss = sum_shares_to(deps, w, n);
    assert(ss == bps) by {
        assert(ss * w == w * bps) by {
            lemma_mul_is_commutative(w, bps);
        }
        lemma_mul_equality_converse_right(ss, bps, w);
    }
    lemma_sum_profits_exact(deps, w, l, n);
    // bps * sum_profits > l * bps - n * bps, hence sum_profits > l - n.
    let sp = sum_profits_to(deps, w, l, n);
    assert(bps * sp > bps * (l - n)) by {
        assert(l * bps == bps * l) by {
            lemma_mul_is_commutative(l, bps);
        }
        assert(n * bps == bps * n) by {
            lemma_mul_is_commutative(n, bps);
        }
        assert(bps * l - bps * n == bps * (l - n)) by {
            lemma_mul_is_distributive_sub(bps, l, n);
        }
    }
    lemma_mul_strict_inequality_converse_left(l - n, sp, bps);
}

/// Equal products with an equal positive right factor have equal left
/// factors.
proof fn lemma_mul_equality_converse_right(a: int, b: int, c: int)
    requires
        c > 0,
        a * c == b * c,
    ensures
        a == b,
{
    if a < b {
        lemma_mul_strict_inequality(a, b, c);
    }
    if b < a {
        lemma_mul_strict_inequality(b, a, c);
    }
}

/// A strict inequality of products with a positive left factor gives a
/// strict inequality of the right factors.
proof fn lemma_mul_strict_inequality_converse_left(a: int, b: int, c: int)
    requires
        c > 0,
        c * a < c * b,
    ensures
        a < b,
{
    if b <= a {
        lemma_mul_left_inequality(c, b, a);
    }
}

} // verus!
