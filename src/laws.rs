use vstd::prelude::*;

use crate::liquidity::{
    add_liquidity_outcome, deposit_shares, lemma_redeem_bounds, remove_liquidity_outcome,
};
use crate::math::{
    lemma_floor_div, lemma_swap_output_bounds, net_input, redeem_amount, swap_output,
    swap_output_overflows,
};
use crate::pool::{AmmError, Pool};
use crate::swap::{lemma_swap_keeps_wf, reserve_in_of, reserve_out_of, swap_outcome};

verus! {

/// A trade never lowers the product of the two reserves.
pub proof fn lemma_swap_product_non_decreasing(
    p: Pool,
    amount_in: u64,
    min_amount_out: u64,
    is_token_a_to_b: bool,
)
    requires
        p.wf(),
    ensures
        swap_outcome(p, amount_in, min_amount_out, is_token_a_to_b) matches Ok((q, _))
            ==> q.token_a_reserves * q.token_b_reserves >= p.token_a_reserves * p.token_b_reserves,
{
    let reserve_in = reserve_in_of(p, is_token_a_to_b);
    let reserve_out = reserve_out_of(p, is_token_a_to_b);
    if let Ok((q, out)) = swap_outcome(p, amount_in, min_amount_out, is_token_a_to_b) {
        lemma_swap_output_bounds(amount_in as int, reserve_in, reserve_out, p.fee_rate as int);
        let new_in = reserve_in + amount_in;
        let new_out = reserve_out - out;
        assert(new_in * new_out == new_out * new_in) by (nonlinear_arith);
        assert(reserve_in * reserve_out == reserve_out * reserve_in) by (nonlinear_arith);
    }
}

/// The pool after a series of trades `(amount_in, min_amount_out, is_token_a_to_b)`, in order;
/// a refused trade leaves the pool as it was.
pub open spec fn after_swaps(p: Pool, trades: Seq<(u64, u64, bool)>) -> Pool
    decreases trades.len(),
{
    if trades.len() == 0 {
        p
    } else {
        let (amount_in, min_amount_out, is_token_a_to_b) = trades[0];
        let next = match swap_outcome(p, amount_in, min_amount_out, is_token_a_to_b) {
            Ok((q, _)) => q,
            Err(_) => p,
        };
        after_swaps(next, trades.drop_first())
    }
}

/// Over any series of trades the pool keeps its invariant and the product of the two
/// reserves never falls below its starting value.
pub proof fn lemma_swaps_product_non_decreasing(p: Pool, trades: Seq<(u64, u64, bool)>)
    requires
        p.wf(),
    ensures
        after_swaps(p, trades).wf(),
        after_swaps(p, trades).token_a_reserves * after_swaps(p, trades).token_b_reserves
            >= p.token_a_reserves * p.token_b_reserves,
    decreases trades.len(),
{
    if trades.len() > 0 {
        let (amount_in, min_amount_out, is_token_a_to_b) = trades[0];
        lemma_swap_keeps_wf(p, amount_in, min_amount_out, is_token_a_to_b);
        lemma_swap_product_non_decreasing(p, amount_in, min_amount_out, is_token_a_to_b);
        let next = match swap_outcome(p, amount_in, min_amount_out, is_token_a_to_b) {
            Ok((q, _)) => q,
            Err(_) => p,
        };
        lemma_swaps_product_non_decreasing(next, trades.drop_first());
    }
}

/// Shares minted into a funded pool are bounded by both deposit ratios, as many as the less
/// generous ratio allows, and meet both ratios only when the deposit matches the pool's price.
pub proof fn lemma_deposit_proportional(p: Pool, amount_a: u64, amount_b: u64, min_lp_tokens: u64)
    requires
        p.wf(),
        p.total_liquidity > 0,
        add_liquidity_outcome(p, amount_a, amount_b, min_lp_tokens) is Ok,
    ensures
        ({
            let s = deposit_shares(p, amount_a as int, amount_b as int);
            let (ra, rb, t) = (p.token_a_reserves as int, p.token_b_reserves as int, p.total_liquidity as int);
            &&& s * ra <= amount_a * t
            &&& s * rb <= amount_b * t
            &&& (s + 1) * ra > amount_a * t || (s + 1) * rb > amount_b * t
            &&& (s * ra == amount_a * t && s * rb == amount_b * t) ==> amount_a * rb == amount_b * ra
        }),
{
    let s = deposit_shares(p, amount_a as int, amount_b as int);
    let (ra, rb, t) = (p.token_a_reserves as int, p.token_b_reserves as int, p.total_liquidity as int);
    let (a, b) = (amount_a as int, amount_b as int);
    assert(a * t >= 0 && b * t >= 0) by (nonlinear_arith)
        requires
            a >= 0,
            b >= 0,
            t >= 0,
    ;
    lemma_floor_div(a * t, ra);
    lemma_floor_div(b * t, rb);
    let from_a = a * t / ra;
    let from_b = b * t / rb;
    assert(s <= from_a && s <= from_b && (s == from_a || s == from_b));
    assert(s * ra <= a * t) by (nonlinear_arith)
        requires
            s <= from_a,
            from_a * ra <= a * t,
            ra > 0,
    ;
    assert(s * rb <= b * t) by (nonlinear_arith)
        requires
            s <= from_b,
            from_b * rb <= b * t,
            rb > 0,
    ;
    assert((s + 1) * ra > a * t || (s + 1) * rb > b * t) by (nonlinear_arith)
        requires
            s == from_a || s == from_b,
            a * t < from_a * ra + ra,
            b * t < from_b * rb + rb,
    ;
    if s * ra == a * t && s * rb == b * t {
        assert(a * rb == b * ra) by (nonlinear_arith)
            requires
                s * ra == a * t,
                s * rb == b * t,
                t > 0,
        ;
    }
}

/// Withdrawing, right after a deposit, every share it minted returns at most what was deposited.
pub proof fn lemma_deposit_withdraw_round_trip(p: Pool, amount_a: u64, amount_b: u64, min_lp_tokens: u64)
    requires
        p.wf(),
        add_liquidity_outcome(p, amount_a, amount_b, min_lp_tokens) matches Ok((_, s)) && s > 0,
    ensures
        match add_liquidity_outcome(p, amount_a, amount_b, min_lp_tokens) {
            Ok((q, s)) => match remove_liquidity_outcome(q, s, 0, 0) {
                Ok((_, out_a, out_b)) => out_a <= amount_a && out_b <= amount_b,
                Err(_) => false,
            },
            Err(_) => false,
        },
{
    let (ra, rb, t) = (p.token_a_reserves as int, p.token_b_reserves as int, p.total_liquidity as int);
    let (a, b) = (amount_a as int, amount_b as int);
    let s = deposit_shares(p, a, b);
    if p.total_liquidity > 0 {
        lemma_deposit_proportional(p, amount_a, amount_b, min_lp_tokens);
    }
    assert(s * ra <= a * t && s * rb <= b * t);
    lemma_redeem_bounds(s, ra + a, t + s);
    lemma_redeem_bounds(s, rb + b, t + s);
    let out_a = redeem_amount(s, ra + a, t + s);
    let out_b = redeem_amount(s, rb + b, t + s);
    lemma_floor_div(s * (ra + a), t + s);
    lemma_floor_div(s * (rb + b), t + s);
    assert(out_a <= a) by (nonlinear_arith)
        requires
            out_a * (t + s) <= s * (ra + a),
            s * ra <= a * t,
            t + s > 0,
            s > 0,
    ;
    assert(out_b <= b) by (nonlinear_arith)
        requires
            out_b * (t + s) <= s * (rb + b),
            s * rb <= b * t,
            t + s > 0,
            s > 0,
    ;
}

/// Trading the output of a trade straight back, under a positive fee, yields strictly less
/// than the first input.
pub proof fn lemma_swap_round_trip_output(amount_in: int, reserve_in: int, reserve_out: int, fee_rate: int)
    requires
        amount_in > 0,
        reserve_in > 0,
        reserve_out > 0,
        0 < fee_rate < 10000,
    ensures
        ({
            let out = swap_output(amount_in, reserve_in, reserve_out, fee_rate);
            swap_output(out, reserve_out - out, reserve_in + amount_in, fee_rate) < amount_in
        }),
{
    let f = 10000 - fee_rate;
    let x = amount_in;
    let out = swap_output(x, reserve_in, reserve_out, fee_rate);
    lemma_swap_output_bounds(x, reserve_in, reserve_out, fee_rate);
    let d1 = reserve_in * 10000 + x * f;
    assert(x * f * reserve_out >= 0 && x * f >= 0) by (nonlinear_arith)
        requires
            x > 0,
            f > 0,
            reserve_out > 0,
    ;
    lemma_floor_div(x * f * reserve_out, d1);
    assert(out * d1 <= x * f * reserve_out);
    assert(out * (reserve_in + x) < x * reserve_out) by (nonlinear_arith)
        requires
            out * (reserve_in * 10000 + x * f) <= x * f * reserve_out,
            0 <= out < reserve_out,
            0 < f < 10000,
            x > 0,
    ;
    if out > 0 {
        let back = swap_output(out, reserve_out - out, reserve_in + x, fee_rate);
        lemma_swap_output_bounds(out, reserve_out - out, reserve_in + x, fee_rate);
        let d2 = (reserve_out - out) * 10000 + out * f;
        assert(out * f * (reserve_in + x) >= 0 && out * f >= 0) by (nonlinear_arith)
            requires
                out > 0,
                f > 0,
                reserve_in + x > 0,
        ;
        lemma_floor_div(out * f * (reserve_in + x), d2);
        assert(back * d2 <= out * f * (reserve_in + x));
        assert(back * reserve_out <= out * (reserve_in + x)) by (nonlinear_arith)
            requires
                back * ((reserve_out - out) * 10000 + out * f) <= out * f * (reserve_in + x),
                back >= 0,
                0 < out < reserve_out,
                0 < f < 10000,
        ;
        assert(back < x) by (nonlinear_arith)
            requires
                back * reserve_out <= out * (reserve_in + x),
                out * (reserve_in + x) < x * reserve_out,
                reserve_out > 0,
        ;
    } else {
        assert(net_input(0, fee_rate) == 0);
        assert(swap_output(0, reserve_out, reserve_in + x, fee_rate) == 0);
    }
}

/// Trading the output of a trade straight back in a pool with a positive fee returns strictly
/// less than was first put in; the trade back is refused only for a zero output or an
/// intermediate product beyond 128 bits.
pub proof fn lemma_no_free_lunch(p: Pool, amount_in: u64, is_token_a_to_b: bool)
    requires
        p.wf(),
        p.fee_rate > 0,
        swap_outcome(p, amount_in, 0, is_token_a_to_b) is Ok,
    ensures
        match swap_outcome(p, amount_in, 0, is_token_a_to_b) {
            Ok((q, out)) => match swap_outcome(q, out, 0, !is_token_a_to_b) {
                Ok((_, back)) => back < amount_in,
                Err(e) => (out == 0 && e == AmmError::InvalidAmount) || e == AmmError::ArithmeticOverflow,
            },
            Err(_) => false,
        },
{
    let reserve_in = reserve_in_of(p, is_token_a_to_b);
    let reserve_out = reserve_out_of(p, is_token_a_to_b);
    lemma_swap_output_bounds(amount_in as int, reserve_in, reserve_out, p.fee_rate as int);
    lemma_swap_round_trip_output(amount_in as int, reserve_in, reserve_out, p.fee_rate as int);
}

/// Redeeming every outstanding share empties the pool and pays out both reserves whole.
pub proof fn lemma_full_withdrawal_empties_pool(p: Pool, min_token_a: u64, min_token_b: u64)
    requires
        p.wf(),
        remove_liquidity_outcome(p, p.total_liquidity, min_token_a, min_token_b) is Ok,
    ensures
        match remove_liquidity_outcome(p, p.total_liquidity, min_token_a, min_token_b) {
            Ok((q, out_a, out_b)) => {
                &&& q.token_a_reserves == 0
                &&& q.token_b_reserves == 0
                &&& q.total_liquidity == 0
                &&& out_a == p.token_a_reserves
                &&& out_b == p.token_b_reserves
            },
            Err(_) => false,
        },
{
    let t = p.total_liquidity as int;
    lemma_redeem_bounds(t, p.token_a_reserves as int, t);
    lemma_redeem_bounds(t, p.token_b_reserves as int, t);
}

/// A paused pool refuses deposits, withdrawals and trades.
pub proof fn lemma_paused_pool_rejects(
    p: Pool,
    amount_a: u64,
    amount_b: u64,
    min_lp_tokens: u64,
    shares: u64,
    min_token_a: u64,
    min_token_b: u64,
    amount_in: u64,
    min_amount_out: u64,
    is_token_a_to_b: bool,
)
    requires
        !p.is_active,
    ensures
        add_liquidity_outcome(p, amount_a, amount_b, min_lp_tokens) == Err::<(Pool, u64), AmmError>(
            AmmError::PoolInactive,
        ),
        remove_liquidity_outcome(p, shares, min_token_a, min_token_b) == Err::<(Pool, u64, u64), AmmError>(
            AmmError::PoolInactive,
        ),
        swap_outcome(p, amount_in, min_amount_out, is_token_a_to_b) == Err::<(Pool, u64), AmmError>(
            AmmError::PoolInactive,
        ),
{
}

/// An active pool refuses a deposit with a zero amount, a withdrawal of zero shares and a
/// trade of zero input.
pub proof fn lemma_zero_amounts_rejected(
    p: Pool,
    amount: u64,
    min_lp_tokens: u64,
    min_token_a: u64,
    min_token_b: u64,
    min_amount_out: u64,
    is_token_a_to_b: bool,
)
    requires
        p.is_active,
    ensures
        add_liquidity_outcome(p, 0, amount, min_lp_tokens) == Err::<(Pool, u64), AmmError>(
            AmmError::InvalidAmount,
        ),
        add_liquidity_outcome(p, amount, 0, min_lp_tokens) == Err::<(Pool, u64), AmmError>(
            AmmError::InvalidAmount,
        ),
        remove_liquidity_outcome(p, 0, min_token_a, min_token_b) == Err::<(Pool, u64, u64), AmmError>(
            AmmError::InvalidAmount,
        ),
        swap_outcome(p, 0, min_amount_out, is_token_a_to_b) == Err::<(Pool, u64), AmmError>(
            AmmError::InvalidAmount,
        ),
{
}

/// Where a computed amount falls below the caller's floor, the operation is refused.
pub proof fn lemma_slippage_floors_rejected(p: Pool, amount_a: u64, amount_b: u64, shares: u64, amount_in: u64, floor: u64, is_token_a_to_b: bool)
    requires
        p.wf(),
        p.is_active,
    ensures
        amount_a > 0 && amount_b > 0 && deposit_shares(p, amount_a as int, amount_b as int) < floor
            ==> add_liquidity_outcome(p, amount_a, amount_b, floor) == Err::<(Pool, u64), AmmError>(
            AmmError::InsufficientLpTokens,
        ),
        0 < shares <= p.total_liquidity && redeem_amount(shares as int, p.token_a_reserves as int, p.total_liquidity as int) < floor
            ==> remove_liquidity_outcome(p, shares, floor, 0) == Err::<(Pool, u64, u64), AmmError>(
            AmmError::InsufficientTokenA,
        ),
        0 < shares <= p.total_liquidity && redeem_amount(shares as int, p.token_b_reserves as int, p.total_liquidity as int) < floor
            ==> remove_liquidity_outcome(p, shares, 0, floor) == Err::<(Pool, u64, u64), AmmError>(
            AmmError::InsufficientTokenB,
        ),
        ({
            let reserve_in = reserve_in_of(p, is_token_a_to_b);
            let reserve_out = reserve_out_of(p, is_token_a_to_b);
            amount_in > 0 && reserve_in > 0 && reserve_out > 0
                && !swap_output_overflows(amount_in as int, reserve_out, p.fee_rate as int)
                && swap_output(amount_in as int, reserve_in, reserve_out, p.fee_rate as int) < floor
                ==> swap_outcome(p, amount_in, floor, is_token_a_to_b) == Err::<(Pool, u64), AmmError>(
                AmmError::InsufficientOutputAmount,
            )
        }),
{
}

} // verus!
