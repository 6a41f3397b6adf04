use vstd::prelude::*;

use crate::math::{
    calculate_swap_output, lemma_floor_div, lemma_swap_output_bounds, swap_output,
    swap_output_overflows, BPS_DENOMINATOR,
};
use crate::pool::{AmmError, Pool, Pubkey, SwapExecuted};

verus! {

/// The reserve that receives the input of a trade in the given direction.
pub open spec fn reserve_in_of(p: Pool, is_token_a_to_b: bool) -> int {
    if is_token_a_to_b {
        p.token_a_reserves as int
    } else {
        p.token_b_reserves as int
    }
}

/// The reserve that pays out the output of a trade in the given direction.
pub open spec fn reserve_out_of(p: Pool, is_token_a_to_b: bool) -> int {
    if is_token_a_to_b {
        p.token_b_reserves as int
    } else {
        p.token_a_reserves as int
    }
}

/// Part of `amount_in` withheld as fee, rounded down.
pub open spec fn swap_fee(amount_in: int, fee_rate: int) -> int {
    amount_in * fee_rate / 10000
}

/// What `swap` decides: the new pool and the amount paid out, or why it is refused.
pub open spec fn swap_outcome(p: Pool, amount_in: u64, min_amount_out: u64, is_token_a_to_b: bool) -> Result<
    (Pool, u64),
    AmmError,
> {
    let reserve_in = reserve_in_of(p, is_token_a_to_b);
    let reserve_out = reserve_out_of(p, is_token_a_to_b);
    let out = swap_output(amount_in as int, reserve_in, reserve_out, p.fee_rate as int);
    if !p.is_active {
        Err(AmmError::PoolInactive)
    } else if amount_in == 0 {
        Err(AmmError::InvalidAmount)
    } else if reserve_in == 0 || reserve_out == 0 {
        Err(AmmError::InsufficientLiquidity)
    } else if swap_output_overflows(amount_in as int, reserve_out, p.fee_rate as int) {
        Err(AmmError::ArithmeticOverflow)
    } else if out < min_amount_out {
        Err(AmmError::InsufficientOutputAmount)
    } else if reserve_in + amount_in > u64::MAX {
        Err(AmmError::ArithmeticOverflow)
    } else if is_token_a_to_b {
        Ok(
            (
                Pool {
                    token_a_reserves: (reserve_in + amount_in) as u64,
                    token_b_reserves: (reserve_out - out) as u64,
                    ..p
                },
                out as u64,
            ),
        )
    } else {
        Ok(
            (
                Pool {
                    token_b_reserves: (reserve_in + amount_in) as u64,
                    token_a_reserves: (reserve_out - out) as u64,
                    ..p
                },
                out as u64,
            ),
        )
    }
}

/// A successful trade keeps the pool's invariant.
pub proof fn lemma_swap_keeps_wf(p: Pool, amount_in: u64, min_amount_out: u64, is_token_a_to_b: bool)
    requires
        p.wf(),
    ensures
        swap_outcome(p, amount_in, min_amount_out, is_token_a_to_b) matches Ok((q, _)) ==> q.wf(),
{
    let reserve_in = reserve_in_of(p, is_token_a_to_b);
    let reserve_out = reserve_out_of(p, is_token_a_to_b);
    if reserve_in > 0 && reserve_out > 0 {
        lemma_swap_output_bounds(amount_in as int, reserve_in, reserve_out, p.fee_rate as int);
    }
}

/// Trades `amount_in` of one asset for the other at the constant-product price net of the
/// fee; refused on a paused pool, on a zero amount, on an empty pool, when the output falls
/// below `min_amount_out`, and when a value would not fit in its width.
pub fn swap(
    pool: &mut Pool,
    pool_key: Pubkey,
    user: Pubkey,
    amount_in: u64,
    min_amount_out: u64,
    is_token_a_to_b: bool,
) -> (r: Result<SwapExecuted, AmmError>)
    requires
        old(pool).wf(),
    ensures
        final(pool).wf(),
        match swap_outcome(*old(pool), amount_in, min_amount_out, is_token_a_to_b) {
            Ok((q, out)) => *final(pool) == q && r == Ok::<SwapExecuted, AmmError>(
                SwapExecuted {
                    pool: pool_key,
                    user,
                    token_in: if is_token_a_to_b {
                        old(pool).token_a_mint
                    } else {
                        old(pool).token_b_mint
                    },
                    token_out: if is_token_a_to_b {
                        old(pool).token_b_mint
                    } else {
                        old(pool).token_a_mint
                    },
                    amount_in,
                    amount_out: out,
                    fee: swap_fee(amount_in as int, old(pool).fee_rate as int) as u64,
                },
            ),
            Err(e) => *final(pool) == *old(pool) && r == Err::<SwapExecuted, AmmError>(e),
        },
{
    proof {
        lemma_swap_keeps_wf(*pool, amount_in, min_amount_out, is_token_a_to_b);
    }
    if !pool.is_active {
        return Err(AmmError::PoolInactive);
    }
    if amount_in == 0 {
        return Err(AmmError::InvalidAmount);
    }
    let (reserve_in, reserve_out) = if is_token_a_to_b {
        (pool.token_a_reserves, pool.token_b_reserves)
    } else {
        (pool.token_b_reserves, pool.token_a_reserves)
    };
    if reserve_in == 0 || reserve_out == 0 {
        return Err(AmmError::InsufficientLiquidity);
    }
    let amount_out = match calculate_swap_output(amount_in, reserve_in, reserve_out, pool.fee_rate) {
        Some(v) => v,
        None => return Err(AmmError::ArithmeticOverflow),
    };
    if amount_out < min_amount_out {
        return Err(AmmError::InsufficientOutputAmount);
    }
    let new_in = match reserve_in.checked_add(amount_in) {
        Some(v) => v,
        None => return Err(AmmError::ArithmeticOverflow),
    };
    proof {
        lemma_swap_output_bounds(amount_in as int, reserve_in as int, reserve_out as int, pool.fee_rate as int);
    }
    let new_out = reserve_out - amount_out;
    let (token_in, token_out) = if is_token_a_to_b {
        pool.token_a_reserves = new_in;
        pool.token_b_reserves = new_out;
        (pool.token_a_mint, pool.token_b_mint)
    } else {
        pool.token_b_reserves = new_in;
        pool.token_a_reserves = new_out;
        (pool.token_b_mint, pool.token_a_mint)
    };
    let max: u128 = 0xffff_ffff_ffff_ffff;
    assert(amount_in as int * pool.fee_rate as int <= u128::MAX) by (nonlinear_arith)
        requires
            amount_in <= max,
            pool.fee_rate < 10000,
            max == 0xffff_ffff_ffff_ffffu128,
    ;
    proof {
        lemma_floor_div(amount_in as int * pool.fee_rate as int, 10000);
        assert(amount_in as int * pool.fee_rate as int <= amount_in as int * 10000) by (nonlinear_arith)
            requires
                pool.fee_rate < 10000,
                amount_in >= 0,
        ;
    }
    let fee = (amount_in as u128 * pool.fee_rate as u128 / BPS_DENOMINATOR as u128) as u64;
    Ok(
        SwapExecuted {
            pool: pool_key,
            user,
            token_in,
            token_out,
            amount_in,
            amount_out,
            fee,
        },
    )
}

} // verus!
