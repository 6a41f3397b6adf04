use vstd::prelude::*;

use crate::math::{
    floor_sqrt, integer_sqrt, lemma_floor_div, lemma_floor_sqrt_positive, proportional_shares,
    redeem_amount,
};
use crate::pool::{AmmError, LiquidityAdded, LiquidityRemoved, Pool, Pubkey};

verus! {

/// Shares earned by depositing `amount_a` / `amount_b`: the geometric mean into an empty
/// pool, the less generous proportional ratio into a funded one.
pub open spec fn deposit_shares(p: Pool, amount_a: int, amount_b: int) -> int {
    if p.total_liquidity == 0 {
        floor_sqrt(amount_a * amount_b)
    } else {
        proportional_shares(
            amount_a,
            amount_b,
            p.token_a_reserves as int,
            p.token_b_reserves as int,
            p.total_liquidity as int,
        )
    }
}

/// What `add_liquidity` decides: the new pool and the shares minted, or why it is refused.
pub open spec fn add_liquidity_outcome(p: Pool, amount_a: u64, amount_b: u64, min_lp_tokens: u64) -> Result<
    (Pool, u64),
    AmmError,
> {
    let shares = deposit_shares(p, amount_a as int, amount_b as int);
    if !p.is_active {
        Err(AmmError::PoolInactive)
    } else if amount_a == 0 || amount_b == 0 {
        Err(AmmError::InvalidAmount)
    } else if shares > u64::MAX {
        Err(AmmError::ArithmeticOverflow)
    } else if shares < min_lp_tokens {
        Err(AmmError::InsufficientLpTokens)
    } else if p.token_a_reserves + amount_a > u64::MAX || p.token_b_reserves + amount_b > u64::MAX
        || p.total_liquidity + shares > u64::MAX {
        Err(AmmError::ArithmeticOverflow)
    } else {
        Ok(
            (
                Pool {
                    token_a_reserves: (p.token_a_reserves + amount_a) as u64,
                    token_b_reserves: (p.token_b_reserves + amount_b) as u64,
                    total_liquidity: (p.total_liquidity + shares) as u64,
                    ..p
                },
                shares as u64,
            ),
        )
    }
}

/// A successful deposit keeps the pool's invariant.
pub proof fn lemma_add_liquidity_keeps_wf(p: Pool, amount_a: u64, amount_b: u64, min_lp_tokens: u64)
    requires
        p.wf(),
    ensures
        add_liquidity_outcome(p, amount_a, amount_b, min_lp_tokens) matches Ok((q, _)) ==> q.wf(),
{
    if p.is_active && amount_a > 0 && amount_b > 0 && p.total_liquidity == 0 {
        assert(amount_a as int * amount_b as int >= 1) by (nonlinear_arith)
            requires
                amount_a >= 1,
                amount_b >= 1,
        ;
        lemma_floor_sqrt_positive(amount_a as int * amount_b as int);
    }
}

/// Shares earned by a deposit of positive amounts, computed with 128-bit intermediates;
/// `None` where they do not fit in 64 bits.
pub fn lp_tokens_for_deposit(pool: &Pool, amount_a: u64, amount_b: u64) -> (r: Option<u64>)
    requires
        pool.wf(),
    ensures
        r is None <==> deposit_shares(*pool, amount_a as int, amount_b as int) > u64::MAX,
        r matches Some(s) ==> s as int == deposit_shares(*pool, amount_a as int, amount_b as int),
{
    let max: u128 = 0xffff_ffff_ffff_ffff;
    assert(amount_a as int * amount_b as int <= u128::MAX) by (nonlinear_arith)
        requires
            amount_a <= max,
            amount_b <= max,
            max == 0xffff_ffff_ffff_ffffu128,
    ;
    if pool.total_liquidity == 0 {
        return Some(integer_sqrt(amount_a as u128 * amount_b as u128));
    }
    let total = pool.total_liquidity;
    assert(amount_a as int * total as int <= u128::MAX && amount_b as int * total as int <= u128::MAX)
        by (nonlinear_arith)
        requires
            amount_a <= max,
            amount_b <= max,
            total <= max,
            max == 0xffff_ffff_ffff_ffffu128,
    ;
    let from_a: u128 = amount_a as u128 * total as u128 / pool.token_a_reserves as u128;
    let from_b: u128 = amount_b as u128 * total as u128 / pool.token_b_reserves as u128;
    let shares: u128 = if from_a <= from_b {
        from_a
    } else {
        from_b
    };
    if shares > max {
        None
    } else {
        Some(shares as u64)
    }
}

/// Deposits `token_a_amount` and `token_b_amount` and mints shares for them; refused on a
/// paused pool, on a zero amount, when fewer than `min_lp_tokens` shares would be minted,
/// and when a new balance would not fit in 64 bits.
pub fn add_liquidity(
    pool: &mut Pool,
    pool_key: Pubkey,
    user: Pubkey,
    token_a_amount: u64,
    token_b_amount: u64,
    min_lp_tokens: u64,
) -> (r: Result<LiquidityAdded, AmmError>)
    requires
        old(pool).wf(),
    ensures
        final(pool).wf(),
        match add_liquidity_outcome(*old(pool), token_a_amount, token_b_amount, min_lp_tokens) {
            Ok((q, shares)) => *final(pool) == q && r == Ok::<LiquidityAdded, AmmError>(
                LiquidityAdded {
                    pool: pool_key,
                    user,
                    token_a_amount,
                    token_b_amount,
                    lp_tokens_minted: shares,
                },
            ),
            Err(e) => *final(pool) == *old(pool) && r == Err::<LiquidityAdded, AmmError>(e),
        },
{
    proof {
        lemma_add_liquidity_keeps_wf(*pool, token_a_amount, token_b_amount, min_lp_tokens);
    }
    if !pool.is_active {
        return Err(AmmError::PoolInactive);
    }
    if token_a_amount == 0 || token_b_amount == 0 {
        return Err(AmmError::InvalidAmount);
    }
    let shares = match lp_tokens_for_deposit(pool, token_a_amount, token_b_amount) {
        Some(s) => s,
        None => return Err(AmmError::ArithmeticOverflow),
    };
    if shares < min_lp_tokens {
        return Err(AmmError::InsufficientLpTokens);
    }
    let new_a = match pool.token_a_reserves.checked_add(token_a_amount) {
        Some(v) => v,
        None => return Err(AmmError::ArithmeticOverflow),
    };
    let new_b = match pool.token_b_reserves.checked_add(token_b_amount) {
        Some(v) => v,
        None => return Err(AmmError::ArithmeticOverflow),
    };
    let new_total = match pool.total_liquidity.checked_add(shares) {
        Some(v) => v,
        None => return Err(AmmError::ArithmeticOverflow),
    };
    pool.token_a_reserves = new_a;
    pool.token_b_reserves = new_b;
    pool.total_liquidity = new_total;
    Ok(
        LiquidityAdded {
            pool: pool_key,
            user,
            token_a_amount,
            token_b_amount,
            lp_tokens_minted: shares,
        },
    )
}

/// What `remove_liquidity` decides: the new pool and the two amounts paid out, or why it is refused.
pub open spec fn remove_liquidity_outcome(p: Pool, shares: u64, min_token_a: u64, min_token_b: u64) -> Result<
    (Pool, u64, u64),
    AmmError,
> {
    let out_a = redeem_amount(shares as int, p.token_a_reserves as int, p.total_liquidity as int);
    let out_b = redeem_amount(shares as int, p.token_b_reserves as int, p.total_liquidity as int);
    if !p.is_active {
        Err(AmmError::PoolInactive)
    } else if shares == 0 {
        Err(AmmError::InvalidAmount)
    } else if shares > p.total_liquidity {
        Err(AmmError::InsufficientLiquidity)
    } else if out_a < min_token_a {
        Err(AmmError::InsufficientTokenA)
    } else if out_b < min_token_b {
        Err(AmmError::InsufficientTokenB)
    } else {
        Ok(
            (
                Pool {
                    token_a_reserves: (p.token_a_reserves - out_a) as u64,
                    token_b_reserves: (p.token_b_reserves - out_b) as u64,
                    total_liquidity: (p.total_liquidity - shares) as u64,
                    ..p
                },
                out_a as u64,
                out_b as u64,
            ),
        )
    }
}

/// Redeeming `shares` of `total` pays out at most the reserve, all of it exactly when
/// every share is redeemed, and leaves a positive reserve otherwise.
pub proof fn lemma_redeem_bounds(shares: int, reserve: int, total: int)
    requires
        0 < shares <= total,
        reserve >= 0,
    ensures
        0 <= redeem_amount(shares, reserve, total) <= reserve,
        shares == total ==> redeem_amount(shares, reserve, total) == reserve,
        shares < total && reserve > 0 ==> redeem_amount(shares, reserve, total) < reserve,
{
    let out = redeem_amount(shares, reserve, total);
    assert(shares * reserve >= 0) by (nonlinear_arith)
        requires
            shares > 0,
            reserve >= 0,
    ;
    lemma_floor_div(shares * reserve, total);
    assert(out <= reserve && (shares < total && reserve > 0 ==> out < reserve)) by (nonlinear_arith)
        requires
            out * total <= shares * reserve,
            0 < shares <= total,
            reserve >= 0,
            out >= 0,
    ;
    if shares == total {
        assert(reserve <= out) by (nonlinear_arith)
            requires
                shares * reserve < out * total + total,
                shares == total,
                total > 0,
        ;
    }
}

/// A successful withdrawal keeps the pool's invariant.
pub proof fn lemma_remove_liquidity_keeps_wf(p: Pool, shares: u64, min_token_a: u64, min_token_b: u64)
    requires
        p.wf(),
    ensures
        remove_liquidity_outcome(p, shares, min_token_a, min_token_b) matches Ok((q, _, _)) ==> q.wf(),
{
    if p.is_active && 0 < shares <= p.total_liquidity {
        lemma_redeem_bounds(shares as int, p.token_a_reserves as int, p.total_liquidity as int);
        lemma_redeem_bounds(shares as int, p.token_b_reserves as int, p.total_liquidity as int);
    }
}

/// Tokens of one side paid out for `shares` of `total`, computed with 128-bit intermediates.
pub fn tokens_for_shares(shares: u64, reserve: u64, total: u64) -> (r: u64)
    requires
        0 < shares <= total,
    ensures
        r as int == redeem_amount(shares as int, reserve as int, total as int),
        r <= reserve,
{
    proof {
        lemma_redeem_bounds(shares as int, reserve as int, total as int);
    }
    let max: u128 = 0xffff_ffff_ffff_ffff;
    assert(shares as int * reserve as int <= u128::MAX) by (nonlinear_arith)
        requires
            shares <= max,
            reserve <= max,
            max == 0xffff_ffff_ffff_ffffu128,
    ;
    (shares as u128 * reserve as u128 / total as u128) as u64
}

/// Burns `lp_tokens_amount` shares and pays out the matching part of both reserves, rounded
/// down; refused on a paused pool, on zero shares, on more shares than are outstanding,
/// and when an amount falls below its floor.
pub fn remove_liquidity(
    pool: &mut Pool,
    pool_key: Pubkey,
    user: Pubkey,
    lp_tokens_amount: u64,
    min_token_a: u64,
    min_token_b: u64,
) -> (r: Result<LiquidityRemoved, AmmError>)
    requires
        old(pool).wf(),
    ensures
        final(pool).wf(),
        match remove_liquidity_outcome(*old(pool), lp_tokens_amount, min_token_a, min_token_b) {
            Ok((q, out_a, out_b)) => *final(pool) == q && r == Ok::<LiquidityRemoved, AmmError>(
                LiquidityRemoved {
                    pool: pool_key,
                    user,
                    lp_tokens_burned: lp_tokens_amount,
                    token_a_amount: out_a,
                    token_b_amount: out_b,
                },
            ),
            Err(e) => *final(pool) == *old(pool) && r == Err::<LiquidityRemoved, AmmError>(e),
        },
{
    proof {
        lemma_remove_liquidity_keeps_wf(*pool, lp_tokens_amount, min_token_a, min_token_b);
    }
    if !pool.is_active {
        return Err(AmmError::PoolInactive);
    }
    if lp_tokens_amount == 0 {
        return Err(AmmError::InvalidAmount);
    }
    if lp_tokens_amount > pool.total_liquidity {
        return Err(AmmError::InsufficientLiquidity);
    }
    let token_a_amount = tokens_for_shares(lp_tokens_amount, pool.token_a_reserves, pool.total_liquidity);
    let token_b_amount = tokens_for_shares(lp_tokens_amount, pool.token_b_reserves, pool.total_liquidity);
    if token_a_amount < min_token_a {
        return Err(AmmError::InsufficientTokenA);
    }
    if token_b_amount < min_token_b {
        return Err(AmmError::InsufficientTokenB);
    }
    pool.token_a_reserves = pool.token_a_reserves - token_a_amount;
    pool.token_b_reserves = pool.token_b_reserves - token_b_amount;
    pool.total_liquidity = pool.total_liquidity - lp_tokens_amount;
    Ok(
        LiquidityRemoved {
            pool: pool_key,
            user,
            lp_tokens_burned: lp_tokens_amount,
            token_a_amount,
            token_b_amount,
        },
    )
}

} // verus!
