use vstd::prelude::*;
use vstd::arithmetic::div_mod::{lemma_fundamental_div_mod, lemma_mod_bound};

verus! {

/// Fees are expressed in basis points: parts of this denominator.
pub const BPS_DENOMINATOR: u64 = 10000;

/// `r` is the integer square root of `n`, rounded down.
pub open spec fn is_floor_sqrt(n: int, r: int) -> bool {
    0 <= r && r * r <= n && n < (r + 1) * (r + 1)
}

/// The integer square root of `n`, rounded down (unique by `lemma_floor_sqrt_unique`).
pub open spec fn floor_sqrt(n: int) -> int {
    choose|r: int| is_floor_sqrt(n, r)
}

/// Input net of fees, scaled by the basis-point denominator.
pub open spec fn net_input(amount_in: int, fee_rate: int) -> int {
    amount_in * (10000 - fee_rate)
}

/// Constant-product output for `amount_in` offered against reserves `reserve_in` / `reserve_out`,
/// with the fee taken from the input first and the result rounded down.
pub open spec fn swap_output(amount_in: int, reserve_in: int, reserve_out: int, fee_rate: int) -> int {
    (net_input(amount_in, fee_rate) * reserve_out) / (reserve_in * 10000 + net_input(amount_in, fee_rate))
}

/// Whether computing the swap output in 128 bits would overflow.
pub open spec fn swap_output_overflows(amount_in: int, reserve_out: int, fee_rate: int) -> bool {
    net_input(amount_in, fee_rate) * reserve_out > u128::MAX
}

/// Shares that a deposit of `amount_a` / `amount_b` earns in a funded pool:
/// the less generous of the two implied ratios, rounded down.
pub open spec fn proportional_shares(
    amount_a: int,
    amount_b: int,
    reserve_a: int,
    reserve_b: int,
    total: int,
) -> int {
    let from_a = amount_a * total / reserve_a;
    let from_b = amount_b * total / reserve_b;
    if from_a <= from_b { from_a } else { from_b }
}

/// Tokens of one side returned for burning `shares` out of `total`, rounded down.
pub open spec fn redeem_amount(shares: int, reserve: int, total: int) -> int {
    shares * reserve / total
}

/// Floor division, stated by its bounds.
pub proof fn lemma_floor_div(n: int, d: int)
    requires
        n >= 0,
        d > 0,
    ensures
        0 <= n / d,
        (n / d) * d <= n,
        n < (n / d) * d + d,
{
    lemma_fundamental_div_mod(n, d);
    lemma_mod_bound(n, d);
    assert(0 <= n / d) by (nonlinear_arith)
        requires
            n == d * (n / d) + n % d,
            0 <= n % d < d,
            n >= 0,
            d > 0,
    ;
    assert((n / d) * d == d * (n / d)) by (nonlinear_arith);
}

/// The floor square root is unique.
pub proof fn lemma_floor_sqrt_unique(n: int, r1: int, r2: int)
    requires
        is_floor_sqrt(n, r1),
        is_floor_sqrt(n, r2),
    ensures
        r1 == r2,
{
    if r1 < r2 {
        assert((r1 + 1) * (r1 + 1) <= r2 * r2) by (nonlinear_arith)
            requires
                0 <= r1 + 1 <= r2,
        ;
    } else if r2 < r1 {
        assert((r2 + 1) * (r2 + 1) <= r1 * r1) by (nonlinear_arith)
            requires
                0 <= r2 + 1 <= r1,
        ;
    }
}

/// Every non-negative integer has a floor square root.
pub proof fn lemma_floor_sqrt_exists(n: int)
    requires
        n >= 0,
    ensures
        is_floor_sqrt(n, floor_sqrt(n)),
    decreases n,
{
    if n == 0 {
        assert(is_floor_sqrt(0, 0));
    } else {
        lemma_floor_sqrt_exists(n - 1);
        let r = floor_sqrt(n - 1);
        if (r + 1) * (r + 1) <= n {
            assert(n < (r + 2) * (r + 2)) by (nonlinear_arith)
                requires
                    (r + 1) * (r + 1) == n,
                    r >= 0,
            ;
            assert(is_floor_sqrt(n, r + 1));
        } else {
            assert(is_floor_sqrt(n, r));
        }
    }
}

/// The floor square root of a positive integer is positive.
pub proof fn lemma_floor_sqrt_positive(n: int)
    requires
        n >= 1,
    ensures
        floor_sqrt(n) >= 1,
{
    lemma_floor_sqrt_exists(n);
}

/// Integer square root of `n`, rounded down.
pub fn integer_sqrt(n: u128) -> (r: u64)
    ensures
        is_floor_sqrt(n as int, r as int),
        r as int == floor_sqrt(n as int),
{
    let mut lo: u128 = 0;
    let mut hi: u128 = 0x1_0000_0000_0000_0000;
    assert(hi * hi > u128::MAX) by (nonlinear_arith)
        requires
            hi == 0x1_0000_0000_0000_0000u128,
    ;
    while hi - lo > 1
        invariant
            lo < hi <= 0x1_0000_0000_0000_0000u128,
            lo * lo <= n,
            n < hi * hi,
        decreases hi - lo,
    {
        let mid: u128 = lo + (hi - lo) / 2;
        assert(mid * mid < 0x1_0000_0000_0000_0000_0000_0000_0000_0000) by (nonlinear_arith)
            requires
                mid < 0x1_0000_0000_0000_0000u128,
        ;
        if mid * mid <= n {
            lo = mid;
        } else {
            hi = mid;
        }
    }
    assert(is_floor_sqrt(n as int, lo as int));
    proof {
        let f = floor_sqrt(n as int);
        assert(is_floor_sqrt(n as int, f));
        lemma_floor_sqrt_unique(n as int, f, lo as int);
    }
    lo as u64
}

/// The swap output is below the output reserve, and the reserve product does not decrease.
pub proof fn lemma_swap_output_bounds(amount_in: int, reserve_in: int, reserve_out: int, fee_rate: int)
    requires
        amount_in >= 0,
        reserve_in > 0,
        reserve_out >= 0,
        0 <= fee_rate < 10000,
    ensures
        0 <= swap_output(amount_in, reserve_in, reserve_out, fee_rate) <= reserve_out,
        reserve_out > 0 ==> swap_output(amount_in, reserve_in, reserve_out, fee_rate) < reserve_out,
        (reserve_in + amount_in) * (reserve_out - swap_output(amount_in, reserve_in, reserve_out, fee_rate))
            >= reserve_in * reserve_out,
{
    let f = 10000 - fee_rate;
    let net = net_input(amount_in, fee_rate);
    let d = reserve_in * 10000 + net;
    let out = swap_output(amount_in, reserve_in, reserve_out, fee_rate);
    assert(0 <= net) by (nonlinear_arith)
        requires
            net == amount_in * f,
            amount_in >= 0,
            f > 0,
    ;
    assert(net * reserve_out >= 0) by (nonlinear_arith)
        requires
            net >= 0,
            reserve_out >= 0,
    ;
    assert(d > net) by (nonlinear_arith)
        requires
            d == reserve_in * 10000 + net,
            reserve_in > 0,
    ;
    lemma_floor_div(net * reserve_out, d);
    assert(out * d <= net * reserve_out);
    assert(out <= reserve_out && (reserve_out > 0 ==> out < reserve_out)) by (nonlinear_arith)
        requires
            out * d <= net * reserve_out,
            0 <= net < d,
            reserve_out >= 0,
            out >= 0,
    ;
    assert(10000 * out * (reserve_in + amount_in) <= 10000 * amount_in * reserve_out) by (nonlinear_arith)
        requires
            out * (reserve_in * 10000 + amount_in * f) <= amount_in * f * reserve_out,
            0 <= out <= reserve_out,
            0 < f <= 10000,
            amount_in >= 0,
    ;
    assert((reserve_in + amount_in) * (reserve_out - out) >= reserve_in * reserve_out) by (nonlinear_arith)
        requires
            10000 * out * (reserve_in + amount_in) <= 10000 * amount_in * reserve_out,
    ;
}

/// Constant-product swap output computed with 128-bit intermediates; `None` where the
/// intermediate product does not fit in 128 bits.
pub fn calculate_swap_output(amount_in: u64, reserve_in: u64, reserve_out: u64, fee_rate: u64) -> (r: Option<u64>)
    requires
        fee_rate < 10000,
        reserve_in > 0,
    ensures
        r is None <==> swap_output_overflows(amount_in as int, reserve_out as int, fee_rate as int),
        r matches Some(v) ==> v as int == swap_output(amount_in as int, reserve_in as int, reserve_out as int, fee_rate as int),
{
    let fee_factor: u128 = (BPS_DENOMINATOR - fee_rate) as u128;
    assert(amount_in as int * fee_factor < 0x1_0000_0000_0000_0000_0000u128) by (nonlinear_arith)
        requires
            amount_in < 0x1_0000_0000_0000_0000u128,
            fee_factor <= 10000,
    ;
    let amount_in_with_fee: u128 = amount_in as u128 * fee_factor;
    let numerator = match amount_in_with_fee.checked_mul(reserve_out as u128) {
        Some(v) => v,
        None => return None,
    };
    let denominator: u128 = reserve_in as u128 * 10000 + amount_in_with_fee;
    proof {
        lemma_swap_output_bounds(amount_in as int, reserve_in as int, reserve_out as int, fee_rate as int);
    }
    Some((numerator / denominator) as u64)
}

} // verus!
