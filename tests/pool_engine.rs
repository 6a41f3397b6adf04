use amm::liquidity::{add_liquidity, lp_tokens_for_deposit, remove_liquidity, tokens_for_shares};
use amm::math::{calculate_swap_output, integer_sqrt};
use amm::pool::{initialize_pool, set_pool_status, AmmError, Pool, Pubkey};
use amm::swap::swap;

fn key(n: u8) -> Pubkey {
    Pubkey::new([n; 32])
}

fn new_pool(fee_rate: u64) -> Pool {
    let (pool, _) = initialize_pool(key(9), key(1), key(2), key(3), key(4), key(5), key(6), 254, fee_rate).unwrap();
    pool
}

fn funded_pool(a: u64, b: u64, fee_rate: u64) -> Pool {
    let mut pool = new_pool(fee_rate);
    add_liquidity(&mut pool, key(9), key(7), a, b, 0).unwrap();
    pool
}

fn reserves(pool: &Pool) -> (u64, u64, u64) {
    (pool.token_a_reserves, pool.token_b_reserves, pool.total_liquidity)
}

#[test]
fn initialize_creates_empty_active_pool() {
    let (pool, event) = initialize_pool(key(9), key(1), key(2), key(3), key(4), key(5), key(6), 254, 30).unwrap();
    assert_eq!(reserves(&pool), (0, 0, 0));
    assert!(pool.is_active);
    assert_eq!(pool.fee_rate, 30);
    assert_eq!(pool.authority, key(1));
    assert_eq!(pool.lp_mint, key(6));
    assert_eq!(event.pool, key(9));
    assert_eq!(event.token_a_mint, key(2));
    assert_eq!(event.fee_rate, 30);
    assert!(pool.is_well_formed());
}

#[test]
fn initialize_rejects_same_assets() {
    let r = initialize_pool(key(9), key(1), key(2), key(2), key(4), key(5), key(6), 254, 30);
    assert_eq!(r.err(), Some(AmmError::InvalidPool));
}

#[test]
fn initialize_rejects_fee_out_of_range() {
    let r = initialize_pool(key(9), key(1), key(2), key(3), key(4), key(5), key(6), 254, 10000);
    assert_eq!(r.err(), Some(AmmError::InvalidAmount));
    assert!(initialize_pool(key(9), key(1), key(2), key(3), key(4), key(5), key(6), 254, 9999).is_ok());
}

#[test]
fn bootstrap_deposit_mints_geometric_mean() {
    let mut pool = new_pool(30);
    let event = add_liquidity(&mut pool, key(9), key(7), 10000, 40000, 0).unwrap();
    assert_eq!(event.lp_tokens_minted, 20000);
    assert_eq!(event.token_a_amount, 10000);
    assert_eq!(event.token_b_amount, 40000);
    assert_eq!(event.user, key(7));
    assert_eq!(reserves(&pool), (10000, 40000, 20000));
}

#[test]
fn bootstrap_is_independent_of_fee() {
    for fee in [0u64, 30, 9999] {
        let pool = funded_pool(10000, 40000, fee);
        assert_eq!(pool.total_liquidity, 20000);
    }
}

#[test]
fn proportional_deposit_takes_less_generous_ratio() {
    let mut pool = funded_pool(10000, 40000, 30);
    let event = add_liquidity(&mut pool, key(9), key(7), 1000, 5000, 0).unwrap();
    assert_eq!(event.lp_tokens_minted, 2000);
    assert_eq!(reserves(&pool), (11000, 45000, 22000));
    // shares / total <= amount / reserve on both sides
    assert!(2000u128 * 10000 <= 1000u128 * 20000);
    assert!(2000u128 * 40000 <= 5000u128 * 20000);
}

#[test]
fn balanced_deposit_keeps_ratio() {
    let mut pool = funded_pool(10000, 40000, 30);
    let event = add_liquidity(&mut pool, key(9), key(7), 500, 2000, 0).unwrap();
    assert_eq!(event.lp_tokens_minted, 1000);
    assert_eq!(reserves(&pool), (10500, 42000, 21000));
}

#[test]
fn deposit_then_withdraw_returns_no_more_than_deposited() {
    let mut pool = funded_pool(10000, 40000, 30);
    let added = add_liquidity(&mut pool, key(9), key(7), 1000, 5000, 0).unwrap();
    let removed = remove_liquidity(&mut pool, key(9), key(7), added.lp_tokens_minted, 0, 0).unwrap();
    assert_eq!(removed.token_a_amount, 1000);
    assert_eq!(removed.token_b_amount, 4090);
    assert!(removed.token_b_amount <= 5000);
    assert_eq!(reserves(&pool), (10000, 40910, 20000));
}

#[test]
fn bootstrap_round_trip_returns_deposit() {
    let mut pool = new_pool(30);
    let added = add_liquidity(&mut pool, key(9), key(7), 7, 11, 0).unwrap();
    assert_eq!(added.lp_tokens_minted, 8);
    let removed = remove_liquidity(&mut pool, key(9), key(7), 8, 0, 0).unwrap();
    assert_eq!((removed.token_a_amount, removed.token_b_amount), (7, 11));
    assert_eq!(reserves(&pool), (0, 0, 0));
}

#[test]
fn full_withdrawal_empties_pool() {
    let mut pool = funded_pool(10000, 40000, 30);
    swap(&mut pool, key(9), key(7), 777, 0, true).unwrap();
    let (a, b, t) = reserves(&pool);
    let removed = remove_liquidity(&mut pool, key(9), key(7), t, a, b).unwrap();
    assert_eq!((removed.token_a_amount, removed.token_b_amount), (a, b));
    assert_eq!(reserves(&pool), (0, 0, 0));
    assert!(pool.is_well_formed());
}

#[test]
fn partial_withdrawal_rounds_down() {
    let mut pool = funded_pool(10000, 40000, 30);
    let removed = remove_liquidity(&mut pool, key(9), key(7), 3, 0, 0).unwrap();
    assert_eq!(removed.token_a_amount, 1);
    assert_eq!(removed.token_b_amount, 6);
    assert_eq!(removed.lp_tokens_burned, 3);
    assert_eq!(reserves(&pool), (9999, 39994, 19997));
}

#[test]
fn swap_example_matches_formula() {
    let mut pool = funded_pool(1_000_000, 1_000_000, 30);
    let event = swap(&mut pool, key(9), key(7), 1000, 0, true).unwrap();
    // floor(1000 * 9970 * 1_000_000 / (1_000_000 * 10000 + 1000 * 9970))
    let expected = (1000u128 * 9970 * 1_000_000 / (1_000_000u128 * 10000 + 1000 * 9970)) as u64;
    assert_eq!(expected, 996);
    assert_eq!(event.amount_out, expected);
    assert_eq!(event.amount_in, 1000);
    assert_eq!(event.fee, 3);
    assert_eq!(event.token_in, key(2));
    assert_eq!(event.token_out, key(3));
    assert_eq!(reserves(&pool), (1_001_000, 999_004, 1_000_000));
}

#[test]
fn swap_b_to_a_updates_other_side() {
    let mut pool = funded_pool(1_000_000, 1_000_000, 30);
    let event = swap(&mut pool, key(9), key(7), 1000, 996, false).unwrap();
    assert_eq!(event.amount_out, 996);
    assert_eq!(event.token_in, key(3));
    assert_eq!(event.token_out, key(2));
    assert_eq!(reserves(&pool), (999_004, 1_001_000, 1_000_000));
}

#[test]
fn swaps_never_lower_reserve_product() {
    let mut pool = funded_pool(10000, 40000, 30);
    let amounts = [5000u64, 1, 12345, 999, 40000, 3];
    for (i, amount) in amounts.iter().enumerate() {
        let before = pool.token_a_reserves as u128 * pool.token_b_reserves as u128;
        swap(&mut pool, key(9), key(7), *amount, 0, i % 2 == 0).unwrap();
        let after = pool.token_a_reserves as u128 * pool.token_b_reserves as u128;
        assert!(after >= before);
    }
}

#[test]
fn swap_and_back_loses() {
    let mut pool = funded_pool(1_000_000, 1_000_000, 30);
    let out = swap(&mut pool, key(9), key(7), 1000, 0, true).unwrap().amount_out;
    let back = swap(&mut pool, key(9), key(7), out, 0, false).unwrap().amount_out;
    assert_eq!(back, 994);
    assert!(back < 1000);
}

#[test]
fn zero_fee_swap_keeps_product() {
    let mut pool = funded_pool(10000, 40000, 0);
    let event = swap(&mut pool, key(9), key(7), 5000, 0, true).unwrap();
    assert_eq!(event.amount_out, 13333);
    assert_eq!(event.fee, 0);
    assert!(15000u128 * 26667 >= 10000u128 * 40000);
}

#[test]
fn zero_amounts_rejected() {
    let mut pool = funded_pool(10000, 40000, 30);
    let before = reserves(&pool);
    assert_eq!(add_liquidity(&mut pool, key(9), key(7), 0, 10, 0).err(), Some(AmmError::InvalidAmount));
    assert_eq!(add_liquidity(&mut pool, key(9), key(7), 10, 0, 0).err(), Some(AmmError::InvalidAmount));
    assert_eq!(remove_liquidity(&mut pool, key(9), key(7), 0, 0, 0).err(), Some(AmmError::InvalidAmount));
    assert_eq!(swap(&mut pool, key(9), key(7), 0, 0, true).err(), Some(AmmError::InvalidAmount));
    assert_eq!(reserves(&pool), before);
}

#[test]
fn paused_pool_rejects_everything() {
    let mut pool = funded_pool(10000, 40000, 30);
    set_pool_status(&mut pool, key(1), false).unwrap();
    assert!(!pool.is_active);
    let before = reserves(&pool);
    assert_eq!(add_liquidity(&mut pool, key(9), key(7), 10, 10, 0).err(), Some(AmmError::PoolInactive));
    assert_eq!(remove_liquidity(&mut pool, key(9), key(7), 10, 0, 0).err(), Some(AmmError::PoolInactive));
    assert_eq!(swap(&mut pool, key(9), key(7), 10, 0, true).err(), Some(AmmError::PoolInactive));
    assert_eq!(reserves(&pool), before);
    set_pool_status(&mut pool, key(1), true).unwrap();
    assert!(swap(&mut pool, key(9), key(7), 10, 0, true).is_ok());
}

#[test]
fn status_toggle_requires_authority() {
    let mut pool = funded_pool(10000, 40000, 30);
    assert_eq!(set_pool_status(&mut pool, key(7), false).err(), Some(AmmError::Unauthorized));
    assert!(pool.is_active);
}

#[test]
fn slippage_floors_rejected_without_mutation() {
    let mut pool = funded_pool(10000, 40000, 30);
    let before = reserves(&pool);
    assert_eq!(
        add_liquidity(&mut pool, key(9), key(7), 1000, 5000, 2001).err(),
        Some(AmmError::InsufficientLpTokens)
    );
    assert_eq!(
        remove_liquidity(&mut pool, key(9), key(7), 2000, 1001, 0).err(),
        Some(AmmError::InsufficientTokenA)
    );
    assert_eq!(
        remove_liquidity(&mut pool, key(9), key(7), 2000, 1000, 4001).err(),
        Some(AmmError::InsufficientTokenB)
    );
    let expected_out = calculate_swap_output(5000, 10000, 40000, 30).unwrap();
    assert_eq!(expected_out, 13306);
    assert_eq!(
        swap(&mut pool, key(9), key(7), 5000, expected_out + 1, true).err(),
        Some(AmmError::InsufficientOutputAmount)
    );
    assert_eq!(reserves(&pool), before);
    assert!(add_liquidity(&mut pool, key(9), key(7), 1000, 5000, 2000).is_ok());
}

#[test]
fn bootstrap_slippage_floor() {
    let mut pool = new_pool(30);
    assert_eq!(
        add_liquidity(&mut pool, key(9), key(7), 10000, 40000, 20001).err(),
        Some(AmmError::InsufficientLpTokens)
    );
    assert_eq!(reserves(&pool), (0, 0, 0));
}

#[test]
fn withdrawing_more_than_outstanding_rejected() {
    let mut pool = funded_pool(10000, 40000, 30);
    assert_eq!(
        remove_liquidity(&mut pool, key(9), key(7), 20001, 0, 0).err(),
        Some(AmmError::InsufficientLiquidity)
    );
    let mut empty = new_pool(30);
    assert_eq!(
        remove_liquidity(&mut empty, key(9), key(7), 1, 0, 0).err(),
        Some(AmmError::InsufficientLiquidity)
    );
}

#[test]
fn swap_on_empty_pool_rejected() {
    let mut pool = new_pool(30);
    assert_eq!(swap(&mut pool, key(9), key(7), 10, 0, true).err(), Some(AmmError::InsufficientLiquidity));
}

#[test]
fn deposit_overflow_detected() {
    let mut pool = funded_pool(u64::MAX - 5, 10, 30);
    let before = reserves(&pool);
    assert_eq!(add_liquidity(&mut pool, key(9), key(7), 10, 10, 0).err(), Some(AmmError::ArithmeticOverflow));
    assert_eq!(reserves(&pool), before);

    let wide = funded_pool(1, u64::MAX, 30);
    assert_eq!(wide.total_liquidity, 4294967295);

    let mut thin = new_pool(30);
    thin.token_a_reserves = 1;
    thin.token_b_reserves = 1;
    thin.total_liquidity = 1 << 40;
    assert!(thin.is_well_formed());
    assert_eq!(lp_tokens_for_deposit(&thin, u64::MAX, u64::MAX), None);
    assert_eq!(
        add_liquidity(&mut thin, key(9), key(7), u64::MAX, u64::MAX, 0).err(),
        Some(AmmError::ArithmeticOverflow)
    );
    assert_eq!(lp_tokens_for_deposit(&thin, 2, 3), Some(2 << 40));
}

#[test]
fn swap_overflow_detected() {
    let mut pool = funded_pool(1, u64::MAX, 30);
    let before = reserves(&pool);
    assert_eq!(swap(&mut pool, key(9), key(7), 1 << 63, 0, true).err(), Some(AmmError::ArithmeticOverflow));
    assert_eq!(calculate_swap_output(1 << 63, 1, u64::MAX, 30), None);
    assert_eq!(reserves(&pool), before);

    let mut deep = funded_pool(u64::MAX - 5, 1000, 30);
    assert_eq!(swap(&mut deep, key(9), key(7), 10, 0, true).err(), Some(AmmError::ArithmeticOverflow));
}

#[test]
fn integer_sqrt_rounds_down() {
    assert_eq!(integer_sqrt(0), 0);
    assert_eq!(integer_sqrt(1), 1);
    assert_eq!(integer_sqrt(3), 1);
    assert_eq!(integer_sqrt(4), 2);
    assert_eq!(integer_sqrt(400_000_000), 20000);
    assert_eq!(integer_sqrt(399_999_999), 19999);
    assert_eq!(integer_sqrt(u128::MAX), u64::MAX);
}

#[test]
fn swap_output_formula_values() {
    assert_eq!(calculate_swap_output(1000, 1_000_000, 1_000_000, 30), Some(996));
    assert_eq!(calculate_swap_output(1000, 1_000_000, 1_000_000, 0), Some(999));
    assert_eq!(calculate_swap_output(0, 1_000_000, 1_000_000, 30), Some(0));
    assert_eq!(calculate_swap_output(u64::MAX, 1, 1000, 30), Some(999));
}

#[test]
fn redemption_formula_values() {
    assert_eq!(tokens_for_shares(1, 10, 3), 3);
    assert_eq!(tokens_for_shares(3, 10, 3), 10);
    assert_eq!(tokens_for_shares(u64::MAX, u64::MAX, u64::MAX), u64::MAX);
}

#[test]
fn well_formedness_check() {
    let mut pool = funded_pool(10, 10, 30);
    assert!(pool.is_well_formed());
    pool.token_a_reserves = 0;
    assert!(!pool.is_well_formed());
    let mut bad_fee = new_pool(30);
    bad_fee.fee_rate = 10000;
    assert!(!bad_fee.is_well_formed());
}

#[test]
fn pubkey_comparison() {
    assert!(key(1).same_as(&key(1)));
    let mut bytes = [1u8; 32];
    bytes[31] = 2;
    assert!(!key(1).same_as(&Pubkey::new(bytes)));
}
