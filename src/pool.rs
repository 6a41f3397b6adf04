use vstd::prelude::*;

verus! {

/// A 32-byte account address.
#[derive(Clone, Copy, Debug, PartialEq, Eq)]
pub struct Pubkey {
    pub bytes: [u8; 32],
}

impl Pubkey {
    /// The address with the given bytes.
    pub fn new(bytes: [u8; 32]) -> (r: Pubkey)
        ensures
            r.bytes == bytes,
    {
        Pubkey { bytes }
    }

    /// Byte-wise equality of two addresses.
    pub fn same_as(&self, other: &Pubkey) -> (r: bool)
        ensures
            r == (self.bytes@ == other.bytes@),
    {
        let mut i: usize = 0;
        while i < 32
            invariant
                0 <= i <= 32,
                self.bytes@.len() == 32,
                other.bytes@.len() == 32,
                forall|j: int| 0 <= j < i ==> self.bytes@[j] == other.bytes@[j],
            decreases 32 - i,
        {
            if self.bytes[i] != other.bytes[i] {
                return false;
            }
            i = i + 1;
        }
        assert(self.bytes@ =~= other.bytes@);
        true
    }
}

/// Why an operation on a pool was refused. A refused operation leaves the pool unchanged.
#[derive(Clone, Copy, Debug, PartialEq, Eq, Structural)]
pub enum AmmError {
    PoolInactive,
    InvalidAmount,
    InsufficientLpTokens,
    InsufficientLiquidity,
    InsufficientTokenA,
    InsufficientTokenB,
    InsufficientOutputAmount,
    Unauthorized,
    InvalidPool,
    InvalidTokenAccount,
    ArithmeticOverflow,
}

/// The state of one two-asset constant-product pool.
#[derive(Clone, Copy, Debug)]
pub struct Pool {
    pub authority: Pubkey,
    pub token_a_mint: Pubkey,
    pub token_b_mint: Pubkey,
    pub token_a_vault: Pubkey,
    pub token_b_vault: Pubkey,
    pub lp_mint: Pubkey,
    /// Fee in basis points, below 10000.
    pub fee_rate: u64,
    /// Outstanding liquidity-provider shares.
    pub total_liquidity: u64,
    pub token_a_reserves: u64,
    pub token_b_reserves: u64,
    pub pool_bump: u8,
    pub is_active: bool,
}

impl Pool {
    /// The pool's invariant: a valid fee, two distinct assets, and a pool that is either
    /// empty (no shares, no reserves) or funded (shares and both reserves positive).
    pub open spec fn wf(self) -> bool {
        &&& self.fee_rate < 10000
        &&& self.token_a_mint.bytes@ != self.token_b_mint.bytes@
        &&& self.total_liquidity == 0 ==> self.token_a_reserves == 0 && self.token_b_reserves == 0
        &&& self.total_liquidity > 0 ==> self.token_a_reserves > 0 && self.token_b_reserves > 0
    }

    /// Checks the invariant `wf` on a pool read from storage.
    pub fn is_well_formed(&self) -> (r: bool)
        ensures
            r == self.wf(),
    {
        let zero_ok = self.total_liquidity != 0 || (self.token_a_reserves == 0 && self.token_b_reserves == 0);
        let funded_ok = self.total_liquidity == 0 || (self.token_a_reserves > 0 && self.token_b_reserves > 0);
        self.fee_rate < 10000 && !self.token_a_mint.same_as(&self.token_b_mint) && zero_ok && funded_ok
    }
}

/// Record of a pool creation.
#[derive(Clone, Copy, Debug, PartialEq, Eq)]
pub struct PoolInitialized {
    pub pool: Pubkey,
    pub token_a_mint: Pubkey,
    pub token_b_mint: Pubkey,
    pub authority: Pubkey,
    pub fee_rate: u64,
}

/// Record of a deposit.
#[derive(Clone, Copy, Debug, PartialEq, Eq)]
pub struct LiquidityAdded {
    pub pool: Pubkey,
    pub user: Pubkey,
    pub token_a_amount: u64,
    pub token_b_amount: u64,
    pub lp_tokens_minted: u64,
}

/// Record of a withdrawal.
#[derive(Clone, Copy, Debug, PartialEq, Eq)]
pub struct LiquidityRemoved {
    pub pool: Pubkey,
    pub user: Pubkey,
    pub lp_tokens_burned: u64,
    pub token_a_amount: u64,
    pub token_b_amount: u64,
}

/// Record of a trade.
#[derive(Clone, Copy, Debug, PartialEq, Eq)]
pub struct SwapExecuted {
    pub pool: Pubkey,
    pub user: Pubkey,
    pub token_in: Pubkey,
    pub token_out: Pubkey,
    pub amount_in: u64,
    pub amount_out: u64,
    /// Part of `amount_in` withheld as fee, rounded down.
    pub fee: u64,
}

/// What `initialize_pool` decides: an empty, active pool, or why it is refused.
pub open spec fn initialize_outcome(
    authority: Pubkey,
    token_a_mint: Pubkey,
    token_b_mint: Pubkey,
    token_a_vault: Pubkey,
    token_b_vault: Pubkey,
    lp_mint: Pubkey,
    pool_bump: u8,
    fee_rate: u64,
) -> Result<Pool, AmmError> {
    if token_a_mint.bytes@ == token_b_mint.bytes@ {
        Err(AmmError::InvalidPool)
    } else if fee_rate >= 10000 {
        Err(AmmError::InvalidAmount)
    } else {
        Ok(
            Pool {
                authority,
                token_a_mint,
                token_b_mint,
                token_a_vault,
                token_b_vault,
                lp_mint,
                fee_rate,
                total_liquidity: 0,
                token_a_reserves: 0,
                token_b_reserves: 0,
                pool_bump,
                is_active: true,
            },
        )
    }
}

/// Creates an empty, active pool for two distinct assets with a fee below 10000 basis points.
pub fn initialize_pool(
    pool_key: Pubkey,
    authority: Pubkey,
    token_a_mint: Pubkey,
    token_b_mint: Pubkey,
    token_a_vault: Pubkey,
    token_b_vault: Pubkey,
    lp_mint: Pubkey,
    pool_bump: u8,
    fee_rate: u64,
) -> (r: Result<(Pool, PoolInitialized), AmmError>)
    ensures
        match initialize_outcome(
            authority,
            token_a_mint,
            token_b_mint,
            token_a_vault,
            token_b_vault,
            lp_mint,
            pool_bump,
            fee_rate,
        ) {
            Ok(p) => r == Ok::<(Pool, PoolInitialized), AmmError>(
                (p, PoolInitialized { pool: pool_key, token_a_mint, token_b_mint, authority, fee_rate }),
            ),
            Err(e) => r == Err::<(Pool, PoolInitialized), AmmError>(e),
        },
        r matches Ok((p, _)) ==> p.wf(),
{
    if token_a_mint.same_as(&token_b_mint) {
        return Err(AmmError::InvalidPool);
    }
    if fee_rate >= 10000 {
        return Err(AmmError::InvalidAmount);
    }
    let pool = Pool {
        authority,
        token_a_mint,
        token_b_mint,
        token_a_vault,
        token_b_vault,
        lp_mint,
        fee_rate,
        total_liquidity: 0,
        token_a_reserves: 0,
        token_b_reserves: 0,
        pool_bump,
        is_active: true,
    };
    let event = PoolInitialized { pool: pool_key, token_a_mint, token_b_mint, authority, fee_rate };
    Ok((pool, event))
}

/// Pauses or resumes a pool; only its authority may do so.
pub fn set_pool_status(pool: &mut Pool, signer: Pubkey, is_active: bool) -> (r: Result<(), AmmError>)
    requires
        old(pool).wf(),
    ensures
        final(pool).wf(),
        signer.bytes@ == old(pool).authority.bytes@ ==> r is Ok && *final(pool) == (Pool { is_active, ..*old(pool) }),
        signer.bytes@ != old(pool).authority.bytes@ ==> r == Err::<(), AmmError>(AmmError::Unauthorized)
            && *final(pool) == *old(pool),
{
    if !pool.authority.same_as(&signer) {
        return Err(AmmError::Unauthorized);
    }
    pool.is_active = is_active;
    Ok(())
}

} // verus!
