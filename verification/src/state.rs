use vstd::prelude::*;

verus! {

/// A 32-byte account address, split into two 128-bit halves: `high` holds
/// the first sixteen bytes and `low` the last sixteen, each read big-endian.
#[derive(Debug, Clone, Copy, PartialEq, Eq, Structural)]
pub struct Address {
    pub high: u128,
    pub low: u128,
}

/// A liquidity pool for one pair of token mints.
#[derive(Debug, Clone, Copy)]
pub struct Pool {
    pub authority: Address,
    pub reserve_a_mint: Address,
    pub reserve_b_mint: Address,
    pub reserve_a_token: Address,
    pub reserve_b_token: Address,
    pub fee_bps: u16,
    pub last_update_ts: i64,
    pub bump: u8,
    pub first_liquidity_deposit: bool,
    pub reserve_a_amount: u64,
    pub reserve_b_amount: u64,
}

/// The record of the liquidity-provider token of a pool.
#[derive(Debug, Clone, Copy)]
pub struct LpToken {
    pub total_liquidity: u64,
    pub lp_mint: Address,
    pub bump: u8,
    pub total_fees: u64,
    pub last_update_ts: i64,
}

/// What one liquidity provider has put into a pool: the amounts deposited,
/// the liquidity credited for them (`token_amount`), and how much of that
/// credit has been minted as liquidity-provider tokens (`minted_amount`).
#[derive(Debug, Clone, Copy)]
pub struct LiquidityProvider {
    pub liquidator: Address,
    pub reserve_a_amount: u64,
    pub reserve_b_amount: u64,
    pub token_amount: u64,
    pub minted_amount: u64,
    pub liquidator_acc_bump: u8,
    pub is_initialized: bool,
}

impl LiquidityProvider {
    /// No more liquidity-provider tokens have been minted than were credited.
    pub open spec fn minted_within_credit(self) -> bool {
        self.minted_amount <= self.token_amount
    }
}

} // verus!
