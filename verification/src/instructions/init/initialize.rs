use vstd::prelude::*;

use crate::error::CustomError;
use crate::state::{Address, LiquidityProvider, LpToken, Pool};

verus! {

/// The accounts of pool creation: who pays, the two mints the pool trades,
/// and the freshly allocated pool record.
#[derive(Debug, Clone, Copy)]
pub struct PoolAccount {
    pub payer: Address,
    pub reserve_a_mint: Address,
    pub reserve_b_mint: Address,
    pub pool_account: Pool,
}

/// The accounts that attach the pool's reserve account for token A.
#[derive(Debug, Clone, Copy)]
pub struct InitReserveA {
    pub payer: Address,
    pub reserve_a_mint: Address,
    pub reserve_b_mint: Address,
    pub pool_account: Pool,
    pub reserve_a_account: Address,
}

/// The accounts that attach the pool's reserve account for token B.
#[derive(Debug, Clone, Copy)]
pub struct InitReserveB {
    pub payer: Address,
    pub pool_account: Pool,
    pub reserve_b_mint: Address,
    pub reserve_b_account: Address,
}

/// The accounts that create a liquidity provider's record.
#[derive(Debug, Clone, Copy)]
pub struct LiquidityProviderAccount {
    pub payer: Address,
    pub liquidity_provider_account: LiquidityProvider,
}

/// The accounts that create the liquidity-provider token and its record.
#[derive(Debug, Clone, Copy)]
pub struct LpTokenAccount {
    pub payer: Address,
    pub lp_token_mint: Address,
    pub lp_token_account: LpToken,
}

/// Fills in a new pool: its authority is the payer, it trades the two given
/// mints at `fee_bps` basis points, it holds no reserves yet, and it records
/// `now` as its last update.
pub fn process_init_pool(ctx: &mut PoolAccount, pool_account_bump: u8, now: i64, fee_bps: u16)
    ensures
        final(ctx).pool_account == (Pool {
            authority: old(ctx).payer,
            bump: pool_account_bump,
            fee_bps,
            last_update_ts: now,
            reserve_a_mint: old(ctx).reserve_a_mint,
            reserve_b_mint: old(ctx).reserve_b_mint,
            reserve_a_amount: 0,
            reserve_b_amount: 0,
            ..old(ctx).pool_account
        }),
        final(ctx).payer == old(ctx).payer,
        final(ctx).reserve_a_mint == old(ctx).reserve_a_mint,
        final(ctx).reserve_b_mint == old(ctx).reserve_b_mint,
{
    let payer = ctx.payer;
    let reserve_a_mint = ctx.reserve_a_mint;
    let reserve_b_mint = ctx.reserve_b_mint;
    let pool_account = &mut ctx.pool_account;
    pool_account.authority = payer;
    pool_account.bump = pool_account_bump;
    pool_account.fee_bps = fee_bps;
    pool_account.last_update_ts = now;
    pool_account.reserve_a_mint = reserve_a_mint;
    pool_account.reserve_b_mint = reserve_b_mint;
    pool_account.reserve_a_amount = 0;
    pool_account.reserve_b_amount = 0;
}

/// Records the reserve account for token A, provided the mint handed in is
/// the pool's mint A; otherwise fails with `InvalidAccountData` and changes
/// nothing.
pub fn process_init_reserve_a(ctx: &mut InitReserveA) -> (res: Result<(), CustomError>)
    ensures
        res is Ok <==> old(ctx).pool_account.reserve_a_mint == old(ctx).reserve_a_mint,
        res is Ok ==> *final(ctx) == (InitReserveA {
            pool_account: Pool {
                reserve_a_token: old(ctx).reserve_a_account,
                ..old(ctx).pool_account
            },
            ..*old(ctx)
        }),
        res matches Err(e) ==> e == CustomError::InvalidAccountData && *final(ctx) == *old(ctx),
{
    if ctx.pool_account.reserve_a_mint != ctx.reserve_a_mint {
        return Err(CustomError::InvalidAccountData);
    }
    ctx.pool_account.reserve_a_token = ctx.reserve_a_account;
    Ok(())
}

/// Records the reserve account for token B, provided the mint handed in is
/// the pool's mint B; otherwise fails with `InvalidAccountData` and changes
/// nothing.
pub fn process_init_reserve_b(ctx: &mut InitReserveB) -> (res: Result<(), CustomError>)
    ensures
        res is Ok <==> old(ctx).pool_account.reserve_b_mint == old(ctx).reserve_b_mint,
        res is Ok ==> *final(ctx) == (InitReserveB {
            pool_account: Pool {
                reserve_b_token: old(ctx).reserve_b_account,
                ..old(ctx).pool_account
            },
            ..*old(ctx)
        }),
        res matches Err(e) ==> e == CustomError::InvalidAccountData && *final(ctx) == *old(ctx),
{
    if ctx.pool_account.reserve_b_mint != ctx.reserve_b_mint {
        return Err(CustomError::InvalidAccountData);
    }
    ctx.pool_account.reserve_b_token = ctx.reserve_b_account;
    Ok(())
}

/// Initializes a liquidity provider's record for the payer, with nothing
/// deposited; a record that is already initialized is left as it is.
pub fn process_init_liquidity_provider(
    ctx: &mut LiquidityProviderAccount,
    liquidity_provider_account_bump: u8,
)
    ensures
        final(ctx).payer == old(ctx).payer,
        old(ctx).liquidity_provider_account.is_initialized ==> *final(ctx) == *old(ctx),
        !old(ctx).liquidity_provider_account.is_initialized ==> final(ctx).liquidity_provider_account
            == (LiquidityProvider {
            liquidator: old(ctx).payer,
            reserve_a_amount: 0,
            reserve_b_amount: 0,
            token_amount: 0,
            minted_amount: 0,
            liquidator_acc_bump: liquidity_provider_account_bump,
            is_initialized: true,
        }),
{
    if !ctx.liquidity_provider_account.is_initialized {
        ctx.liquidity_provider_account = LiquidityProvider {
            liquidator: ctx.payer,
            reserve_a_amount: 0,
            reserve_b_amount: 0,
            token_amount: 0,
            minted_amount: 0,
            liquidator_acc_bump: liquidity_provider_account_bump,
            is_initialized: true,
        };
    }
}

/// Fills in the liquidity-provider token record: no liquidity and no fees
/// yet, the given mint, and the mint's bump.
pub fn process_init_lp_token_account(ctx: &mut LpTokenAccount, lp_token_mint_bump: u8)
    ensures
        final(ctx).payer == old(ctx).payer,
        final(ctx).lp_token_mint == old(ctx).lp_token_mint,
        final(ctx).lp_token_account == (LpToken {
            total_fees: 0,
            total_liquidity: 0,
            lp_mint: old(ctx).lp_token_mint,
            bump: lp_token_mint_bump,
            ..old(ctx).lp_token_account
        }),
{
    let lp_token_mint = ctx.lp_token_mint;
    let lp_token_account = &mut ctx.lp_token_account;
    lp_token_account.total_fees = 0;
    lp_token_account.total_liquidity = 0;
    lp_token_account.lp_mint = lp_token_mint;
    lp_token_account.bump = lp_token_mint_bump;
}

} // verus!
