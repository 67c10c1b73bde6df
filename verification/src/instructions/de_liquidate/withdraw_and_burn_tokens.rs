use vstd::prelude::*;

use crate::error::CustomError;
use crate::math::{calculate_reserves_amount, reserves_for_burn};
use crate::state::{LiquidityProvider, LpToken, Pool};

verus! {

/// The records that a withdrawal reads and changes.
#[derive(Debug, Clone, Copy)]
pub struct DeLiquidateWithdrawAccount {
    pub pool_account: Pool,
    pub liquidity_provider_account: LiquidityProvider,
    pub lptoken_account: LpToken,
}

/// The record that burning liquidity-provider tokens changes.
#[derive(Debug, Clone, Copy)]
pub struct DeLiquidateBurnAccount {
    pub lptoken_account: LpToken,
}

/// The amounts of token A and token B that a withdrawal against `amount`
/// liquidity pays out, or the error that refuses it. The provider must hold
/// both tokens in the pool and `amount` must be at most the provider's
/// credited liquidity; the payout is the pro-rata share of each reserve.
pub open spec fn withdraw_amounts(
    pool: Pool,
    provider: LiquidityProvider,
    lptoken: LpToken,
    amount: u64,
) -> Result<(u64, u64), CustomError> {
    if !(provider.reserve_a_amount > 0 && provider.reserve_b_amount > 0) {
        Err(CustomError::FoundReserveTokensNull)
    } else if amount > provider.token_amount {
        Err(CustomError::LpTokenBurnAmountNotSatisfied)
    } else {
        reserves_for_burn(
            pool.reserve_a_amount as int,
            pool.reserve_b_amount as int,
            amount as int,
            lptoken.total_liquidity as int,
        )
    }
}

/// Whether a withdrawal runs without an arithmetic fault: what it pays out
/// must not exceed either the provider's deposited amounts or the pool's
/// reserves.
pub open spec fn withdraw_computable(ctx: DeLiquidateWithdrawAccount, amount: u64) -> bool {
    withdraw_amounts(
        ctx.pool_account,
        ctx.liquidity_provider_account,
        ctx.lptoken_account,
        amount,
    ) matches Ok((out_a, out_b)) ==> {
        &&& out_a <= ctx.liquidity_provider_account.reserve_a_amount
        &&& out_b <= ctx.liquidity_provider_account.reserve_b_amount
        &&& out_a <= ctx.pool_account.reserve_a_amount
        &&& out_b <= ctx.pool_account.reserve_b_amount
    }
}

/// Whether `process_withdraw` may be called with this amount (see
/// `withdraw_computable`).
pub fn withdraw_is_computable(ctx: &DeLiquidateWithdrawAccount, amount: u64) -> (ok: bool)
    ensures
        ok == withdraw_computable(*ctx, amount),
{
    let provider = ctx.liquidity_provider_account;
    if !(provider.reserve_a_amount > 0 && provider.reserve_b_amount > 0) {
        return true;
    }
    if amount > provider.token_amount {
        return true;
    }
    match calculate_reserves_amount(
        ctx.pool_account.reserve_a_amount as u128,
        ctx.pool_account.reserve_b_amount as u128,
        amount,
        ctx.lptoken_account.total_liquidity as u128,
    ) {
        Ok((out_a, out_b)) => out_a <= provider.reserve_a_amount && out_b
            <= provider.reserve_b_amount && out_a <= ctx.pool_account.reserve_a_amount && out_b
            <= ctx.pool_account.reserve_b_amount,
        Err(_) => true,
    }
}

/// What counts as minted against a provider's credit after it withdraws
/// `amount`: the credit that was never minted is redeemed first, so the minted
/// figure only falls where it would otherwise exceed the remaining credit.
pub open spec fn minted_after_withdraw(provider: LiquidityProvider, amount: u64) -> u64 {
    let remaining = provider.token_amount - amount;
    if provider.minted_amount <= remaining {
        provider.minted_amount
    } else {
        remaining as u64
    }
}

/// A withdrawal against `amount` liquidity. On success it returns the amounts
/// of token A and token B to pay out, takes them off both the provider's
/// deposited amounts and the pool's reserves, and takes `amount` off the
/// provider's credited liquidity; on an error nothing changes.
/// The token transfers themselves are made by the caller.
pub fn process_withdraw(ctx: &mut DeLiquidateWithdrawAccount, amount: u64) -> (res: Result<
    (u64, u64),
    CustomError,
>)
    requires
        withdraw_computable(*old(ctx), amount),
    ensures
        res == withdraw_amounts(
            old(ctx).pool_account,
            old(ctx).liquidity_provider_account,
            old(ctx).lptoken_account,
            amount,
        ),
        res matches Ok((out_a, out_b)) ==> {
            &&& final(ctx).liquidity_provider_account == (LiquidityProvider {
                reserve_a_amount: (old(ctx).liquidity_provider_account.reserve_a_amount
                    - out_a) as u64,
                reserve_b_amount: (old(ctx).liquidity_provider_account.reserve_b_amount
                    - out_b) as u64,
                token_amount: (old(ctx).liquidity_provider_account.token_amount - amount) as u64,
                minted_amount: minted_after_withdraw(old(ctx).liquidity_provider_account, amount),
                ..old(ctx).liquidity_provider_account
            })
            &&& final(ctx).pool_account == (Pool {
                reserve_a_amount: (old(ctx).pool_account.reserve_a_amount - out_a) as u64,
                reserve_b_amount: (old(ctx).pool_account.reserve_b_amount - out_b) as u64,
                ..old(ctx).pool_account
            })
            &&& final(ctx).lptoken_account == old(ctx).lptoken_account
        },
        res is Err ==> *final(ctx) == *old(ctx),
        res is Ok ==> final(ctx).liquidity_provider_account.minted_within_credit(),
{
    let provider = ctx.liquidity_provider_account;
    if !(provider.reserve_a_amount > 0 && provider.reserve_b_amount > 0) {
        return Err(CustomError::FoundReserveTokensNull);
    }
    if amount > provider.token_amount {
        return Err(CustomError::LpTokenBurnAmountNotSatisfied);
    }
    let reserve_a_amount = ctx.pool_account.reserve_a_amount as u128;
    let reserve_b_amount = ctx.pool_account.reserve_b_amount as u128;
    let total_liquidity = ctx.lptoken_account.total_liquidity as u128;
    let (amount_a, amount_b) = calculate_reserves_amount(
        reserve_a_amount,
        reserve_b_amount,
        amount,
        total_liquidity,
    )?;
    ctx.liquidity_provider_account.reserve_a_amount = ctx.liquidity_provider_account.reserve_a_amount
        - amount_a;
    ctx.liquidity_provider_account.reserve_b_amount = ctx.liquidity_provider_account.reserve_b_amount
        - amount_b;
    let remaining = ctx.liquidity_provider_account.token_amount - amount;
    ctx.liquidity_provider_account.token_amount = remaining;
    if ctx.liquidity_provider_account.minted_amount > remaining {
        ctx.liquidity_provider_account.minted_amount = remaining;
    }
    ctx.pool_account.reserve_a_amount = ctx.pool_account.reserve_a_amount - amount_a;
    ctx.pool_account.reserve_b_amount = ctx.pool_account.reserve_b_amount - amount_b;
    Ok((amount_a, amount_b))
}

/// The liquidity-provider token record after `amount` tokens are burned.
pub open spec fn lptoken_after_burn(lptoken: LpToken, amount: u64) -> LpToken {
    LpToken { total_liquidity: (lptoken.total_liquidity - amount) as u64, ..lptoken }
}

/// Records `amount` burned liquidity-provider tokens: the recorded total
/// liquidity shrinks by the amount. The burning itself is done by the caller.
pub fn process_burn(ctx: &mut DeLiquidateBurnAccount, amount: u64)
    requires
        amount <= old(ctx).lptoken_account.total_liquidity,
    ensures
        final(ctx).lptoken_account == lptoken_after_burn(old(ctx).lptoken_account, amount),
{
    ctx.lptoken_account.total_liquidity = ctx.lptoken_account.total_liquidity - amount;
}

} // verus!
