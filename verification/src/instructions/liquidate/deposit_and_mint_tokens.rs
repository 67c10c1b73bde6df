use vstd::prelude::*;

use crate::error::CustomError;
use crate::math::{
    check_token_ratio, first_provider_liquidity, floor_sqrt, further_provider_liquidity,
    minted_liquidity, token_ratio_check,
};
use crate::state::{LiquidityProvider, LpToken, Pool};

verus! {

/// The records that a deposit reads and changes.
#[derive(Debug, Clone, Copy)]
pub struct LiquidateDepositAccount {
    pub pool_account: Pool,
    pub lptoken_account: LpToken,
    pub liquidity_provider_account: LiquidityProvider,
}

/// The records that minting liquidity-provider tokens reads and changes.
#[derive(Debug, Clone, Copy)]
pub struct LiquidateMintTokenAccount {
    pub lptoken_account: LpToken,
    pub liquidity_provider_account: LiquidityProvider,
}

/// Whether a deposit by an initialized provider gets past the ratio check:
/// always for the pool's first deposit, otherwise when the amounts are in the
/// pool's ratio.
pub open spec fn deposit_ratio_accepted(
    pool: Pool,
    provider: LiquidityProvider,
    amount_a: u64,
    amount_b: u64,
) -> bool {
    provider.is_initialized && (pool.first_liquidity_deposit || token_ratio_check(
        amount_a as int,
        amount_b as int,
        pool.reserve_a_amount as int,
        pool.reserve_b_amount as int,
    ) is Ok)
}

/// The liquidity that a deposit of `amount_a` and `amount_b` credits to the
/// provider, or the error that refuses the deposit. The provider's record
/// must be initialized (else `InvalidAccountData`). The first deposit is
/// credited the integer square root of the product of the amounts; a later
/// one must be in the pool's ratio and is credited its proportional share.
pub open spec fn deposit_liquidity(
    pool: Pool,
    lptoken: LpToken,
    provider: LiquidityProvider,
    amount_a: u64,
    amount_b: u64,
) -> Result<u64, CustomError> {
    if !provider.is_initialized {
        Err(CustomError::InvalidAccountData)
    } else if pool.first_liquidity_deposit {
        Ok(floor_sqrt((amount_a * amount_b) as nat) as u64)
    } else {
        match token_ratio_check(
            amount_a as int,
            amount_b as int,
            pool.reserve_a_amount as int,
            pool.reserve_b_amount as int,
        ) {
            Err(e) => Err(e),
            Ok(_) => minted_liquidity(
                amount_a as int,
                amount_b as int,
                pool.reserve_a_amount as int,
                pool.reserve_b_amount as int,
                lptoken.total_liquidity as int,
            ),
        }
    }
}

/// Whether a deposit runs without an arithmetic fault: a later deposit needs
/// a non-empty reserve B to form the ratio; an accepted deposit must not push
/// the pool's reserves past 64 bits; a credited deposit must not push the
/// provider's record past 64 bits.
pub open spec fn deposit_computable(
    ctx: LiquidateDepositAccount,
    amount_a_token: u64,
    amount_b_token: u64,
) -> bool {
    &&& ctx.liquidity_provider_account.is_initialized
        && !ctx.pool_account.first_liquidity_deposit ==> ctx.pool_account.reserve_b_amount != 0
    &&& deposit_ratio_accepted(
        ctx.pool_account,
        ctx.liquidity_provider_account,
        amount_a_token,
        amount_b_token,
    ) ==> {
        &&& ctx.pool_account.reserve_a_amount + amount_a_token <= u64::MAX
        &&& ctx.pool_account.reserve_b_amount + amount_b_token <= u64::MAX
    }
    &&& deposit_liquidity(
        ctx.pool_account,
        ctx.lptoken_account,
        ctx.liquidity_provider_account,
        amount_a_token,
        amount_b_token,
    ) matches Ok(liquidity) ==> {
        &&& ctx.liquidity_provider_account.token_amount + liquidity <= u64::MAX
        &&& ctx.liquidity_provider_account.reserve_a_amount + amount_a_token <= u64::MAX
        &&& ctx.liquidity_provider_account.reserve_b_amount + amount_b_token <= u64::MAX
    }
}

/// Whether `process_deposit` may be called with these amounts (see
/// `deposit_computable`).
pub fn deposit_is_computable(
    ctx: &LiquidateDepositAccount,
    amount_a_token: u64,
    amount_b_token: u64,
) -> (ok: bool)
    ensures
        ok == deposit_computable(*ctx, amount_a_token, amount_b_token),
{
    if !ctx.liquidity_provider_account.is_initialized {
        return true;
    }
    let pool = ctx.pool_account;
    let first = pool.first_liquidity_deposit;
    if !first && pool.reserve_b_amount == 0 {
        return false;
    }
    let ratio = if first {
        Ok(())
    } else {
        check_token_ratio(
            amount_a_token as u128,
            amount_b_token as u128,
            pool.reserve_a_amount as u128,
            pool.reserve_b_amount as u128,
        )
    };
    if ratio.is_err() {
        return true;
    }
    if pool.reserve_a_amount.checked_add(amount_a_token).is_none()
        || pool.reserve_b_amount.checked_add(amount_b_token).is_none() {
        return false;
    }
    let liquidity = if first {
        assert(amount_a_token as u128 * amount_b_token as u128 <= u128::MAX) by (nonlinear_arith)
            requires
                amount_a_token <= u64::MAX,
                amount_b_token <= u64::MAX,
        ;
        first_provider_liquidity(amount_a_token as u128, amount_b_token as u128)
    } else {
        further_provider_liquidity(
            amount_a_token as u128,
            amount_b_token as u128,
            pool.reserve_a_amount as u128,
            pool.reserve_b_amount as u128,
            ctx.lptoken_account.total_liquidity as u128,
        )
    };
    match liquidity {
        Ok(l) => {
            let provider = ctx.liquidity_provider_account;
            provider.token_amount.checked_add(l).is_some()
                && provider.reserve_a_amount.checked_add(amount_a_token).is_some()
                && provider.reserve_b_amount.checked_add(amount_b_token).is_some()
        },
        Err(_) => true,
    }
}

/// A deposit of `amount_a_token` of token A and `amount_b_token` of token B
/// by an initialized provider.
/// On success the pool's reserves and the provider's deposited amounts grow
/// by the two amounts and the provider is credited the liquidity of
/// `deposit_liquidity`; on an error nothing changes. The token transfers
/// themselves are made by the caller.
pub fn process_deposit(ctx: &mut LiquidateDepositAccount, amount_a_token: u64, amount_b_token: u64)
    -> (res: Result<(), CustomError>)
    requires
        deposit_computable(*old(ctx), amount_a_token, amount_b_token),
    ensures
        match deposit_liquidity(
            old(ctx).pool_account,
            old(ctx).lptoken_account,
            old(ctx).liquidity_provider_account,
            amount_a_token,
            amount_b_token,
        ) {
            Ok(liquidity) => {
                &&& res is Ok
                &&& final(ctx).pool_account == (Pool {
                    reserve_a_amount: (old(ctx).pool_account.reserve_a_amount
                        + amount_a_token) as u64,
                    reserve_b_amount: (old(ctx).pool_account.reserve_b_amount
                        + amount_b_token) as u64,
                    ..old(ctx).pool_account
                })
                &&& final(ctx).lptoken_account == old(ctx).lptoken_account
                &&& final(ctx).liquidity_provider_account == (LiquidityProvider {
                    token_amount: (old(ctx).liquidity_provider_account.token_amount
                        + liquidity) as u64,
                    reserve_a_amount: (old(ctx).liquidity_provider_account.reserve_a_amount
                        + amount_a_token) as u64,
                    reserve_b_amount: (old(ctx).liquidity_provider_account.reserve_b_amount
                        + amount_b_token) as u64,
                    ..old(ctx).liquidity_provider_account
                })
            },
            Err(e) => res == Err::<(), CustomError>(e) && *final(ctx) == *old(ctx),
        },
        final(ctx).liquidity_provider_account.minted_within_credit()
            <== old(ctx).liquidity_provider_account.minted_within_credit(),
{
    if !ctx.liquidity_provider_account.is_initialized {
        return Err(CustomError::InvalidAccountData);
    }
    let reserve_a_amount = ctx.pool_account.reserve_a_amount;
    let reserve_b_amount = ctx.pool_account.reserve_b_amount;
    let first = ctx.pool_account.first_liquidity_deposit;
    if !first {
        check_token_ratio(
            amount_a_token as u128,
            amount_b_token as u128,
            reserve_a_amount as u128,
            reserve_b_amount as u128,
        )?;
    }
    let total_liquidity = ctx.lptoken_account.total_liquidity;
    let token_amount = if first {
        assert(amount_a_token as u128 * amount_b_token as u128 <= u128::MAX) by (nonlinear_arith)
            requires
                amount_a_token <= u64::MAX,
                amount_b_token <= u64::MAX,
        ;
        match first_provider_liquidity(amount_a_token as u128, amount_b_token as u128) {
            Ok(v) => v,
            Err(e) => {
                return Err(e);
            },
        }
    } else {
        further_provider_liquidity(
            amount_a_token as u128,
            amount_b_token as u128,
            reserve_a_amount as u128,
            reserve_b_amount as u128,
            total_liquidity as u128,
        )?
    };
    ctx.pool_account.reserve_a_amount = reserve_a_amount + amount_a_token;
    ctx.pool_account.reserve_b_amount = reserve_b_amount + amount_b_token;
    let provider = &mut ctx.liquidity_provider_account;
    provider.token_amount = provider.token_amount + token_amount;
    provider.reserve_a_amount = provider.reserve_a_amount + amount_a_token;
    provider.reserve_b_amount = provider.reserve_b_amount + amount_b_token;
    Ok(())
}

/// The liquidity-provider token record after `amount` tokens are minted at
/// time `now`: the total liquidity grows by the amount.
pub open spec fn lptoken_after_mint(lptoken: LpToken, amount: u64, now: i64) -> LpToken {
    LpToken {
        total_liquidity: (lptoken.total_liquidity + amount) as u64,
        last_update_ts: now,
        ..lptoken
    }
}

/// Records `amount` newly minted liquidity-provider tokens for the depositor,
/// who may be minted no more than the liquidity credited to it: what was
/// already minted against its credit plus `amount` must not exceed the
/// credit, or the mint is refused with `LpTokenMintAmountNotSatisfied` and
/// nothing changes. On success the amount counts as minted against the credit
/// and joins the total liquidity. The minting itself is done by the caller.
pub fn process_mint_tokens(ctx: &mut LiquidateMintTokenAccount, amount: u64, now: i64) -> (res:
    Result<(), CustomError>)
    requires
        old(ctx).lptoken_account.total_liquidity + amount <= u64::MAX,
    ensures
        res is Ok <==> old(ctx).liquidity_provider_account.minted_amount + amount
            <= old(ctx).liquidity_provider_account.token_amount,
        res is Ok ==> *final(ctx) == (LiquidateMintTokenAccount {
            lptoken_account: lptoken_after_mint(old(ctx).lptoken_account, amount, now),
            liquidity_provider_account: LiquidityProvider {
                minted_amount: (old(ctx).liquidity_provider_account.minted_amount
                    + amount) as u64,
                ..old(ctx).liquidity_provider_account
            },
        }),
        res matches Err(e) ==> e == CustomError::LpTokenMintAmountNotSatisfied && *final(ctx)
            == *old(ctx),
        final(ctx).liquidity_provider_account.minted_within_credit()
            <== old(ctx).liquidity_provider_account.minted_within_credit(),
{
    let credited = ctx.liquidity_provider_account.token_amount;
    let minted = match ctx.liquidity_provider_account.minted_amount.checked_add(amount) {
        Some(minted) => {
            if minted > credited {
                return Err(CustomError::LpTokenMintAmountNotSatisfied);
            }
            minted
        },
        None => {
            return Err(CustomError::LpTokenMintAmountNotSatisfied);
        },
    };
    ctx.liquidity_provider_account.minted_amount = minted;
    ctx.lptoken_account.total_liquidity = ctx.lptoken_account.total_liquidity + amount;
    ctx.lptoken_account.last_update_ts = now;
    Ok(())
}

} // verus!
