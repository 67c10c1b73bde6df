use vstd::prelude::*;

use crate::error::CustomError;
use crate::math::{
    amount_after_fee, lemma_swap_output_keeps_invariant, pool_invariant, swap_calculation,
    swap_output,
};
use crate::state::{Address, LpToken, Pool};

verus! {

/// The mints and the records that a swap reads and changes.
#[derive(Debug, Clone, Copy)]
pub struct SwapTokens {
    pub payer_source_token_mint: Address,
    pub payer_destination_token_mint: Address,
    pub reserve_a_mint: Address,
    pub reserve_b_mint: Address,
    pub pool_account: Pool,
    pub lptoken_account: LpToken,
}

/// The transfers that a swap makes: the source amount goes into the source
/// reserve (token A's when `source_is_reserve_a`, else token B's), and
/// `destination_amount` comes out of the other reserve.
#[derive(Debug, Clone, Copy, PartialEq, Eq, Structural)]
pub struct SwapTransfer {
    pub source_is_reserve_a: bool,
    pub source_amount: u64,
    pub destination_amount: u64,
}

/// Whether the swap's mints are the pool's pair, in either order.
pub open spec fn swap_mints_match(ctx: SwapTokens) -> bool {
    let a = ctx.pool_account.reserve_a_mint;
    let b = ctx.pool_account.reserve_b_mint;
    let s = ctx.payer_source_token_mint;
    let d = ctx.payer_destination_token_mint;
    (s == a && d == b) || (s == b && d == a)
}

/// Whether the source token is the pool's token A.
pub open spec fn swap_source_is_a(ctx: SwapTokens) -> bool {
    ctx.pool_account.reserve_a_mint == ctx.payer_source_token_mint
}

/// The reserve of the source token.
pub open spec fn swap_source_reserve(ctx: SwapTokens) -> u64 {
    if swap_source_is_a(ctx) {
        ctx.pool_account.reserve_a_amount
    } else {
        ctx.pool_account.reserve_b_amount
    }
}

/// The reserve of the destination token.
pub open spec fn swap_destination_reserve(ctx: SwapTokens) -> u64 {
    if swap_source_is_a(ctx) {
        ctx.pool_account.reserve_b_amount
    } else {
        ctx.pool_account.reserve_a_amount
    }
}

/// The fee kept by the pool on a swap of `source_token_amount`.
pub open spec fn swap_fee(ctx: SwapTokens, source_token_amount: u64) -> int {
    source_token_amount - amount_after_fee(
        source_token_amount as int,
        ctx.pool_account.fee_bps as int,
    )
}

/// The transfers of a swap of `source_token_amount`, or the error that
/// refuses it: the mints must be the pool's pair, and the grown source
/// reserve and the fee total must fit in 64 bits.
pub open spec fn swap_outcome(ctx: SwapTokens, source_token_amount: u64) -> Result<
    SwapTransfer,
    CustomError,
> {
    if !swap_mints_match(ctx) {
        Err(CustomError::MintDoNotMatch)
    } else if swap_source_reserve(ctx) + source_token_amount > u64::MAX
        || ctx.lptoken_account.total_fees + swap_fee(ctx, source_token_amount) > u64::MAX {
        Err(CustomError::NumericalOverflow)
    } else {
        Ok(
            SwapTransfer {
                source_is_reserve_a: swap_source_is_a(ctx),
                source_amount: source_token_amount,
                destination_amount: swap_output(
                    source_token_amount as int,
                    swap_destination_reserve(ctx) as int,
                    swap_source_reserve(ctx) as int,
                    ctx.pool_account.fee_bps as int,
                ) as u64,
            },
        )
    }
}

/// The pool record after a swap that made `transfer`: the source reserve
/// gains the whole source amount and the destination reserve loses the
/// destination amount.
pub open spec fn pool_after_swap(pool: Pool, transfer: SwapTransfer) -> Pool {
    if transfer.source_is_reserve_a {
        Pool {
            reserve_a_amount: (pool.reserve_a_amount + transfer.source_amount) as u64,
            reserve_b_amount: (pool.reserve_b_amount - transfer.destination_amount) as u64,
            ..pool
        }
    } else {
        Pool {
            reserve_a_amount: (pool.reserve_a_amount - transfer.destination_amount) as u64,
            reserve_b_amount: (pool.reserve_b_amount + transfer.source_amount) as u64,
            ..pool
        }
    }
}

/// Whether a swap runs without an arithmetic fault: once the mints match,
/// the pool's fee must be at most 100%.
pub open spec fn swap_request_computable(ctx: SwapTokens) -> bool {
    swap_mints_match(ctx) ==> ctx.pool_account.fee_bps <= 10_000
}

/// Whether `process_swap` may be called on these records (see
/// `swap_request_computable`).
pub fn swap_request_is_computable(ctx: &SwapTokens) -> (ok: bool)
    ensures
        ok == swap_request_computable(*ctx),
{
    let a = ctx.pool_account.reserve_a_mint;
    let b = ctx.pool_account.reserve_b_mint;
    let s = ctx.payer_source_token_mint;
    let d = ctx.payer_destination_token_mint;
    !((s == a && d == b) || (s == b && d == a)) || ctx.pool_account.fee_bps <= 10_000
}

/// A swap of `source_token_amount` of the source token, in either direction.
/// On success it returns the transfers to make, which the caller carries out;
/// the pool's reserves follow them, the fee is added to the fee total, and
/// the product of the reserves does not fall. On an error nothing changes.
pub fn process_swap(ctx: &mut SwapTokens, source_token_amount: u64) -> (res: Result<
    SwapTransfer,
    CustomError,
>)
    requires
        swap_request_computable(*old(ctx)),
    ensures
        res == swap_outcome(*old(ctx), source_token_amount),
        res matches Ok(transfer) ==> {
            &&& final(ctx).pool_account == pool_after_swap(old(ctx).pool_account, transfer)
            &&& final(ctx).lptoken_account == (LpToken {
                total_fees: (old(ctx).lptoken_account.total_fees + swap_fee(
                    *old(ctx),
                    source_token_amount,
                )) as u64,
                ..old(ctx).lptoken_account
            })
            &&& final(ctx).pool_account.reserve_a_amount * final(ctx).pool_account.reserve_b_amount
                >= old(ctx).pool_account.reserve_a_amount * old(ctx).pool_account.reserve_b_amount
        },
        final(ctx).payer_source_token_mint == old(ctx).payer_source_token_mint,
        final(ctx).payer_destination_token_mint == old(ctx).payer_destination_token_mint,
        final(ctx).reserve_a_mint == old(ctx).reserve_a_mint,
        final(ctx).reserve_b_mint == old(ctx).reserve_b_mint,
        res is Err ==> *final(ctx) == *old(ctx),
{
    let a = ctx.pool_account.reserve_a_mint;
    let b = ctx.pool_account.reserve_b_mint;
    let s = ctx.payer_source_token_mint;
    let d = ctx.payer_destination_token_mint;
    if !((s == a && d == b) || (s == b && d == a)) {
        return Err(CustomError::MintDoNotMatch);
    }
    let source_is_reserve_a = a == s;
    let (source_reserve_amount, destination_reserve_amount) = if source_is_reserve_a {
        (ctx.pool_account.reserve_a_amount, ctx.pool_account.reserve_b_amount)
    } else {
        (ctx.pool_account.reserve_b_amount, ctx.pool_account.reserve_a_amount)
    };
    let fee_bps = ctx.pool_account.fee_bps;
    let destination_amount = swap_calculation(
        source_token_amount,
        &destination_reserve_amount,
        &source_reserve_amount,
        fee_bps,
    )?;
    proof {
        lemma_swap_output_keeps_invariant(
            source_token_amount as int,
            destination_reserve_amount as int,
            source_reserve_amount as int,
            fee_bps as int,
        );
    }
    let new_source_amount = match source_reserve_amount.checked_add(source_token_amount) {
        Some(v) => v,
        None => {
            return Err(CustomError::NumericalOverflow);
        },
    };
    let fee_numerator = 10_000u128 - fee_bps as u128;
    assert(source_token_amount as u128 * fee_numerator <= u128::MAX) by (nonlinear_arith)
        requires
            source_token_amount <= u64::MAX,
            fee_numerator <= 10_000,
    ;
    let amount_in_with_fee = (source_token_amount as u128 * fee_numerator / 10_000) as u64;
    let fee = source_token_amount - amount_in_with_fee;
    let total_fees = match ctx.lptoken_account.total_fees.checked_add(fee) {
        Some(v) => v,
        None => {
            return Err(CustomError::NumericalOverflow);
        },
    };
    let new_destination_amount = destination_reserve_amount - destination_amount;
    let dx: Ghost<int> = Ghost(amount_in_with_fee as int);
    assert(new_source_amount * new_destination_amount >= source_reserve_amount
        * destination_reserve_amount) by (nonlinear_arith)
        requires
            (source_reserve_amount + dx@) * new_destination_amount >= destination_reserve_amount
                * source_reserve_amount,
            new_source_amount == source_reserve_amount + source_token_amount,
            dx@ <= source_token_amount,
            0 <= new_destination_amount,
    ;
    if source_is_reserve_a {
        ctx.pool_account.reserve_a_amount = new_source_amount;
        ctx.pool_account.reserve_b_amount = new_destination_amount;
    } else {
        ctx.pool_account.reserve_b_amount = new_source_amount;
        ctx.pool_account.reserve_a_amount = new_destination_amount;
        assert(new_destination_amount * new_source_amount >= destination_reserve_amount
            * source_reserve_amount) by (nonlinear_arith)
            requires
                new_source_amount * new_destination_amount >= source_reserve_amount
                    * destination_reserve_amount,
        ;
    }
    ctx.lptoken_account.total_fees = total_fees;
    Ok(SwapTransfer { source_is_reserve_a, source_amount: source_token_amount, destination_amount })
}

} // verus!
