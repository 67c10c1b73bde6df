use vstd::prelude::*;

use crate::error::CustomError;
use crate::instructions::de_liquidate::withdraw_and_burn_tokens::{
    lptoken_after_burn, minted_after_withdraw, withdraw_amounts,
};
use crate::instructions::liquidate::deposit_and_mint_tokens::{deposit_liquidity, lptoken_after_mint};
use crate::instructions::swap::swap_tokens::{
    pool_after_swap, swap_destination_reserve, swap_outcome, swap_source_is_a, swap_source_reserve,
    SwapTokens, SwapTransfer,
};
use crate::state::{LiquidityProvider, LpToken, Pool};
use crate::math::{
    amount_after_fee, floor_sqrt, lemma_div_rem, lemma_floor_sqrt_is_floor_sqrt,
    lemma_sqrt_fits_u64, lemma_swap_output_keeps_invariant, minted_liquidity, pool_invariant,
    reserves_for_burn, swap_output,
};

verus! {

/// A burn pays out at most its pro-rata share of each reserve:
/// `out * total_liquidity <= burn_amount * reserve`; and when no more than the
/// total liquidity is burned, no more than the reserve is paid out.
pub proof fn lemma_burn_pays_pro_rata(
    reserve_a: u128,
    reserve_b: u128,
    burn_amount: u64,
    total_liquidity: u128,
)
    ensures
        reserves_for_burn(
            reserve_a as int,
            reserve_b as int,
            burn_amount as int,
            total_liquidity as int,
        ) matches Ok((out_a, out_b)) ==> {
            &&& out_a * total_liquidity <= burn_amount * reserve_a
            &&& out_b * total_liquidity <= burn_amount * reserve_b
            &&& burn_amount <= total_liquidity ==> out_a <= reserve_a && out_b <= reserve_b
        },
{
    if reserves_for_burn(
        reserve_a as int,
        reserve_b as int,
        burn_amount as int,
        total_liquidity as int,
    ) is Ok {
        lemma_share_bounds(reserve_a as int, burn_amount as int, total_liquidity as int);
        lemma_share_bounds(reserve_b as int, burn_amount as int, total_liquidity as int);
    }
}

/// `burn * reserve / total` is a floor of the pro-rata share.
proof fn lemma_share_bounds(reserve: int, burn: int, total: int)
    requires
        0 <= reserve,
        0 <= burn,
        0 < total,
    ensures
        (burn * reserve / total) * total <= burn * reserve,
        burn <= total ==> burn * reserve / total <= reserve,
{
    let n = burn * reserve;
    assert(0 <= n) by (nonlinear_arith)
        requires
            n == burn * reserve,
            0 <= reserve,
            0 <= burn,
    ;
    lemma_div_rem(n, total);
    let q = n / total;
    assert(q * total <= n) by (nonlinear_arith)
        requires
            n == total * q + n % total,
            0 <= n % total,
    ;
    if burn <= total {
        assert(q <= reserve) by (nonlinear_arith)
            requires
                q * total <= burn * reserve,
                burn <= total,
                0 <= reserve,
                0 < total,
        ;
    }
}

/// Liquidity minted for a later deposit never exceeds the deposit's share of
/// either reserve: `liquidity * reserve <= amount * total_liquidity` for both
/// tokens, so existing providers are not diluted.
pub proof fn lemma_minted_liquidity_is_pro_rata(
    amount_a: u64,
    amount_b: u64,
    reserve_a: u64,
    reserve_b: u64,
    total_liquidity: u64,
)
    ensures
        minted_liquidity(
            amount_a as int,
            amount_b as int,
            reserve_a as int,
            reserve_b as int,
            total_liquidity as int,
        ) matches Ok(liquidity) ==> {
            &&& liquidity * reserve_a <= amount_a * total_liquidity
            &&& liquidity * reserve_b <= amount_b * total_liquidity
        },
{
    if minted_liquidity(
        amount_a as int,
        amount_b as int,
        reserve_a as int,
        reserve_b as int,
        total_liquidity as int,
    ) is Ok {
        let part_a = amount_a * total_liquidity / (reserve_a as int);
        let part_b = amount_b * total_liquidity / (reserve_b as int);
        lemma_share_bounds(total_liquidity as int, amount_a as int, reserve_a as int);
        lemma_share_bounds(total_liquidity as int, amount_b as int, reserve_b as int);
        let liquidity = if part_a <= part_b {
            part_a
        } else {
            part_b
        };
        assert(liquidity * reserve_a <= part_a * reserve_a) by (nonlinear_arith)
            requires
                0 <= liquidity <= part_a,
                0 <= reserve_a,
        ;
        assert(liquidity * reserve_b <= part_b * reserve_b) by (nonlinear_arith)
            requires
                0 <= liquidity <= part_b,
                0 <= reserve_b,
        ;
    }
}

/// Depositing into a pool that already has liquidity and then burning exactly
/// the liquidity minted for it, against the pool as the deposit left it, pays
/// out no more of either token than was deposited.
pub proof fn lemma_deposit_then_withdraw_gains_nothing(
    amount_a: u64,
    amount_b: u64,
    reserve_a: u64,
    reserve_b: u64,
    total_liquidity: u64,
)
    ensures
        minted_liquidity(
            amount_a as int,
            amount_b as int,
            reserve_a as int,
            reserve_b as int,
            total_liquidity as int,
        ) matches Ok(liquidity) ==> (reserves_for_burn(
            reserve_a + amount_a,
            reserve_b + amount_b,
            liquidity as int,
            total_liquidity + liquidity,
        ) matches Ok((out_a, out_b)) ==> out_a <= amount_a && out_b <= amount_b),
{
    if let Ok(liquidity) = minted_liquidity(
        amount_a as int,
        amount_b as int,
        reserve_a as int,
        reserve_b as int,
        total_liquidity as int,
    ) {
        lemma_minted_liquidity_is_pro_rata(amount_a, amount_b, reserve_a, reserve_b, total_liquidity);
        if reserves_for_burn(
            reserve_a + amount_a,
            reserve_b + amount_b,
            liquidity as int,
            total_liquidity + liquidity,
        ) is Ok {
            let total = total_liquidity + liquidity;
            lemma_share_bounds(reserve_a + amount_a, liquidity as int, total);
            lemma_share_bounds(reserve_b + amount_b, liquidity as int, total);
            let out_a = liquidity * (reserve_a + amount_a) / total;
            let out_b = liquidity * (reserve_b + amount_b) / total;
            assert(out_a <= amount_a) by (nonlinear_arith)
                requires
                    out_a * total <= liquidity * (reserve_a + amount_a),
                    liquidity * reserve_a <= amount_a * total_liquidity,
                    total == total_liquidity + liquidity,
                    0 < total,
            ;
            assert(out_b <= amount_b) by (nonlinear_arith)
                requires
                    out_b * total <= liquidity * (reserve_b + amount_b),
                    liquidity * reserve_b <= amount_b * total_liquidity,
                    total == total_liquidity + liquidity,
                    0 < total,
            ;
        }
    }
}

/// The program's records: a later deposit by an initialized provider credits
/// `liquidity`, minting it records it in the total, and a withdrawal against
/// exactly `liquidity` from the pool the deposit left pays out no more of
/// either token than was deposited (whenever the mint fits in the total).
pub proof fn lemma_deposit_mint_withdraw_gains_nothing(
    pool: Pool,
    lptoken: LpToken,
    provider: LiquidityProvider,
    amount_a: u64,
    amount_b: u64,
    now: i64,
)
    requires
        !pool.first_liquidity_deposit,
    ensures
        deposit_liquidity(pool, lptoken, provider, amount_a, amount_b) matches Ok(liquidity)
            ==> lptoken.total_liquidity + liquidity <= u64::MAX ==> (reserves_for_burn(
            pool.reserve_a_amount + amount_a,
            pool.reserve_b_amount + amount_b,
            liquidity as int,
            lptoken_after_mint(lptoken, liquidity, now).total_liquidity as int,
        ) matches Ok((out_a, out_b)) ==> out_a <= amount_a && out_b <= amount_b),
{
    lemma_deposit_then_withdraw_gains_nothing(
        amount_a,
        amount_b,
        pool.reserve_a_amount,
        pool.reserve_b_amount,
        lptoken.total_liquidity,
    );
}

/// Minting and then burning the same amount of liquidity-provider tokens
/// leaves the recorded total liquidity as it was.
pub proof fn lemma_mint_then_burn_restores_total(lptoken: LpToken, amount: u64, now: i64)
    requires
        lptoken.total_liquidity + amount <= u64::MAX,
    ensures
        lptoken_after_burn(lptoken_after_mint(lptoken, amount, now), amount).total_liquidity
            == lptoken.total_liquidity,
{
}

/// The first provider, burning all the liquidity minted for the first
/// deposit against the pool that deposit filled, gets back exactly what was
/// deposited.
pub proof fn lemma_first_deposit_round_trip(amount_a: u64, amount_b: u64)
    requires
        floor_sqrt((amount_a * amount_b) as nat) > 0,
    ensures
        reserves_for_burn(
            amount_a as int,
            amount_b as int,
            floor_sqrt((amount_a * amount_b) as nat) as int,
            floor_sqrt((amount_a * amount_b) as nat) as int,
        ) == Ok::<(u64, u64), CustomError>((amount_a, amount_b)),
{
    let n = amount_a * amount_b;
    assert(0 <= n <= u128::MAX) by (nonlinear_arith)
        requires
            n == amount_a * amount_b,
            amount_a <= u64::MAX,
            amount_b <= u64::MAX,
    ;
    let l = floor_sqrt(n as nat) as int;
    lemma_floor_sqrt_is_floor_sqrt(n as nat);
    lemma_sqrt_fits_u64(n, l);
    assert(l * amount_a <= u128::MAX && l * amount_b <= u128::MAX) by (nonlinear_arith)
        requires
            0 <= l <= u64::MAX,
            amount_a <= u64::MAX,
            amount_b <= u64::MAX,
    ;
    vstd::arithmetic::div_mod::lemma_div_by_multiple(amount_a as int, l);
    vstd::arithmetic::div_mod::lemma_div_by_multiple(amount_b as int, l);
    assert(l * amount_a == amount_a * l) by (nonlinear_arith);
    assert(l * amount_b == amount_b * l) by (nonlinear_arith);
}

/// Across a swap the product of the pool's recorded reserves does not fall:
/// the pool's `x * y = k` rule.
pub proof fn lemma_swap_keeps_pool_invariant(ctx: SwapTokens, source_token_amount: u64)
    requires
        ctx.pool_account.fee_bps <= 10_000,
    ensures
        swap_outcome(ctx, source_token_amount) matches Ok(transfer) ==> {
            let after = pool_after_swap(ctx.pool_account, transfer);
            after.reserve_a_amount * after.reserve_b_amount >= ctx.pool_account.reserve_a_amount
                * ctx.pool_account.reserve_b_amount
        },
{
    if let Ok(transfer) = swap_outcome(ctx, source_token_amount) {
        let src = swap_source_reserve(ctx) as int;
        let dst = swap_destination_reserve(ctx) as int;
        let n = source_token_amount as int;
        let fee = ctx.pool_account.fee_bps as int;
        lemma_swap_output_keeps_invariant(n, dst, src, fee);
        let dx = amount_after_fee(n, fee);
        let out = swap_output(n, dst, src, fee);
        assert((src + n) * (dst - out) >= src * dst) by (nonlinear_arith)
            requires
                (src + dx) * (dst - out) >= pool_invariant(dst, src),
                pool_invariant(dst, src) == dst * src,
                dx <= n,
                0 <= dst - out,
        ;
        let after = pool_after_swap(ctx.pool_account, transfer);
        let ra = ctx.pool_account.reserve_a_amount as int;
        let rb = ctx.pool_account.reserve_b_amount as int;
        if swap_source_is_a(ctx) {
            assert(after.reserve_a_amount == src + n && after.reserve_b_amount == dst - out);
        } else {
            assert(after.reserve_b_amount == src + n && after.reserve_a_amount == dst - out);
            assert((dst - out) * (src + n) == (src + n) * (dst - out)) by (nonlinear_arith);
            assert(rb * ra == ra * rb) by (nonlinear_arith);
        }
    }
}

/// The balances of the reserve token accounts of tokens A and B after the
/// transfers of a swap: the source amount arrives in the source reserve and
/// the destination amount leaves the other.
pub open spec fn reserve_balances_after_swap(
    balance_a: int,
    balance_b: int,
    transfer: SwapTransfer,
) -> (int, int) {
    if transfer.source_is_reserve_a {
        (balance_a + transfer.source_amount, balance_b - transfer.destination_amount)
    } else {
        (balance_a - transfer.destination_amount, balance_b + transfer.source_amount)
    }
}

/// Where the pool's recorded reserves match the balances of its reserve token
/// accounts before a swap, they match them after the swap's transfers too.
pub proof fn lemma_swap_reserves_follow_transfers(
    ctx: SwapTokens,
    source_token_amount: u64,
    balance_a: int,
    balance_b: int,
)
    requires
        ctx.pool_account.fee_bps <= 10_000,
    ensures
        swap_outcome(ctx, source_token_amount) matches Ok(transfer) ==> (balance_a
            == ctx.pool_account.reserve_a_amount && balance_b == ctx.pool_account.reserve_b_amount
            ==> {
            let after = pool_after_swap(ctx.pool_account, transfer);
            let balances = reserve_balances_after_swap(balance_a, balance_b, transfer);
            after.reserve_a_amount == balances.0 && after.reserve_b_amount == balances.1
        }),
{
    lemma_swap_output_keeps_invariant(
        source_token_amount as int,
        swap_destination_reserve(ctx) as int,
        swap_source_reserve(ctx) as int,
        ctx.pool_account.fee_bps as int,
    );
}

/// Where the recorded total liquidity matches the supply of the
/// liquidity-provider mint, it still does after a mint of `amount` (which
/// raises the supply by `amount`) and after a burn of `amount` (which lowers
/// it by `amount`).
pub proof fn lemma_total_tracks_supply(lptoken: LpToken, supply: u64, amount: u64, now: i64)
    requires
        lptoken.total_liquidity == supply,
    ensures
        supply + amount <= u64::MAX ==> lptoken_after_mint(lptoken, amount, now).total_liquidity
            == supply + amount,
        amount <= supply ==> lptoken_after_burn(lptoken, amount).total_liquidity == supply
            - amount,
{
}

/// `n / r` is the largest `q` with `q * r <= n`.
proof fn lemma_floor_div(n: int, r: int)
    requires
        0 <= n,
        0 < r,
    ensures
        0 <= n / r,
        (n / r) * r <= n,
        n < (n / r + 1) * r,
        forall|m: int| #![trigger m * r] m * r <= n <==> m <= n / r,
{
    lemma_div_rem(n, r);
    let q = n / r;
    assert(q * r <= n && n < (q + 1) * r) by (nonlinear_arith)
        requires
            n == r * q + n % r,
            0 <= n % r < r,
    ;
    assert forall|m: int| #![trigger m * r] m * r <= n <==> m <= q by {
        if m <= q {
            assert(m * r <= q * r) by (nonlinear_arith)
                requires
                    m <= q,
                    0 < r,
            ;
        } else {
            assert((q + 1) * r <= m * r) by (nonlinear_arith)
                requires
                    q + 1 <= m,
                    0 < r,
            ;
        }
    }
}

/// The first deposit into a pool, by an initialized provider, is always
/// accepted and credits the integer square root of the product of the two
/// amounts: the credit `l` satisfies `l * l <= a * b < (l + 1) * (l + 1)`.
pub proof fn lemma_first_deposit_credits_square_root(
    pool: Pool,
    lptoken: LpToken,
    provider: LiquidityProvider,
    amount_a: u64,
    amount_b: u64,
)
    requires
        pool.first_liquidity_deposit,
        provider.is_initialized,
    ensures
        deposit_liquidity(pool, lptoken, provider, amount_a, amount_b) matches Ok(l) && l * l
            <= amount_a * amount_b && amount_a * amount_b < (l + 1) * (l + 1),
{
    let n = amount_a * amount_b;
    assert(0 <= n <= u128::MAX) by (nonlinear_arith)
        requires
            n == amount_a * amount_b,
            amount_a <= u64::MAX,
            amount_b <= u64::MAX,
    ;
    lemma_floor_sqrt_is_floor_sqrt(n as nat);
    lemma_sqrt_fits_u64(n, floor_sqrt(n as nat) as int);
}

/// A deposit by a provider whose record is not initialized is refused with
/// `InvalidAccountData`.
pub proof fn lemma_uninitialized_provider_refused(
    pool: Pool,
    lptoken: LpToken,
    provider: LiquidityProvider,
    amount_a: u64,
    amount_b: u64,
)
    requires
        !provider.is_initialized,
    ensures
        deposit_liquidity(pool, lptoken, provider, amount_a, amount_b) == Err::<u64, CustomError>(
            CustomError::InvalidAccountData,
        ),
{
}

/// The liquidity minted for a later deposit, in terms of its inputs: refused
/// with `OverflowInAfterLiquidityAmountCalculation` when a reserve is empty or
/// `amount * total` does not fit in 128 bits; otherwise it is the largest `l`
/// with `l * reserve_a <= amount_a * total` and `l * reserve_b <= amount_b *
/// total`, refused with `NumericalOverflow` exactly when that exceeds 64 bits.
pub proof fn lemma_minted_liquidity_is_largest_share(
    amount_a: u128,
    amount_b: u128,
    reserve_a: u128,
    reserve_b: u128,
    total_liquidity: u128,
)
    ensures
        ({
            let na = amount_a * total_liquidity;
            let nb = amount_b * total_liquidity;
            let result = minted_liquidity(
                amount_a as int,
                amount_b as int,
                reserve_a as int,
                reserve_b as int,
                total_liquidity as int,
            );
            let unfit = na > u128::MAX || reserve_a == 0 || nb > u128::MAX || reserve_b == 0;
            let too_large = 0x1_0000_0000_0000_0000 * reserve_a <= na && 0x1_0000_0000_0000_0000
                * reserve_b <= nb;
            &&& unfit ==> result == Err::<u64, CustomError>(
                CustomError::OverflowInAfterLiquidityAmountCalculation,
            )
            &&& !unfit && too_large ==> result == Err::<u64, CustomError>(
                CustomError::NumericalOverflow,
            )
            &&& !unfit && !too_large ==> (result matches Ok(l) && l * reserve_a <= na && l
                * reserve_b <= nb && ((l + 1) * reserve_a > na || (l + 1) * reserve_b > nb))
        }),
{
    let na = amount_a * total_liquidity;
    let nb = amount_b * total_liquidity;
    assert(0 <= na && 0 <= nb) by (nonlinear_arith)
        requires
            na == amount_a * total_liquidity,
            nb == amount_b * total_liquidity,
            amount_a >= 0,
            amount_b >= 0,
            total_liquidity >= 0,
    ;
    if reserve_a > 0 && reserve_b > 0 {
        lemma_floor_div(na, reserve_a as int);
        lemma_floor_div(nb, reserve_b as int);
        let big: int = 0x1_0000_0000_0000_0000;
        assert(big * reserve_a <= na <==> big <= na / (reserve_a as int));
        assert(big * reserve_b <= nb <==> big <= nb / (reserve_b as int));
        let qa = na / (reserve_a as int);
        let qb = nb / (reserve_b as int);
        let l = if qa <= qb {
            qa
        } else {
            qb
        };
        assert(l * reserve_a <= na);
        assert(l * reserve_b <= nb);
    }
}

/// What burning pays out, in terms of its inputs: refused with
/// `OverflowInTokenAmountCalculationAfterBurn` when the total liquidity is
/// zero or `burn * reserve` does not fit in 128 bits; otherwise each payout
/// is the largest `x` with `x * total <= burn * reserve`, refused with
/// `NumericalOverflow` exactly when one of them exceeds 64 bits.
pub proof fn lemma_burn_payout_is_largest_share(
    reserve_a: u128,
    reserve_b: u128,
    burn_amount: u64,
    total_liquidity: u128,
)
    ensures
        ({
            let na = burn_amount * reserve_a;
            let nb = burn_amount * reserve_b;
            let result = reserves_for_burn(
                reserve_a as int,
                reserve_b as int,
                burn_amount as int,
                total_liquidity as int,
            );
            let unfit = na > u128::MAX || total_liquidity == 0 || nb > u128::MAX;
            let too_large = 0x1_0000_0000_0000_0000 * total_liquidity <= na
                || 0x1_0000_0000_0000_0000 * total_liquidity <= nb;
            &&& unfit ==> result == Err::<(u64, u64), CustomError>(
                CustomError::OverflowInTokenAmountCalculationAfterBurn,
            )
            &&& !unfit && too_large ==> result == Err::<(u64, u64), CustomError>(
                CustomError::NumericalOverflow,
            )
            &&& !unfit && !too_large ==> (result matches Ok((x, y)) && x * total_liquidity <= na
                && na < (x + 1) * total_liquidity && y * total_liquidity <= nb && nb < (y + 1)
                * total_liquidity)
        }),
{
    let na = burn_amount * reserve_a;
    let nb = burn_amount * reserve_b;
    assert(0 <= na && 0 <= nb) by (nonlinear_arith)
        requires
            na == burn_amount * reserve_a,
            nb == burn_amount * reserve_b,
            burn_amount >= 0,
            reserve_a >= 0,
            reserve_b >= 0,
    ;
    if total_liquidity > 0 {
        let t = total_liquidity as int;
        lemma_floor_div(na, t);
        lemma_floor_div(nb, t);
        let big: int = 0x1_0000_0000_0000_0000;
        assert(big * t <= na <==> big <= na / t);
        assert(big * t <= nb <==> big <= nb / t);
    }
}

/// The constant-product swap output, in terms of its inputs: with `dx` the
/// input after the fee (the largest `dx` with `dx * 10000 <= amount_in *
/// (10000 - fee_bps)`), nothing is paid for `dx == 0`, and otherwise the output
/// is the largest `out` with `out * (source + dx) <= destination * dx`: the
/// most the curve `x * y = k` allows.
pub proof fn lemma_swap_output_is_largest_on_curve(
    amount_in: u64,
    destination_reserve: u64,
    source_reserve: u64,
    fee_bps: u16,
    dx: int,
)
    requires
        fee_bps <= 10_000,
        dx * 10_000 <= amount_in * (10_000 - fee_bps) < (dx + 1) * 10_000,
    ensures
        amount_after_fee(amount_in as int, fee_bps as int) == dx,
        ({
            let out = swap_output(
                amount_in as int,
                destination_reserve as int,
                source_reserve as int,
                fee_bps as int,
            );
            &&& dx == 0 ==> out == 0
            &&& dx > 0 ==> out * (source_reserve + dx) <= destination_reserve * dx
                < (out + 1) * (source_reserve + dx)
        }),
{
    let n = amount_in * (10_000 - fee_bps);
    assert(0 <= n) by (nonlinear_arith)
        requires
            n == amount_in * (10_000 - fee_bps),
            amount_in >= 0,
            fee_bps <= 10_000,
    ;
    lemma_floor_div(n, 10_000);
    let q = n / 10_000;
    assert(q <= dx && dx <= q) by (nonlinear_arith)
        requires
            q * 10_000 <= n < (q + 1) * 10_000,
            dx * 10_000 <= n < (dx + 1) * 10_000,
    ;
    if dx > 0 {
        let m = destination_reserve * dx;
        assert(0 <= m) by (nonlinear_arith)
            requires
                m == destination_reserve * dx,
                destination_reserve >= 0,
                dx >= 0,
        ;
        lemma_floor_div(m, source_reserve + dx);
    }
}

/// A swap, in terms of its inputs: refused with `MintDoNotMatch` exactly when
/// the two mints are not the pool's pair in either order; otherwise it pays
/// out, from the reserve of the destination token, the most the curve allows
/// against the reserve of the source token, unless the grown source reserve
/// or the fee total would not fit in 64 bits.
pub proof fn lemma_swap_pays_along_curve(ctx: SwapTokens, source_token_amount: u64, dx: int)
    requires
        ctx.pool_account.fee_bps <= 10_000,
        dx * 10_000 <= source_token_amount * (10_000 - ctx.pool_account.fee_bps) < (dx + 1)
            * 10_000,
    ensures
        ({
            let a = ctx.pool_account.reserve_a_mint;
            let b = ctx.pool_account.reserve_b_mint;
            let s = ctx.payer_source_token_mint;
            let d = ctx.payer_destination_token_mint;
            let pair = (s == a && d == b) || (s == b && d == a);
            let (src, dst) = if s == a {
                (ctx.pool_account.reserve_a_amount, ctx.pool_account.reserve_b_amount)
            } else {
                (ctx.pool_account.reserve_b_amount, ctx.pool_account.reserve_a_amount)
            };
            let fits = src + source_token_amount <= u64::MAX && ctx.lptoken_account.total_fees
                + source_token_amount - dx <= u64::MAX;
            let result = swap_outcome(ctx, source_token_amount);
            &&& !pair ==> result == Err::<SwapTransfer, CustomError>(CustomError::MintDoNotMatch)
            &&& pair && !fits ==> result == Err::<SwapTransfer, CustomError>(
                CustomError::NumericalOverflow,
            )
            &&& pair && fits ==> (result matches Ok(t) && t.source_is_reserve_a == (s == a)
                && t.source_amount == source_token_amount && (dx == 0 ==> t.destination_amount
                == 0) && (dx > 0 ==> t.destination_amount * (src + dx) <= dst * dx < (
            t.destination_amount + 1) * (src + dx)))
        }),
{
    let s = ctx.payer_source_token_mint;
    let a = ctx.pool_account.reserve_a_mint;
    let (src, dst) = if s == a {
        (ctx.pool_account.reserve_a_amount, ctx.pool_account.reserve_b_amount)
    } else {
        (ctx.pool_account.reserve_b_amount, ctx.pool_account.reserve_a_amount)
    };
    lemma_swap_output_is_largest_on_curve(
        source_token_amount,
        dst,
        src,
        ctx.pool_account.fee_bps,
        dx,
    );
    lemma_swap_output_keeps_invariant(
        source_token_amount as int,
        dst as int,
        src as int,
        ctx.pool_account.fee_bps as int,
    );
}

/// A later deposit by an initialized provider, in terms of its inputs: it
/// must be in the pool's ratio, `amount_a == amount_b * (reserve_a /
/// reserve_b)` with that product computed in 128 bits, and is then credited
/// the liquidity that `minted_liquidity` describes (see
/// `lemma_minted_liquidity_is_largest_share`).
pub proof fn lemma_later_deposit_in_ratio(
    pool: Pool,
    lptoken: LpToken,
    provider: LiquidityProvider,
    amount_a: u64,
    amount_b: u64,
)
    requires
        !pool.first_liquidity_deposit,
        provider.is_initialized,
        pool.reserve_b_amount != 0,
    ensures
        ({
            let expected = amount_b * (pool.reserve_a_amount / pool.reserve_b_amount);
            let result = deposit_liquidity(pool, lptoken, provider, amount_a, amount_b);
            &&& expected > u128::MAX ==> result == Err::<u64, CustomError>(
                CustomError::OverflowInTokenRatioCheck,
            )
            &&& expected <= u128::MAX && expected != amount_a ==> result == Err::<u64, CustomError>(
                CustomError::TokensAmountNotInExpectedRatio,
            )
            &&& expected == amount_a ==> result == minted_liquidity(
                amount_a as int,
                amount_b as int,
                pool.reserve_a_amount as int,
                pool.reserve_b_amount as int,
                lptoken.total_liquidity as int,
            )
        }),
{
}

/// A withdrawal, in terms of its inputs: refused with `FoundReserveTokensNull`
/// unless the provider holds both tokens in the pool, then with
/// `LpTokenBurnAmountNotSatisfied` when `amount` exceeds the provider's
/// credited liquidity; otherwise it pays what burning `amount` against the
/// pool's reserves and total liquidity pays (see
/// `lemma_burn_payout_is_largest_share`).
pub proof fn lemma_withdraw_checks_then_pays_share(
    pool: Pool,
    provider: LiquidityProvider,
    lptoken: LpToken,
    amount: u64,
)
    ensures
        ({
            let result = withdraw_amounts(pool, provider, lptoken, amount);
            let holds_both = provider.reserve_a_amount > 0 && provider.reserve_b_amount > 0;
            &&& !holds_both ==> result == Err::<(u64, u64), CustomError>(
                CustomError::FoundReserveTokensNull,
            )
            &&& holds_both && amount > provider.token_amount ==> result == Err::<
                (u64, u64),
                CustomError,
            >(CustomError::LpTokenBurnAmountNotSatisfied)
            &&& holds_both && amount <= provider.token_amount ==> result == reserves_for_burn(
                pool.reserve_a_amount as int,
                pool.reserve_b_amount as int,
                amount as int,
                lptoken.total_liquidity as int,
            )
        }),
{
}

/// After a withdrawal of at most the credit, what counts as minted never
/// exceeds the remaining credit, and is kept whole where it already fits.
pub proof fn lemma_minted_after_withdraw_fits_credit(provider: LiquidityProvider, amount: u64)
    requires
        amount <= provider.token_amount,
    ensures
        minted_after_withdraw(provider, amount) <= provider.token_amount - amount,
        provider.minted_amount <= provider.token_amount - amount ==> minted_after_withdraw(
            provider,
            amount,
        ) == provider.minted_amount,
        minted_after_withdraw(provider, amount) <= provider.minted_amount,
{
}

} // verus!
