use vstd::prelude::*;
use vstd::arithmetic::div_mod::lemma_fundamental_div_mod;

use crate::error::CustomError;

verus! {

/// `r` is the integer square root of `n`: the largest natural number whose
/// square does not exceed `n`.
pub open spec fn is_floor_sqrt(n: int, r: int) -> bool {
    0 <= r && r * r <= n && n < (r + 1) * (r + 1)
}

/// The integer square root of `n`, defined by counting up from zero.
pub open spec fn floor_sqrt(n: nat) -> nat
    decreases n,
{
    if n == 0 {
        0
    } else {
        let r = floor_sqrt((n - 1) as nat);
        if (r + 1) * (r + 1) <= n {
            r + 1
        } else {
            r
        }
    }
}

/// `floor_sqrt` is the integer square root.
pub proof fn lemma_floor_sqrt_is_floor_sqrt(n: nat)
    ensures
        is_floor_sqrt(n as int, floor_sqrt(n) as int),
    decreases n,
{
    if n > 0 {
        lemma_floor_sqrt_is_floor_sqrt((n - 1) as nat);
        let r = floor_sqrt((n - 1) as nat) as int;
        if (r + 1) * (r + 1) <= n {
            assert(n < (r + 2) * (r + 2)) by (nonlinear_arith)
                requires
                    n - 1 < (r + 1) * (r + 1),
                    r >= 0,
            ;
        }
    }
}

/// At most one number is the integer square root of `n`.
pub proof fn lemma_floor_sqrt_unique(n: int, r1: int, r2: int)
    requires
        is_floor_sqrt(n, r1),
        is_floor_sqrt(n, r2),
    ensures
        r1 == r2,
{
    if r1 < r2 {
        assert((r1 + 1) * (r1 + 1) <= r2 * r2) by (nonlinear_arith)
            requires
                0 <= r1 + 1 <= r2,
        ;
    } else if r2 < r1 {
        assert((r2 + 1) * (r2 + 1) <= r1 * r1) by (nonlinear_arith)
            requires
                0 <= r2 + 1 <= r1,
        ;
    }
}

/// Division with remainder, spelled out.
pub(crate) proof fn lemma_div_rem(n: int, d: int)
    requires
        0 <= n,
        0 < d,
    ensures
        n == d * (n / d) + n % d,
        0 <= n % d < d,
        0 <= n / d,
{
    lemma_fundamental_div_mod(n, d);
    vstd::arithmetic::div_mod::lemma_div_pos_is_pos(n, d);
}

/// One Newton step never falls below any `s` with `s * s <= n`.
proof fn lemma_newton_step_lower(n: int, x: int, s: int)
    requires
        1 <= x,
        0 <= s,
        s * s <= n,
    ensures
        (x + n / x) / 2 >= s,
{
    let q = n / x;
    let r = n % x;
    lemma_div_rem(n, x);
    if x + q < 2 * s {
        let t = x + q + 1;
        assert(t * t <= 4 * (s * s)) by (nonlinear_arith)
            requires
                0 <= t <= 2 * s,
        ;
        assert(4 * (x * (q + 1)) <= t * t) by (nonlinear_arith)
            requires
                t == x + q + 1,
        ;
        assert(n < x * (q + 1)) by (nonlinear_arith)
            requires
                n == x * q + r,
                r < x,
        ;
        assert(false);
    }
}

/// A Newton step from above the square root strictly decreases.
proof fn lemma_newton_step_decreases(n: int, x: int)
    requires
        1 <= x,
        0 <= n < x * x,
    ensures
        (x + n / x) / 2 < x,
{
    let q = n / x;
    let r = n % x;
    lemma_div_rem(n, x);
    assert(q < x) by (nonlinear_arith)
        requires
            n == x * q + r,
            0 <= r,
            n < x * x,
            1 <= x,
    ;
}

/// The sum formed by a Newton step from `x` fits wherever `n` fits.
proof fn lemma_newton_sum_bound(n: int, x: int)
    requires
        2 <= n,
        1 <= x <= n / 2,
        n < (x + 1) * (x + 1),
    ensures
        2 <= x ==> x + n / x <= n,
        x == 1 ==> n <= 3 && n / x == n,
{
    if x >= 2 {
        vstd::arithmetic::div_mod::lemma_div_is_ordered_by_denominator(n, 2, x);
    } else {
        assert((x + 1) * (x + 1) == 4) by (nonlinear_arith) requires x == 1;
    }
}

/// Integer square root by Newton's method, started from `n / 2`.
pub fn int_sqrt(n: u128) -> (r: u128)
    ensures
        is_floor_sqrt(n as int, r as int),
        r * r <= n && n < (r + 1) * (r + 1),
        r == floor_sqrt(n as nat),
{
    proof {
        lemma_floor_sqrt_is_floor_sqrt(n as nat);
    }
    let mut x0 = n / 2;
    if x0 == 0 {
        assert(is_floor_sqrt(n as int, n as int)) by (nonlinear_arith)
            requires
                0 <= n <= 1,
        ;
        proof {
            lemma_floor_sqrt_unique(n as int, n as int, floor_sqrt(n as nat) as int);
        }
        return n;
    }
    assert(n < (x0 + 1) * (x0 + 1)) by (nonlinear_arith)
        requires
            n <= 2 * x0 + 1,
            x0 >= 1,
    ;
    proof {
        lemma_newton_sum_bound(n as int, x0 as int);
    }
    let mut x1 = (x0 + n / x0) / 2;
    proof {
        lemma_newton_step_lower(n as int, x0 as int, 1);
        if (x1 + 1) * (x1 + 1) <= n {
            lemma_newton_step_lower(n as int, x0 as int, x1 + 1);
        }
    }
    while x1 < x0
        invariant
            n >= 2,
            1 <= x0 <= n / 2,
            n < (x0 + 1) * (x0 + 1),
            x1 == (x0 + n / x0) / 2,
            1 <= x1,
            n < (x1 + 1) * (x1 + 1),
        decreases x0,
    {
        x0 = x1;
        proof {
            lemma_newton_sum_bound(n as int, x0 as int);
        }
        x1 = (x0 + n / x0) / 2;
        proof {
            lemma_newton_step_lower(n as int, x0 as int, 1);
            if (x1 + 1) * (x1 + 1) <= n {
                lemma_newton_step_lower(n as int, x0 as int, x1 + 1);
            }
        }
    }
    proof {
        if n < x0 * x0 {
            lemma_newton_step_decreases(n as int, x0 as int);
        }
        lemma_floor_sqrt_unique(n as int, x0 as int, floor_sqrt(n as nat) as int);
    }
    x0
}

/// A floor square root of a number below `2^128` is below `2^64`.
pub(crate) proof fn lemma_sqrt_fits_u64(n: int, r: int)
    requires
        0 <= n <= u128::MAX,
        is_floor_sqrt(n, r),
    ensures
        r <= u64::MAX,
{
    if r > u64::MAX {
        assert(r * r >= 0x1_0000_0000_0000_0000 * 0x1_0000_0000_0000_0000) by (nonlinear_arith)
            requires
                r >= 0x1_0000_0000_0000_0000,
        ;
    }
}

/// The outcome of the ratio check on a deposit: `token_a_amount` must equal
/// `token_b_amount * (reserve_a_amount / reserve_b_amount)`, a product that
/// is computed in 128-bit integers.
pub open spec fn token_ratio_check(
    token_a_amount: int,
    token_b_amount: int,
    reserve_a_amount: int,
    reserve_b_amount: int,
) -> Result<(), CustomError> {
    let expected = token_b_amount * (reserve_a_amount / reserve_b_amount);
    if expected > u128::MAX {
        Err(CustomError::OverflowInTokenRatioCheck)
    } else if expected != token_a_amount {
        Err(CustomError::TokensAmountNotInExpectedRatio)
    } else {
        Ok(())
    }
}

/// Checks that a deposit of `token_a_amount` and `token_b_amount` matches the
/// pool's ratio: `token_a_amount` must equal `token_b_amount` times the
/// whole-number quotient `reserve_a_amount / reserve_b_amount`.
pub fn check_token_ratio(
    token_a_amount: u128,
    token_b_amount: u128,
    reserve_a_amount: u128,
    reserve_b_amount: u128,
) -> (res: Result<(), CustomError>)
    requires
        reserve_b_amount != 0,
    ensures
        res == token_ratio_check(
            token_a_amount as int,
            token_b_amount as int,
            reserve_a_amount as int,
            reserve_b_amount as int,
        ),
        res is Ok <==> token_b_amount * (reserve_a_amount / reserve_b_amount) == token_a_amount,
        token_b_amount * (reserve_a_amount / reserve_b_amount) > u128::MAX ==> res == Err::<(), CustomError>(CustomError::OverflowInTokenRatioCheck),
        token_b_amount * (reserve_a_amount / reserve_b_amount) <= u128::MAX
            && token_b_amount * (reserve_a_amount / reserve_b_amount) != token_a_amount
            ==> res == Err::<(), CustomError>(CustomError::TokensAmountNotInExpectedRatio),
{
    let ratio = reserve_a_amount / reserve_b_amount;
    if let Some(val) = token_b_amount.checked_mul(ratio) {
        if val != token_a_amount {
            return Err(CustomError::TokensAmountNotInExpectedRatio);
        }
    } else {
        return Err(CustomError::OverflowInTokenRatioCheck);
    }
    Ok(())
}

/// Liquidity minted for the first deposit: the floor square root of the
/// product of the two amounts.
pub fn first_provider_liquidity(amount_a: u128, amount_b: u128) -> (res: Result<u64, CustomError>)
    ensures
        res is Ok <==> amount_a * amount_b <= u128::MAX,
        res matches Ok(v) ==> v == floor_sqrt((amount_a * amount_b) as nat),
        res matches Ok(v) ==> v * v <= amount_a * amount_b && amount_a * amount_b < (v + 1) * (v
            + 1),
        res matches Err(e) ==> e == CustomError::OverflowInLiquidityAmountCalculation,
{
    let amount = match amount_a.checked_mul(amount_b) {
        Some(prod) => int_sqrt(prod),
        None => {
            return Err(CustomError::OverflowInLiquidityAmountCalculation);
        },
    };
    if amount > u64::MAX as u128 {
        proof {
            lemma_sqrt_fits_u64(amount_a * amount_b, amount as int);
        }
        return Err(CustomError::OverflowInLiquidityAmountCalculation);
    }
    Ok(amount as u64)
}

/// The smaller of two integers.
pub open spec fn min_int(x: int, y: int) -> int {
    if x <= y {
        x
    } else {
        y
    }
}

/// Liquidity minted for a later deposit:
/// `min(amount_a * total / reserve_a, amount_b * total / reserve_b)`,
/// or the error that the computation in 128-bit integers runs into.
pub open spec fn minted_liquidity(
    amount_a: int,
    amount_b: int,
    reserve_a: int,
    reserve_b: int,
    total_liquidity: int,
) -> Result<u64, CustomError> {
    if amount_a * total_liquidity > u128::MAX || reserve_a == 0 || amount_b * total_liquidity
        > u128::MAX || reserve_b == 0 {
        Err(CustomError::OverflowInAfterLiquidityAmountCalculation)
    } else {
        let liquidity = min_int(
            amount_a * total_liquidity / reserve_a,
            amount_b * total_liquidity / reserve_b,
        );
        if liquidity > u64::MAX {
            Err(CustomError::NumericalOverflow)
        } else {
            Ok(liquidity as u64)
        }
    }
}

/// Liquidity minted for a deposit into a pool that already holds reserves:
/// the share of `total_liquidity` that the deposit adds, taken on the less
/// favourable of the two tokens.
pub fn further_provider_liquidity(
    amount_a: u128,
    amount_b: u128,
    reserve_a: u128,
    reserve_b: u128,
    total_liquidity: u128,
) -> (res: Result<u64, CustomError>)
    ensures
        res == minted_liquidity(
            amount_a as int,
            amount_b as int,
            reserve_a as int,
            reserve_b as int,
            total_liquidity as int,
        ),
{
    let part1 = match amount_a.checked_mul(total_liquidity) {
        Some(v) => match v.checked_div(reserve_a) {
            Some(q) => q,
            None => {
                return Err(CustomError::OverflowInAfterLiquidityAmountCalculation);
            },
        },
        None => {
            return Err(CustomError::OverflowInAfterLiquidityAmountCalculation);
        },
    };
    let part2 = match amount_b.checked_mul(total_liquidity) {
        Some(v) => match v.checked_div(reserve_b) {
            Some(q) => q,
            None => {
                return Err(CustomError::OverflowInAfterLiquidityAmountCalculation);
            },
        },
        None => {
            return Err(CustomError::OverflowInAfterLiquidityAmountCalculation);
        },
    };
    let smaller = if part1 <= part2 {
        part1
    } else {
        part2
    };
    if smaller > u64::MAX as u128 {
        return Err(CustomError::NumericalOverflow);
    }
    Ok(smaller as u64)
}

/// What burning `burn_amount` liquidity pays out of each reserve:
/// `burn_amount * reserve / total_liquidity` for each token, or the error that
/// the computation in 128-bit integers runs into.
pub open spec fn reserves_for_burn(
    reserve_a: int,
    reserve_b: int,
    burn_amount: int,
    total_liquidity: int,
) -> Result<(u64, u64), CustomError> {
    if burn_amount * reserve_a > u128::MAX || total_liquidity == 0 || burn_amount * reserve_b
        > u128::MAX {
        Err(CustomError::OverflowInTokenAmountCalculationAfterBurn)
    } else {
        let out_a = burn_amount * reserve_a / total_liquidity;
        let out_b = burn_amount * reserve_b / total_liquidity;
        if out_a > u64::MAX || out_b > u64::MAX {
            Err(CustomError::NumericalOverflow)
        } else {
            Ok((out_a as u64, out_b as u64))
        }
    }
}

/// The amounts of each reserve token that burning `token_burn_amount`
/// liquidity pays out.
pub fn calculate_reserves_amount(
    reserve_a_amount: u128,
    reserve_b_amount: u128,
    token_burn_amount: u64,
    total_liquidity: u128,
) -> (res: Result<(u64, u64), CustomError>)
    ensures
        res == reserves_for_burn(
            reserve_a_amount as int,
            reserve_b_amount as int,
            token_burn_amount as int,
            total_liquidity as int,
        ),
{
    let burn = token_burn_amount as u128;
    let out_a = match burn.checked_mul(reserve_a_amount) {
        Some(v) => match v.checked_div(total_liquidity) {
            Some(q) => q,
            None => {
                return Err(CustomError::OverflowInTokenAmountCalculationAfterBurn);
            },
        },
        None => {
            return Err(CustomError::OverflowInTokenAmountCalculationAfterBurn);
        },
    };
    let out_b = match burn.checked_mul(reserve_b_amount) {
        Some(v) => match v.checked_div(total_liquidity) {
            Some(q) => q,
            None => {
                return Err(CustomError::OverflowInTokenAmountCalculationAfterBurn);
            },
        },
        None => {
            return Err(CustomError::OverflowInTokenAmountCalculationAfterBurn);
        },
    };
    if out_a > u64::MAX as u128 {
        return Err(CustomError::NumericalOverflow);
    }
    if out_b > u64::MAX as u128 {
        return Err(CustomError::NumericalOverflow);
    }
    Ok((out_a as u64, out_b as u64))
}

/// The pool's invariant `k`: the product of the two reserves.
pub open spec fn pool_invariant(destination_reserve: int, source_reserve: int) -> int {
    destination_reserve * source_reserve
}

/// The swapped-in amount after the fee of `fee_bps` basis points is taken.
pub open spec fn amount_after_fee(amount_in: int, fee_bps: int) -> int {
    amount_in * (10_000 - fee_bps) / 10_000
}

/// The destination amount that a swap of `amount_in` pays out under the
/// constant-product rule `x * y = k`: with `dx` the input after the fee, the
/// pool pays `destination * dx / (source + dx)`, rounded down, so that the
/// product of the reserves does not fall. Nothing is paid for no input.
pub open spec fn swap_output(
    amount_in: int,
    destination_reserve: int,
    source_reserve: int,
    fee_bps: int,
) -> int {
    let dx = amount_after_fee(amount_in, fee_bps);
    if dx == 0 {
        0
    } else {
        destination_reserve * dx / (source_reserve + dx)
    }
}

/// The constant-product output never exceeds the destination reserve, and
/// the reserves after the swap keep at least the product they had:
/// `(source + dx) * (destination - out) >= source * destination`.
pub proof fn lemma_swap_output_keeps_invariant(
    amount_in: int,
    destination_reserve: int,
    source_reserve: int,
    fee_bps: int,
)
    requires
        0 <= amount_in,
        0 <= destination_reserve,
        0 <= source_reserve,
        0 <= fee_bps <= 10_000,
    ensures
        0 <= amount_after_fee(amount_in, fee_bps) <= amount_in,
        0 <= swap_output(amount_in, destination_reserve, source_reserve, fee_bps)
            <= destination_reserve,
        (source_reserve + amount_after_fee(amount_in, fee_bps)) * (destination_reserve
            - swap_output(amount_in, destination_reserve, source_reserve, fee_bps))
            >= pool_invariant(destination_reserve, source_reserve),
        (source_reserve + amount_after_fee(amount_in, fee_bps)) * (destination_reserve
            - swap_output(amount_in, destination_reserve, source_reserve, fee_bps))
            <= pool_invariant(destination_reserve, source_reserve) + source_reserve
            + amount_after_fee(amount_in, fee_bps),
{
    let dx = amount_after_fee(amount_in, fee_bps);
    assert(0 <= amount_in * (10_000 - fee_bps) <= amount_in * 10_000) by (nonlinear_arith)
        requires
            0 <= fee_bps <= 10_000,
            amount_in >= 0,
    ;
    let out = swap_output(amount_in, destination_reserve, source_reserve, fee_bps);
    if dx == 0 {
        assert(source_reserve * destination_reserve == pool_invariant(
            destination_reserve,
            source_reserve,
        )) by (nonlinear_arith);
    } else {
        let n = destination_reserve * dx;
        let d = source_reserve + dx;
        assert(0 <= n) by (nonlinear_arith)
            requires
                n == destination_reserve * dx,
                0 <= destination_reserve,
                0 <= dx,
        ;
        lemma_div_rem(n, d);
        assert(out * d <= n) by (nonlinear_arith)
            requires
                n == d * out + n % d,
                0 <= n % d,
        ;
        assert(out <= destination_reserve) by (nonlinear_arith)
            requires
                out * d <= destination_reserve * dx,
                dx <= d,
                0 < d,
                0 <= destination_reserve,
        ;
        assert(d * (destination_reserve - out) >= source_reserve * destination_reserve)
            by (nonlinear_arith)
            requires
                out * d <= destination_reserve * dx,
                d == source_reserve + dx,
        ;
        assert(d * (destination_reserve - out) <= source_reserve * destination_reserve + d)
            by (nonlinear_arith)
            requires
                n == d * out + n % d,
                n % d < d,
                n == destination_reserve * dx,
                d == source_reserve + dx,
        ;
        assert(source_reserve * destination_reserve == pool_invariant(
            destination_reserve,
            source_reserve,
        )) by (nonlinear_arith);
    }
}

/// The destination amount of a swap of `amount_in` source tokens against the
/// two reserves, with a fee of `fee_bps` basis points: the constant-product
/// output `swap_output`. A result that would let the pool invariant fall by
/// more than one unit is refused, which the rounding down rules out.
pub fn swap_calculation(
    amount_in: u64,
    destination_reserve_amount: &u64,
    source_reserve_amount: &u64,
    fee_bps: u16,
) -> (res: Result<u64, CustomError>)
    requires
        fee_bps <= 10_000,
    ensures
        res == Ok::<u64, CustomError>(
            swap_output(
                amount_in as int,
                *destination_reserve_amount as int,
                *source_reserve_amount as int,
                fee_bps as int,
            ) as u64,
        ),
        res matches Ok(out) ==> {
            &&& out <= *destination_reserve_amount
            &&& (*source_reserve_amount + amount_after_fee(amount_in as int, fee_bps as int)) * (
            *destination_reserve_amount - out) >= pool_invariant(
                *destination_reserve_amount as int,
                *source_reserve_amount as int,
            )
        },
{
    proof {
        lemma_swap_output_keeps_invariant(
            amount_in as int,
            *destination_reserve_amount as int,
            *source_reserve_amount as int,
            fee_bps as int,
        );
    }
    let destination = *destination_reserve_amount as u128;
    let source = *source_reserve_amount as u128;
    assert(destination * source <= u128::MAX) by (nonlinear_arith)
        requires
            destination <= u64::MAX,
            source <= u64::MAX,
    ;
    let k = destination * source;
    let fee_numerator = 10_000u128 - fee_bps as u128;
    assert(amount_in as u128 * fee_numerator <= u128::MAX) by (nonlinear_arith)
        requires
            amount_in <= u64::MAX,
            fee_numerator <= 10_000,
    ;
    let amount_in_with_fee = amount_in as u128 * fee_numerator / 10_000;
    let destination_amount = if amount_in_with_fee == 0 {
        0
    } else {
        assert(destination * amount_in_with_fee <= u128::MAX) by (nonlinear_arith)
            requires
                destination <= u64::MAX,
                amount_in_with_fee <= u64::MAX,
        ;
        destination * amount_in_with_fee / (source + amount_in_with_fee)
    };
    let new_source_amount = source + amount_in_with_fee;
    let destination_new_amount = destination - destination_amount;
    assert(new_source_amount * destination_new_amount <= u128::MAX) by (nonlinear_arith)
        requires
            new_source_amount * destination_new_amount <= destination * source
                + new_source_amount,
            destination <= u64::MAX,
            source <= u64::MAX,
            new_source_amount <= 2 * u64::MAX,
    ;
    let k_new = new_source_amount * destination_new_amount;
    if k_new < k {
        let difference = k - k_new;
        if difference > 1 {
            return Err(CustomError::InvariantKDecreasedTooMuch);
        }
    }
    Ok(destination_amount as u64)
}

} // verus!
