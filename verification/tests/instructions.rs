use contract::error::CustomError;
use contract::instructions::de_liquidate::withdraw_and_burn_tokens::{
    process_burn, process_withdraw, withdraw_is_computable, DeLiquidateBurnAccount,
    DeLiquidateWithdrawAccount,
};
use contract::instructions::init::initialize::{
    process_init_liquidity_provider, process_init_lp_token_account, process_init_pool,
    process_init_reserve_a, process_init_reserve_b, InitReserveA, InitReserveB,
    LiquidityProviderAccount, LpTokenAccount, PoolAccount,
};
use contract::instructions::init::update::{process_update, UpdatePoolAccount};
use contract::instructions::liquidate::deposit_and_mint_tokens::{
    deposit_is_computable, process_deposit, process_mint_tokens, LiquidateDepositAccount,
    LiquidateMintTokenAccount,
};
use contract::instructions::swap::swap_tokens::{
    process_swap, swap_request_is_computable, SwapTokens, SwapTransfer,
};
use contract::state::{Address, LiquidityProvider, LpToken, Pool};

fn addr(n: u128) -> Address {
    Address { high: 0, low: n }
}

fn empty_pool() -> Pool {
    Pool {
        authority: addr(0),
        reserve_a_mint: addr(0),
        reserve_b_mint: addr(0),
        reserve_a_token: addr(0),
        reserve_b_token: addr(0),
        fee_bps: 0,
        last_update_ts: 0,
        bump: 0,
        first_liquidity_deposit: false,
        reserve_a_amount: 0,
        reserve_b_amount: 0,
    }
}

fn pool_with(reserve_a: u64, reserve_b: u64) -> Pool {
    Pool {
        reserve_a_mint: addr(10),
        reserve_b_mint: addr(11),
        reserve_a_amount: reserve_a,
        reserve_b_amount: reserve_b,
        ..empty_pool()
    }
}

fn lp_token(total: u64) -> LpToken {
    LpToken { total_liquidity: total, lp_mint: addr(5), bump: 3, total_fees: 0, last_update_ts: 0 }
}

fn provider(reserve_a: u64, reserve_b: u64, tokens: u64) -> LiquidityProvider {
    LiquidityProvider {
        liquidator: addr(7),
        reserve_a_amount: reserve_a,
        reserve_b_amount: reserve_b,
        token_amount: tokens,
        minted_amount: 0,
        liquidator_acc_bump: 1,
        is_initialized: true,
    }
}

#[test]
fn init_pool_fills_in_fields() {
    let mut ctx = PoolAccount {
        payer: addr(1),
        reserve_a_mint: addr(2),
        reserve_b_mint: addr(3),
        pool_account: Pool { reserve_a_amount: 9, first_liquidity_deposit: true, ..empty_pool() },
    };
    process_init_pool(&mut ctx, 254, 1_700_000_000, 30);
    let p = ctx.pool_account;
    assert_eq!(p.authority, addr(1));
    assert_eq!(p.reserve_a_mint, addr(2));
    assert_eq!(p.reserve_b_mint, addr(3));
    assert_eq!(p.bump, 254);
    assert_eq!(p.fee_bps, 30);
    assert_eq!(p.last_update_ts, 1_700_000_000);
    assert_eq!(p.reserve_a_amount, 0);
    assert_eq!(p.reserve_b_amount, 0);
    assert!(p.first_liquidity_deposit);
}

#[test]
fn init_reserve_a_checks_mint() {
    let mut ctx = InitReserveA {
        payer: addr(1),
        reserve_a_mint: addr(10),
        reserve_b_mint: addr(11),
        pool_account: pool_with(0, 0),
        reserve_a_account: addr(20),
    };
    assert_eq!(process_init_reserve_a(&mut ctx), Ok(()));
    assert_eq!(ctx.pool_account.reserve_a_token, addr(20));

    let mut wrong = InitReserveA { reserve_a_mint: addr(12), ..ctx };
    wrong.pool_account.reserve_a_token = addr(0);
    assert_eq!(process_init_reserve_a(&mut wrong), Err(CustomError::InvalidAccountData));
    assert_eq!(wrong.pool_account.reserve_a_token, addr(0));
}

#[test]
fn init_reserve_b_checks_mint() {
    let mut ctx = InitReserveB {
        payer: addr(1),
        pool_account: pool_with(0, 0),
        reserve_b_mint: addr(11),
        reserve_b_account: addr(21),
    };
    assert_eq!(process_init_reserve_b(&mut ctx), Ok(()));
    assert_eq!(ctx.pool_account.reserve_b_token, addr(21));

    let mut wrong = InitReserveB { reserve_b_mint: addr(10), ..ctx };
    wrong.pool_account.reserve_b_token = addr(0);
    assert_eq!(process_init_reserve_b(&mut wrong), Err(CustomError::InvalidAccountData));
    assert_eq!(wrong.pool_account.reserve_b_token, addr(0));
}

#[test]
fn init_liquidity_provider_only_once() {
    let mut ctx = LiquidityProviderAccount {
        payer: addr(8),
        liquidity_provider_account: LiquidityProvider {
            is_initialized: false,
            minted_amount: 5,
            ..provider(5, 5, 5)
        },
    };
    process_init_liquidity_provider(&mut ctx, 200);
    let lp = ctx.liquidity_provider_account;
    assert_eq!(lp.liquidator, addr(8));
    assert_eq!((lp.reserve_a_amount, lp.reserve_b_amount, lp.token_amount), (0, 0, 0));
    assert_eq!(lp.minted_amount, 0);
    assert_eq!(lp.liquidator_acc_bump, 200);
    assert!(lp.is_initialized);

    let mut again = LiquidityProviderAccount {
        payer: addr(9),
        liquidity_provider_account: provider(5, 6, 7),
    };
    process_init_liquidity_provider(&mut again, 100);
    let lp = again.liquidity_provider_account;
    assert_eq!(lp.liquidator, addr(7));
    assert_eq!(lp.minted_amount, 0);
    assert_eq!((lp.reserve_a_amount, lp.reserve_b_amount, lp.token_amount), (5, 6, 7));
    assert_eq!(lp.liquidator_acc_bump, 1);
}

#[test]
fn init_lp_token_account_resets_totals() {
    let mut ctx = LpTokenAccount {
        payer: addr(1),
        lp_token_mint: addr(30),
        lp_token_account: LpToken { total_fees: 4, last_update_ts: 77, ..lp_token(9) },
    };
    process_init_lp_token_account(&mut ctx, 251);
    let t = ctx.lp_token_account;
    assert_eq!(t.total_fees, 0);
    assert_eq!(t.total_liquidity, 0);
    assert_eq!(t.lp_mint, addr(30));
    assert_eq!(t.bump, 251);
    assert_eq!(t.last_update_ts, 77);
}

#[test]
fn update_sets_fee() {
    let mut ctx = UpdatePoolAccount { pool_account: pool_with(3, 4) };
    process_update(&mut ctx, 45);
    assert_eq!(ctx.pool_account.fee_bps, 45);
    assert_eq!(ctx.pool_account.reserve_a_amount, 3);
}

#[test]
fn deposit_in_ratio_credits_liquidity() {
    let mut ctx = LiquidateDepositAccount {
        pool_account: pool_with(100, 50),
        lptoken_account: lp_token(70),
        liquidity_provider_account: provider(0, 0, 0),
    };
    assert_eq!(process_deposit(&mut ctx, 20, 10), Ok(()));
    assert_eq!(ctx.pool_account.reserve_a_amount, 120);
    assert_eq!(ctx.pool_account.reserve_b_amount, 60);
    assert_eq!(ctx.lptoken_account.total_liquidity, 70);
    let lp = ctx.liquidity_provider_account;
    assert_eq!((lp.reserve_a_amount, lp.reserve_b_amount, lp.token_amount), (20, 10, 14));
}

#[test]
fn first_deposit_credits_square_root() {
    let mut ctx = LiquidateDepositAccount {
        pool_account: Pool { first_liquidity_deposit: true, ..pool_with(0, 0) },
        lptoken_account: lp_token(0),
        liquidity_provider_account: provider(1, 1, 1),
    };
    assert_eq!(process_deposit(&mut ctx, 4, 9), Ok(()));
    assert_eq!(ctx.pool_account.reserve_a_amount, 4);
    assert_eq!(ctx.pool_account.reserve_b_amount, 9);
    let lp = ctx.liquidity_provider_account;
    assert_eq!((lp.reserve_a_amount, lp.reserve_b_amount, lp.token_amount), (5, 10, 7));
}

#[test]
fn deposit_out_of_ratio_changes_nothing() {
    let mut ctx = LiquidateDepositAccount {
        pool_account: pool_with(100, 50),
        lptoken_account: lp_token(70),
        liquidity_provider_account: provider(0, 0, 0),
    };
    assert_eq!(process_deposit(&mut ctx, 21, 10), Err(CustomError::TokensAmountNotInExpectedRatio));
    assert_eq!(ctx.pool_account.reserve_a_amount, 100);
    assert_eq!(ctx.pool_account.reserve_b_amount, 50);
    assert_eq!(ctx.liquidity_provider_account.token_amount, 0);
}

#[test]
fn deposit_with_empty_reserve_a_fails_in_liquidity() {
    // ratio 0 / 50 == 0, so a deposit of (0, 10) passes the ratio check,
    // but the share of an empty reserve A cannot be computed
    let mut ctx = LiquidateDepositAccount {
        pool_account: pool_with(0, 50),
        lptoken_account: lp_token(70),
        liquidity_provider_account: provider(0, 0, 0),
    };
    assert_eq!(
        process_deposit(&mut ctx, 0, 10),
        Err(CustomError::OverflowInAfterLiquidityAmountCalculation)
    );
    assert_eq!(ctx.pool_account.reserve_b_amount, 50);
    assert_eq!(ctx.liquidity_provider_account.reserve_b_amount, 0);
}

#[test]
fn deposit_by_uninitialized_provider_fails() {
    let mut ctx = LiquidateDepositAccount {
        pool_account: pool_with(100, 50),
        lptoken_account: lp_token(70),
        liquidity_provider_account: LiquidityProvider { is_initialized: false, ..provider(0, 0, 0) },
    };
    assert_eq!(process_deposit(&mut ctx, 20, 10), Err(CustomError::InvalidAccountData));
    assert_eq!(ctx.pool_account.reserve_a_amount, 100);
    assert_eq!(ctx.liquidity_provider_account.token_amount, 0);
}

#[test]
fn mint_records_credited_amount() {
    let mut ctx = LiquidateMintTokenAccount {
        lptoken_account: lp_token(70),
        liquidity_provider_account: LiquidityProvider { minted_amount: 4, ..provider(20, 10, 14) },
    };
    assert_eq!(process_mint_tokens(&mut ctx, 10, 1234), Ok(()));
    assert_eq!(ctx.lptoken_account.total_liquidity, 80);
    assert_eq!(ctx.lptoken_account.last_update_ts, 1234);
    assert_eq!(ctx.liquidity_provider_account.minted_amount, 14);
    assert_eq!(ctx.liquidity_provider_account.token_amount, 14);
}

#[test]
fn mint_beyond_credit_fails() {
    let mut ctx = LiquidateMintTokenAccount {
        lptoken_account: lp_token(70),
        liquidity_provider_account: LiquidityProvider { minted_amount: 4, ..provider(20, 10, 14) },
    };
    assert_eq!(
        process_mint_tokens(&mut ctx, 11, 1234),
        Err(CustomError::LpTokenMintAmountNotSatisfied)
    );
    assert_eq!(ctx.lptoken_account.total_liquidity, 70);
    assert_eq!(ctx.lptoken_account.last_update_ts, 0);
    assert_eq!(ctx.liquidity_provider_account.minted_amount, 4);
}

#[test]
fn credit_is_minted_only_once() {
    let mut ctx = LiquidateMintTokenAccount {
        lptoken_account: lp_token(0),
        liquidity_provider_account: provider(20, 10, 10),
    };
    assert_eq!(process_mint_tokens(&mut ctx, 10, 1), Ok(()));
    // whatever became of the minted tokens, the credit is used up
    assert_eq!(
        process_mint_tokens(&mut ctx, 10, 2),
        Err(CustomError::LpTokenMintAmountNotSatisfied)
    );
    assert_eq!(
        process_mint_tokens(&mut ctx, 1, 3),
        Err(CustomError::LpTokenMintAmountNotSatisfied)
    );
    assert_eq!(ctx.lptoken_account.total_liquidity, 10);
    let mut huge = LiquidateMintTokenAccount {
        lptoken_account: lp_token(0),
        liquidity_provider_account: LiquidityProvider { minted_amount: u64::MAX, ..provider(1, 1, u64::MAX) },
    };
    assert_eq!(
        process_mint_tokens(&mut huge, 1, 4),
        Err(CustomError::LpTokenMintAmountNotSatisfied)
    );
}

#[test]
fn withdraw_pays_pro_rata_share() {
    let mut ctx = DeLiquidateWithdrawAccount {
        pool_account: pool_with(120, 60),
        liquidity_provider_account: provider(20, 10, 14),
        lptoken_account: lp_token(84),
    };
    assert_eq!(process_withdraw(&mut ctx, 14), Ok((20, 10)));
    assert_eq!(ctx.pool_account.reserve_a_amount, 100);
    assert_eq!(ctx.pool_account.reserve_b_amount, 50);
    let lp = ctx.liquidity_provider_account;
    assert_eq!((lp.reserve_a_amount, lp.reserve_b_amount, lp.token_amount), (0, 0, 0));
}

#[test]
fn withdraw_part_of_credit() {
    let mut ctx = DeLiquidateWithdrawAccount {
        pool_account: pool_with(120, 60),
        liquidity_provider_account: provider(20, 10, 14),
        lptoken_account: lp_token(84),
    };
    ctx.liquidity_provider_account.minted_amount = 10;
    // 7 * 120 / 84 == 10, 7 * 60 / 84 == 5
    assert_eq!(process_withdraw(&mut ctx, 7), Ok((10, 5)));
    let lp = ctx.liquidity_provider_account;
    assert_eq!((lp.reserve_a_amount, lp.reserve_b_amount, lp.token_amount), (10, 5, 7));
    // the minted figure falls to the remaining credit
    assert_eq!(lp.minted_amount, 7);
    assert_eq!(ctx.lptoken_account.total_liquidity, 84);
}

#[test]
fn withdraw_without_deposit_fails() {
    let mut ctx = DeLiquidateWithdrawAccount {
        pool_account: pool_with(120, 60),
        liquidity_provider_account: provider(0, 10, 14),
        lptoken_account: lp_token(84),
    };
    assert_eq!(process_withdraw(&mut ctx, 14), Err(CustomError::FoundReserveTokensNull));
    assert_eq!(ctx.pool_account.reserve_a_amount, 120);
}

#[test]
fn withdraw_above_credited_liquidity_fails() {
    let mut ctx = DeLiquidateWithdrawAccount {
        pool_account: pool_with(120, 60),
        liquidity_provider_account: provider(20, 10, 14),
        lptoken_account: lp_token(84),
    };
    assert_eq!(
        process_withdraw(&mut ctx, 15),
        Err(CustomError::LpTokenBurnAmountNotSatisfied)
    );
    assert_eq!(ctx.liquidity_provider_account.reserve_a_amount, 20);
}

#[test]
fn withdraw_with_no_liquidity_fails() {
    let mut ctx = DeLiquidateWithdrawAccount {
        pool_account: pool_with(120, 60),
        liquidity_provider_account: provider(20, 10, 14),
        lptoken_account: lp_token(0),
    };
    assert_eq!(
        process_withdraw(&mut ctx, 14),
        Err(CustomError::OverflowInTokenAmountCalculationAfterBurn)
    );
}

#[test]
fn burn_reduces_total() {
    let mut ctx = DeLiquidateBurnAccount { lptoken_account: lp_token(84) };
    process_burn(&mut ctx, 14);
    assert_eq!(ctx.lptoken_account.total_liquidity, 70);
}

fn swap_ctx(reserve_a: u64, reserve_b: u64) -> SwapTokens {
    SwapTokens {
        payer_source_token_mint: addr(10),
        payer_destination_token_mint: addr(11),
        reserve_a_mint: addr(10),
        reserve_b_mint: addr(11),
        pool_account: Pool { fee_bps: 30, ..pool_with(reserve_a, reserve_b) },
        lptoken_account: lp_token(0),
    }
}

#[test]
fn swap_from_a_to_b() {
    let mut ctx = swap_ctx(1000, 1000);
    assert_eq!(
        process_swap(&mut ctx, 100),
        Ok(SwapTransfer { source_is_reserve_a: true, source_amount: 100, destination_amount: 90 })
    );
    assert_eq!(ctx.pool_account.reserve_a_amount, 1100);
    assert_eq!(ctx.pool_account.reserve_b_amount, 910);
    assert_eq!(ctx.lptoken_account.total_fees, 1);
    assert!(1100u128 * 910 >= 1000 * 1000);
}

#[test]
fn swap_from_b_to_a() {
    let mut ctx = SwapTokens {
        payer_source_token_mint: addr(11),
        payer_destination_token_mint: addr(10),
        ..swap_ctx(500, 200)
    };
    ctx.pool_account.fee_bps = 0;
    // out = 500 * 100 / 300 = 166
    assert_eq!(
        process_swap(&mut ctx, 100),
        Ok(SwapTransfer { source_is_reserve_a: false, source_amount: 100, destination_amount: 166 })
    );
    assert_eq!(ctx.pool_account.reserve_a_amount, 334);
    assert_eq!(ctx.pool_account.reserve_b_amount, 300);
    assert_eq!(ctx.lptoken_account.total_fees, 0);
}

#[test]
fn swap_with_foreign_mint_fails() {
    let mut ctx = SwapTokens { payer_destination_token_mint: addr(12), ..swap_ctx(1000, 1000) };
    assert_eq!(process_swap(&mut ctx, 50), Err(CustomError::MintDoNotMatch));
    assert_eq!(ctx.pool_account.reserve_a_amount, 1000);
    let mut same = SwapTokens { payer_destination_token_mint: addr(10), ..swap_ctx(1000, 1000) };
    assert_eq!(process_swap(&mut same, 50), Err(CustomError::MintDoNotMatch));
    // the pool record's own mints decide
    let mut other_pool = swap_ctx(1000, 1000);
    other_pool.pool_account.reserve_a_mint = addr(99);
    assert_eq!(process_swap(&mut other_pool, 50), Err(CustomError::MintDoNotMatch));
}

#[test]
fn swap_overflowing_source_reserve_fails() {
    let mut ctx = swap_ctx(u64::MAX, 1000);
    assert_eq!(process_swap(&mut ctx, 1), Err(CustomError::NumericalOverflow));
    assert_eq!(ctx.pool_account.reserve_b_amount, 1000);
    let mut fees = swap_ctx(1000, 1000);
    fees.lptoken_account.total_fees = u64::MAX;
    assert_eq!(process_swap(&mut fees, 100), Err(CustomError::NumericalOverflow));
    assert_eq!(fees.pool_account.reserve_a_amount, 1000);
}

#[test]
fn deposit_computability() {
    let ok = LiquidateDepositAccount {
        pool_account: pool_with(100, 50),
        lptoken_account: lp_token(70),
        liquidity_provider_account: provider(0, 0, 0),
    };
    assert!(deposit_is_computable(&ok, 20, 10));
    // a refused deposit runs without fault
    assert!(deposit_is_computable(&ok, 21, 10));
    // a later deposit into a pool with no reserve B divides by zero
    let empty = LiquidateDepositAccount { pool_account: pool_with(100, 0), ..ok };
    assert!(!deposit_is_computable(&empty, 20, 10));
    // an accepted deposit that overflows the pool's reserve A
    let full = LiquidateDepositAccount { pool_account: pool_with(u64::MAX - 5, 1), ..ok };
    assert!(!deposit_is_computable(&full, u64::MAX - 5, 1));
    // a credited deposit that overflows the provider's liquidity
    let rich = LiquidateDepositAccount { liquidity_provider_account: provider(0, 0, u64::MAX), ..ok };
    assert!(!deposit_is_computable(&rich, 20, 10));
}

#[test]
fn withdraw_computability() {
    let ok = DeLiquidateWithdrawAccount {
        pool_account: pool_with(120, 60),
        liquidity_provider_account: provider(20, 10, 14),
        lptoken_account: lp_token(84),
    };
    assert!(withdraw_is_computable(&ok, 14));
    let short = DeLiquidateWithdrawAccount { liquidity_provider_account: provider(5, 10, 14), ..ok };
    assert!(!withdraw_is_computable(&short, 14));
    // refused withdrawals run without fault
    assert!(withdraw_is_computable(&short, 15));
}

#[test]
fn swap_computability() {
    assert!(swap_request_is_computable(&swap_ctx(0, 1000)));
    let mut ctx = swap_ctx(5, 100);
    ctx.pool_account.fee_bps = 10_001;
    assert!(!swap_request_is_computable(&ctx));
    let foreign = SwapTokens { payer_destination_token_mint: addr(12), ..ctx };
    assert!(swap_request_is_computable(&foreign));
}
