use vstd::prelude::*;

verus! {

/// The errors that the pool's instructions report.
#[derive(Debug, Clone, Copy, PartialEq, Eq, Structural)]
pub enum CustomError {
    TokensAmountNotInExpectedRatio,
    NumericalOverflow,
    InvariantKDecreasedTooMuch,
    MintDoNotMatch,
    FoundReserveTokensNull,
    LpTokenBurnAmountNotSatisfied,
    TokensRatioNotSatisfied,
    OverflowInTokenRatioCheck,
    OverflowInLiquidityAmountCalculation,
    OverflowInTokenAmountCalculationAfterBurn,
    OverflowInTokenAmountCalculationAfterSwap,
    OverflowInAfterLiquidityAmountCalculation,
    InvalidAccountData,
    LpTokenMintAmountNotSatisfied,
}

/// The message reported with each error.
pub open spec fn error_message(e: CustomError) -> Seq<char> {
    match e {
        CustomError::TokensAmountNotInExpectedRatio => "Tokens Unit Not In Correct Ratio"@,
        CustomError::NumericalOverflow => "Math overflow: pool reserves too large"@,
        CustomError::InvariantKDecreasedTooMuch => "Invariant decreased too much (k dropped)."@,
        CustomError::MintDoNotMatch => "Token mint do not much"@,
        CustomError::FoundReserveTokensNull => "No history of providing liquidity to pool"@,
        CustomError::LpTokenBurnAmountNotSatisfied => "Lp token burn amount is greater"@,
        CustomError::TokensRatioNotSatisfied => "Both tokens must be in poll expected ratio"@,
        CustomError::OverflowInTokenRatioCheck => "Math overflow, try with less token amount"@,
        CustomError::OverflowInLiquidityAmountCalculation => "Math overflow, try with less token amount "@,
        CustomError::OverflowInTokenAmountCalculationAfterBurn => "Math overflow, try with less token amount "@,
        CustomError::OverflowInTokenAmountCalculationAfterSwap => "Math overflow, try with less token amount "@,
        CustomError::OverflowInAfterLiquidityAmountCalculation => "Math overflow, try with less token amount "@,
        CustomError::InvalidAccountData => "An account's data contents was invalid"@,
        CustomError::LpTokenMintAmountNotSatisfied => "Lp token mint amount is greater than the liquidity credited"@,
    }
}

impl CustomError {
    /// The message reported with this error.
    pub fn message(&self) -> (m: &'static str)
        ensures
            m@ == error_message(*self),
    {
        match self {
            CustomError::TokensAmountNotInExpectedRatio => "Tokens Unit Not In Correct Ratio",
            CustomError::NumericalOverflow => "Math overflow: pool reserves too large",
            CustomError::InvariantKDecreasedTooMuch => "Invariant decreased too much (k dropped).",
            CustomError::MintDoNotMatch => "Token mint do not much",
            CustomError::FoundReserveTokensNull => "No history of providing liquidity to pool",
            CustomError::LpTokenBurnAmountNotSatisfied => "Lp token burn amount is greater",
            CustomError::TokensRatioNotSatisfied => "Both tokens must be in poll expected ratio",
            CustomError::OverflowInTokenRatioCheck => "Math overflow, try with less token amount",
            CustomError::OverflowInLiquidityAmountCalculation => "Math overflow, try with less token amount ",
            CustomError::OverflowInTokenAmountCalculationAfterBurn => "Math overflow, try with less token amount ",
            CustomError::OverflowInTokenAmountCalculationAfterSwap => "Math overflow, try with less token amount ",
            CustomError::OverflowInAfterLiquidityAmountCalculation => "Math overflow, try with less token amount ",
            CustomError::InvalidAccountData => "An account's data contents was invalid",
            CustomError::LpTokenMintAmountNotSatisfied => "Lp token mint amount is greater than the liquidity credited",
        }
    }
}

} // verus!
