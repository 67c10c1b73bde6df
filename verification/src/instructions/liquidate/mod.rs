pub mod deposit_and_mint_tokens;
