pub mod withdraw_and_burn_tokens;
