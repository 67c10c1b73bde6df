pub mod swap_tokens;
