pub mod initialize;
pub mod update;
