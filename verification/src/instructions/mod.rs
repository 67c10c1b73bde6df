pub mod de_liquidate;
pub mod init;
pub mod liquidate;
pub mod swap;
