pub mod rule;
pub mod transaction;
