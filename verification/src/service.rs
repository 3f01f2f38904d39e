pub mod classify;
pub mod create;
