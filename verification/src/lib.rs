pub mod classify;
pub mod date;
pub mod entities;
pub mod regex_match;
pub mod repository;
pub mod service;
pub mod string_err;
pub mod text;

pub use date::Date;
pub use repository::{
    CreateTransactionModel, CreateTransactionResult, CreateTransactionResultMessage, DbErrorKind,
    DbFailure, TransactionUpdate,
};
pub use service::create::CreateTransactionInput;
pub use string_err::StringErr;
