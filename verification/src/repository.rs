use vstd::prelude::*;

use crate::date::Date;

verus! {

/// A change of one transaction's category.
#[derive(Debug)]
pub struct TransactionUpdate {
    pub transaction_id: String,
    pub category_id: String,
}

/// The content of a `TransactionUpdate`.
pub struct UpdateView {
    pub transaction_id: Seq<char>,
    pub category_id: Seq<char>,
}

impl View for TransactionUpdate {
    type V = UpdateView;

    open spec fn view(&self) -> UpdateView {
        UpdateView { transaction_id: self.transaction_id@, category_id: self.category_id@ }
    }
}

}

verus! {

/// A transaction as it is to be stored.
#[derive(Debug)]
pub struct CreateTransactionModel {
    pub id: String,
    pub amount_cents: i32,
    pub description: String,
    pub date: Date,
    pub category: Option<String>,
}

/// How storing one transaction went.
#[derive(Debug)]
pub enum CreateTransactionResultMessage {
    Success,
    /// A transaction with the same id is stored already.
    Duplicate,
    Error(String),
}

/// How storing one transaction went, with the description and date that
/// tell which transaction it was.
#[derive(Debug)]
pub struct CreateTransactionResult {
    pub description: String,
    pub date: Date,
    pub message: CreateTransactionResultMessage,
}

/// The kind of error that the database reported.
#[derive(Debug, Clone, Copy, PartialEq, Eq, Structural)]
pub enum DbErrorKind {
    UniqueViolation,
    ForeignKeyViolation,
    NotNullViolation,
    CheckViolation,
    Other,
}

/// Why storing a transaction failed: an error that the database itself
/// reported for the query, with its kind, or any other failure. `detail` is
/// the error's `Debug` text.
#[derive(Debug)]
pub enum DbFailure {
    Database { kind: DbErrorKind, detail: String },
    Other { detail: String },
}

/// `message` is what a failure to store `e` is reported as: a unique
/// violation that the database reports is a duplicate, and any other failure
/// an error with the failure's text.
pub open spec fn reports_failure(e: DbFailure, message: CreateTransactionResultMessage) -> bool {
    match e {
        DbFailure::Database { kind, detail } => if kind == DbErrorKind::UniqueViolation {
            message is Duplicate
        } else {
            message matches CreateTransactionResultMessage::Error(m) && m@ == detail@
        },
        DbFailure::Other { detail } => message matches CreateTransactionResultMessage::Error(m)
            && m@ == detail@,
    }
}

impl CreateTransactionResultMessage {
    /// What a failure to store a transaction is reported as.
    pub fn from_db_failure(e: &DbFailure) -> (m: Self)
        ensures
            reports_failure(*e, m),
    {
        match e {
            DbFailure::Database { kind, detail } => {
                if *kind == DbErrorKind::UniqueViolation {
                    CreateTransactionResultMessage::Duplicate
                } else {
                    CreateTransactionResultMessage::Error(detail.clone())
                }
            },
            DbFailure::Other { detail } => CreateTransactionResultMessage::Error(detail.clone()),
        }
    }
}

impl CreateTransactionResult {
    /// The result of storing `t`, given how the insertion went.
    pub fn from_outcome(t: CreateTransactionModel, outcome: &Result<(), DbFailure>) -> (r: Self)
        ensures
            r.description@ == t.description@,
            r.date@ == t.date@,
            outcome is Ok ==> r.message is Success,
            outcome matches Err(e) ==> reports_failure(*e, r.message),
    {
        let message = match outcome {
            Ok(_) => CreateTransactionResultMessage::Success,
            Err(e) => CreateTransactionResultMessage::from_db_failure(e),
        };
        CreateTransactionResult { description: t.description, date: t.date, message }
    }
}

}

verus! {

/// A unique violation that the database reports is a duplicate, and nothing
/// else is.
pub proof fn lemma_unique_violation_is_duplicate(
    detail: String,
    m: CreateTransactionResultMessage,
)
    ensures
        reports_failure(DbFailure::Database { kind: DbErrorKind::UniqueViolation, detail }, m)
            <==> m is Duplicate,
{
}

/// Any other database error, whatever its kind, is an error with its own
/// text, never a duplicate.
pub proof fn lemma_other_database_error_is_error(
    kind: DbErrorKind,
    detail: String,
    m: CreateTransactionResultMessage,
)
    requires
        kind != DbErrorKind::UniqueViolation,
    ensures
        reports_failure(DbFailure::Database { kind, detail }, m) <==> (
        m matches CreateTransactionResultMessage::Error(x) && x@ == detail@),
        reports_failure(DbFailure::Database { kind, detail }, m) ==> !(m is Duplicate),
{
}

/// A failure other than a database error is an error with its own text.
pub proof fn lemma_other_failure_is_error(detail: String, m: CreateTransactionResultMessage)
    ensures
        reports_failure(DbFailure::Other { detail }, m) <==> (
        m matches CreateTransactionResultMessage::Error(x) && x@ == detail@),
{
}

}
