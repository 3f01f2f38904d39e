use vstd::prelude::*;

use crate::date::Date;

verus! {

/// A row of the `transaction` table.
#[derive(Debug)]
pub struct Model {
    pub id: String,
    pub amount_cents: i32,
    pub description: String,
    pub date: Date,
    /// The id of the transaction's category, where one is set.
    pub category: Option<String>,
}

}
