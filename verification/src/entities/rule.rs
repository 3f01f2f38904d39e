use vstd::prelude::*;

verus! {

/// A row of the `rule` table: transactions whose description the rule
/// matches belong to its category.
#[derive(Debug)]
pub struct Model {
    pub id: i32,
    /// `"STRING_MATCH"` or `"REGEX"`.
    pub rule_type: String,
    pub pattern: String,
    /// The id of the category.
    pub category: String,
}

}
