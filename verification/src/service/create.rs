use vstd::prelude::*;
use vstd::string::StringExecFns;

use crate::date::{iso_date_text, Date};
use crate::repository::CreateTransactionModel;

verus! {

/// A transaction read from a bank's export, before it is stored.
#[derive(Debug)]
pub struct CreateTransactionInput {
    pub amount_cents: i32,
    pub description: String,
    pub date: Date,
}

/// The id of a transaction: its date as `%Y-%m-%d` followed by its
/// description.
pub open spec fn transaction_id(date: Date, description: Seq<char>) -> Seq<char> {
    date.text_spec() + description
}

/// `m` is how the input `i` is stored: under the id made of its date and
/// description, with no category, and with its amount, description and date.
pub open spec fn is_model_of(i: CreateTransactionInput, m: CreateTransactionModel) -> bool {
    &&& m.id@ == transaction_id(i.date, i.description@)
    &&& m.amount_cents == i.amount_cents
    &&& m.description@ == i.description@
    &&& m.date@ == i.date@
    &&& m.category is None
}

/// How an input is stored; it is not classified yet.
pub fn input_to_model(i: CreateTransactionInput) -> (m: CreateTransactionModel)
    ensures
        is_model_of(i, m),
{
    let mut id = i.date.text();
    id.append(i.description.as_str());
    let category = None;
    CreateTransactionModel {
        id,
        amount_cents: i.amount_cents,
        description: i.description,
        date: i.date,
        category,
    }
}

/// `input_to_model` of each input, in order.
pub fn inputs_to_models(is: Vec<CreateTransactionInput>) -> (ms: Vec<CreateTransactionModel>)
    ensures
        ms@.len() == is@.len(),
        forall|k: int| 0 <= k < is@.len() ==> is_model_of(is@[k], #[trigger] ms@[k]),
{
    let ghost inputs = is@;
    let mut ms: Vec<CreateTransactionModel> = Vec::new();
    for i in it: is.into_iter()
        invariant
            it.seq() == inputs,
            ms@.len() == it.index(),
            forall|k: int| 0 <= k < ms@.len() ==> is_model_of(inputs[k], #[trigger] ms@[k]),
    {
        ms.push(input_to_model(i));
    }
    ms
}

}

verus! {

/// Inputs with the same date and description are stored under the same id,
/// so storing the second one meets the first.
pub proof fn lemma_same_input_same_id(
    i1: CreateTransactionInput,
    i2: CreateTransactionInput,
    m1: CreateTransactionModel,
    m2: CreateTransactionModel,
)
    requires
        is_model_of(i1, m1),
        is_model_of(i2, m2),
        i1.date@ == i2.date@,
        i1.description@ == i2.description@,
    ensures
        m1.id@ == m2.id@,
{
}

/// On one date, inputs with different descriptions are stored under
/// different ids.
pub proof fn lemma_distinct_descriptions_distinct_ids(
    i1: CreateTransactionInput,
    i2: CreateTransactionInput,
    m1: CreateTransactionModel,
    m2: CreateTransactionModel,
)
    requires
        is_model_of(i1, m1),
        is_model_of(i2, m2),
        i1.date@ == i2.date@,
        i1.description@ != i2.description@,
    ensures
        m1.id@ != m2.id@,
{
    let prefix = i1.date.text_spec();
    assert(prefix == i2.date.text_spec());
    assert((prefix + i1.description@).skip(prefix.len() as int) =~= i1.description@);
    assert((prefix + i2.description@).skip(prefix.len() as int) =~= i2.description@);
}

}

verus! {

/// A stored transaction's id is its date written `%Y-%m-%d` followed by its
/// description; it has no category and keeps amount, description and date.
pub proof fn lemma_model_fields(i: CreateTransactionInput, m: CreateTransactionModel)
    requires
        is_model_of(i, m),
    ensures
        m.id@ == iso_date_text(i.date@.0, i.date@.1, i.date@.2) + i.description@,
        m.category is None,
        m.amount_cents == i.amount_cents,
        m.description@ == i.description@,
        m.date@ == i.date@,
{
}

}
