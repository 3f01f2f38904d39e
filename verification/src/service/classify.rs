use vstd::prelude::*;

use crate::classify::{
    applicable_rule, classifier_update, lemma_first_match_wins, lemma_no_match_no_update, rule_outcome, collect_updates, is_first_applicable,
    lemma_collect_error_persists, lemma_first_applicable_unique, match_rule, rule_applies,
    update_views, UpdatesOutcome,
};
use crate::entities::{rule, transaction};
use crate::regex_match::MatchOutcome;
use crate::repository::{TransactionUpdate, UpdateView};
use crate::string_err::StringErr;

verus! {

/// The transaction's category is set, to `category`.
pub open spec fn has_category(t: transaction::Model, category: Seq<char>) -> bool {
    t.category matches Some(c) && c@ == category
}

/// The update that the service makes for a transaction: the category of the
/// first rule that matches its description, unless the transaction has that
/// category already.
pub open spec fn service_update(t: transaction::Model, rules: Seq<rule::Model>) -> Option<UpdateView> {
    match applicable_rule(t.description@, rules) {
        Some(i) => if has_category(t, rules[i].category@) {
            None
        } else {
            Some(UpdateView { transaction_id: t.id@, category_id: rules[i].category@ })
        },
        None => None,
    }
}

/// `service_update` against fixed rules.
pub open spec fn service_step(rules: Seq<rule::Model>) -> spec_fn(transaction::Model) -> Option<UpdateView> {
    |t: transaction::Model| service_update(t, rules)
}

/// Finds the first rule that matches the transaction's description (a rule
/// whose matching fails counts as not matching) and gives the update to that
/// rule's category; `None` where no rule matches, or where the transaction
/// has that category already.
pub fn match_rules(t: &transaction::Model, rs: &[rule::Model]) -> (res: Option<TransactionUpdate>)
    ensures
        res matches Some(u) ==> service_update(*t, rs@) == Some(u@),
        res is None ==> service_update(*t, rs@) is None,
{
    let n = rs.len();
    for i in 0..n
        invariant
            n == rs@.len(),
            forall|j: int| 0 <= j < i ==> !rule_applies(t.description@, #[trigger] rs@[j]),
    {
        let applies = match match_rule(t, &rs[i]) {
            Ok(b) => b,
            Err(_) => false,
        };
        if applies {
            proof {
                assert(is_first_applicable(t.description@, rs@, i as int));
                let k = choose|k: int| is_first_applicable(t.description@, rs@, k);
                lemma_first_applicable_unique(t.description@, rs@, i as int, k);
            }
            if let Some(current) = &t.category {
                if *current == rs[i].category {
                    return None;
                }
            }
            return Some(
                TransactionUpdate {
                    transaction_id: t.id.clone(),
                    category_id: rs[i].category.clone(),
                },
            );
        }
    }
    None
}

/// Classifies the transactions in order against the rules and gives the
/// updates of those whose category changes, in order; the first transaction
/// that failed to load fails the whole with its error.
pub fn classify_transactions(
    ts: Vec<Result<transaction::Model, StringErr>>,
    rs: Vec<rule::Model>,
) -> (res: Result<Vec<TransactionUpdate>, StringErr>)
    ensures
        res matches Ok(us) ==> collect_updates(ts@, service_step(rs@)) == UpdatesOutcome::Ok(
            update_views(us@),
        ),
        res matches Err(e) ==> collect_updates(ts@, service_step(rs@)) == UpdatesOutcome::Err(
            e@,
        ),
{
    let mut out: Vec<TransactionUpdate> = Vec::new();
    let n = ts.len();
    proof {
        assert(update_views(out@) =~= Seq::<UpdateView>::empty());
        assert(ts@.take(0).len() == 0);
    }
    for i in 0..n
        invariant
            n == ts@.len(),
            collect_updates(ts@.take(i as int), service_step(rs@)) == UpdatesOutcome::Ok(
                update_views(out@),
            ),
    {
        proof {
            assert(ts@.take(i + 1).drop_last() =~= ts@.take(i as int));
        }
        match &ts[i] {
            Ok(t) => {
                let ghost before = out@;
                match match_rules(t, rs.as_slice()) {
                    Some(u) => {
                        out.push(u);
                        proof {
                            assert(update_views(out@) =~= update_views(before).push(u@));
                        }
                    },
                    None => {},
                }
            },
            Err(e) => {
                proof {
                    lemma_collect_error_persists(ts@, service_step(rs@), i + 1);
                }
                return Err(e.clone());
            },
        }
    }
    proof {
        assert(ts@.take(n as int) =~= ts@);
    }
    Ok(out)
}

}

verus! {

/// The service gives the update that the classifier gives, except where the
/// transaction has the category already; in particular the two agree on
/// transactions without a category.
pub proof fn lemma_service_update_agrees(t: transaction::Model, rules: Seq<rule::Model>)
    ensures
        classifier_update(t, rules) matches Some(u) && has_category(t, u.category_id)
            ==> service_update(t, rules) is None,
        !(classifier_update(t, rules) matches Some(u) && has_category(t, u.category_id))
            ==> service_update(t, rules) == classifier_update(t, rules),
        t.category is None ==> service_update(t, rules) == classifier_update(t, rules),
{
}

/// Classifying again changes nothing: a transaction that has been given the
/// category of its update (same description) gets no update the next time.
pub proof fn lemma_reclassify_is_noop(
    t: transaction::Model,
    updated: transaction::Model,
    rules: Seq<rule::Model>,
)
    requires
        service_update(t, rules) is Some,
        updated.description@ == t.description@,
        has_category(updated, service_update(t, rules)->0.category_id),
    ensures
        service_update(updated, rules) is None,
{
}

/// Once every transaction carries the category that its first matching rule
/// gives, classifying them all gives no update at all.
pub proof fn lemma_classified_transactions_are_fixed(
    items: Seq<Result<transaction::Model, StringErr>>,
    rules: Seq<rule::Model>,
)
    requires
        forall|k: int|
            0 <= k < items.len() ==> (#[trigger] items[k]) is Ok && (classifier_update(
                items[k]->Ok_0,
                rules,
            ) matches Some(u) ==> has_category(items[k]->Ok_0, u.category_id)),
    ensures
        collect_updates(items, service_step(rules)) == UpdatesOutcome::Ok(Seq::empty()),
    decreases items.len(),
{
    if items.len() > 0 {
        let init = items.drop_last();
        assert forall|k: int|
            0 <= k < init.len() implies (#[trigger] init[k]) is Ok && (classifier_update(
                init[k]->Ok_0,
                rules,
            ) matches Some(u) ==> has_category(init[k]->Ok_0, u.category_id)) by {
            assert(init[k] == items[k]);
        }
        lemma_classified_transactions_are_fixed(init, rules);
        assert(items.last() == items[items.len() - 1]);
    }
}

}

verus! {

/// The updates that the service gives carry the transaction's own id.
pub proof fn lemma_service_step_keeps_id(rules: Seq<rule::Model>)
    ensures
        forall|t: transaction::Model| #[trigger] service_step(rules)(t) matches Some(u)
            ==> u.transaction_id == t.id@,
{
}

}

verus! {

/// A transaction that loaded, or the error it failed to load with.
pub type LoadedItem = Result<transaction::Model, StringErr>;

/// The transactions, each as an item that loaded.
pub open spec fn loaded(ts: Seq<transaction::Model>) -> Seq<LoadedItem> {
    ts.map_values(|t: transaction::Model| LoadedItem::Ok(t))
}

/// The transaction's category, as text.
pub open spec fn category_view(t: transaction::Model) -> Option<Seq<char>> {
    match t.category {
        Some(c) => Some(c@),
        None => None,
    }
}

/// No two of the transactions have the same id (the table's primary key).
pub open spec fn distinct_ids(ts: Seq<transaction::Model>) -> bool {
    forall|i: int, j: int|
        0 <= i < ts.len() && 0 <= j < ts.len() && i != j ==> #[trigger] ts[i].id@ != #[trigger] ts[j].id@
}

/// The update is for the transaction with this id.
pub open spec fn update_names(u: UpdateView, id: Seq<char>) -> bool {
    u.transaction_id == id
}

/// `after` is `before` once the updates have been written: every
/// transaction keeps its id and description; one that an update names has
/// that update's category, and every other keeps its own.
pub open spec fn updates_applied(
    before: Seq<transaction::Model>,
    us: Seq<UpdateView>,
    after: Seq<transaction::Model>,
) -> bool {
    &&& after.len() == before.len()
    &&& forall|k: int|
        0 <= k < before.len() ==> {
            &&& (#[trigger] after[k]).id@ == before[k].id@
            &&& after[k].description@ == before[k].description@
            &&& (exists|j: int| 0 <= j < us.len() && update_names(#[trigger] us[j], before[k].id@))
                ==> exists|j: int|
                0 <= j < us.len() && update_names(#[trigger] us[j], before[k].id@)
                    && category_view(after[k]) == Some(us[j].category_id)
            &&& !(exists|j: int| 0 <= j < us.len() && update_names(#[trigger] us[j], before[k].id@))
                ==> category_view(after[k]) == category_view(before[k])
        }
}

/// Every update comes from one of the items: a transaction for which `step`
/// gives it.
proof fn lemma_updates_come_from_items(
    items: Seq<LoadedItem>,
    step: spec_fn(transaction::Model) -> Option<UpdateView>,
)
    ensures
        collect_updates(items, step) matches Ok(us) ==> forall|j: int|
            #![trigger us[j]]
            0 <= j < us.len() ==> exists|k: int|
                0 <= k < items.len() && (#[trigger] items[k]) is Ok && step(items[k]->Ok_0)
                    == Some(us[j]),
    decreases items.len(),
{
    if items.len() > 0 {
        let init = items.drop_last();
        lemma_updates_come_from_items(init, step);
        if collect_updates(items, step) is Ok {
            let done = collect_updates(init, step)->Ok_0;
            let us = collect_updates(items, step)->Ok_0;
            let last = items.len() - 1;
            assert forall|j: int| #![trigger us[j]] 0 <= j < us.len() implies exists|k: int|
                0 <= k < items.len() && (#[trigger] items[k]) is Ok && step(items[k]->Ok_0)
                    == Some(us[j]) by {
                if j < done.len() {
                    let k = choose|k: int|
                        0 <= k < init.len() && (#[trigger] init[k]) is Ok && step(init[k]->Ok_0)
                            == Some(done[j]);
                    assert(items[k] == init[k]);
                } else {
                    assert(items[last] == items.last());
                }
            }
        }
    }
}

/// Every transaction for which `step` gives an update has it among the
/// updates.
proof fn lemma_items_give_updates(
    items: Seq<LoadedItem>,
    step: spec_fn(transaction::Model) -> Option<UpdateView>,
)
    ensures
        collect_updates(items, step) matches Ok(us) ==> forall|k: int|
            0 <= k < items.len() && (#[trigger] items[k]) is Ok && step(items[k]->Ok_0) is Some
                ==> exists|j: int| 0 <= j < us.len() && #[trigger] us[j] == step(items[k]->Ok_0)->0,
    decreases items.len(),
{
    if items.len() > 0 {
        let init = items.drop_last();
        lemma_items_give_updates(init, step);
        if collect_updates(items, step) is Ok {
            let done = collect_updates(init, step)->Ok_0;
            let us = collect_updates(items, step)->Ok_0;
            let last = items.len() - 1;
            assert forall|k: int|
                0 <= k < items.len() && (#[trigger] items[k]) is Ok && step(items[k]->Ok_0) is Some
                implies exists|j: int| 0 <= j < us.len() && #[trigger] us[j] == step(items[k]->Ok_0)->0 by {
                if k < last {
                    assert(items[k] == init[k]);
                    let j = choose|j: int|
                        0 <= j < done.len() && #[trigger] done[j] == step(init[k]->Ok_0)->0;
                    assert(us[j] == done[j]);
                } else {
                    assert(items[last] == items.last());
                    assert(us[us.len() - 1] == step(items[k]->Ok_0)->0);
                }
            }
        }
    }
}

/// Classifying, writing the updates, and classifying again gives no update:
/// classification reaches a fixed point after one round.
pub proof fn lemma_classify_apply_reclassify(
    before: Seq<transaction::Model>,
    rules: Seq<rule::Model>,
    us: Seq<UpdateView>,
    after: Seq<transaction::Model>,
)
    requires
        distinct_ids(before),
        collect_updates(loaded(before), service_step(rules)) == UpdatesOutcome::Ok(us),
        updates_applied(before, us, after),
    ensures
        collect_updates(loaded(after), service_step(rules)) == UpdatesOutcome::Ok(Seq::empty()),
{
    let items = loaded(before);
    let step = service_step(rules);
    lemma_updates_come_from_items(items, step);
    lemma_items_give_updates(items, step);
    let again = loaded(after);
    assert forall|k: int|
        0 <= k < again.len() implies (#[trigger] again[k]) is Ok && (classifier_update(
            again[k]->Ok_0,
            rules,
        ) matches Some(u) ==> has_category(again[k]->Ok_0, u.category_id)) by {
        let t = before[k];
        let t2 = after[k];
        assert(items[k] == LoadedItem::Ok(t));
        assert(again[k] == LoadedItem::Ok(t2));
        assert(t2.id@ == t.id@ && t2.description@ == t.description@);
        if classifier_update(t2, rules) is Some {
            let i = applicable_rule(t.description@, rules)->0;
            match service_update(t, rules) {
                Some(u) => {
                    assert(step(t) == Some(u));
                    let j = choose|j: int| 0 <= j < us.len() && #[trigger] us[j] == step(items[k]->Ok_0)->0;
                    assert(update_names(us[j], t.id@));
                    let j2 = choose|j2: int|
                        0 <= j2 < us.len() && update_names(#[trigger] us[j2], t.id@)
                            && category_view(t2) == Some(us[j2].category_id);
                    let k2 = choose|k2: int|
                        0 <= k2 < items.len() && (#[trigger] items[k2]) is Ok && step(items[k2]->Ok_0)
                            == Some(us[j2]);
                    assert(items[k2] == LoadedItem::Ok(before[k2]));
                    assert(before[k2].id@ == us[j2].transaction_id);
                    if k2 != k {
                        assert(before[k2].id@ != before[k].id@);
                    }
                },
                None => {
                    if exists|j: int| 0 <= j < us.len() && update_names(#[trigger] us[j], t.id@) {
                        let j = choose|j: int| 0 <= j < us.len() && update_names(#[trigger] us[j], t.id@);
                        let k2 = choose|k2: int|
                            0 <= k2 < items.len() && (#[trigger] items[k2]) is Ok && step(items[k2]->Ok_0)
                                == Some(us[j]);
                        assert(items[k2] == LoadedItem::Ok(before[k2]));
                        if k2 != k {
                            assert(before[k2].id@ != before[k].id@);
                        }
                        assert(step(t) is None);
                    }
                },
            }
        }
    }
    lemma_classified_transactions_are_fixed(again, rules);
}

}

verus! {

/// Where `rules[i]` is the first rule that matches, the service moves the
/// transaction to `rules[i]`'s category unless its category is exactly that
/// one already; any other category (one containing it, say) is changed.
pub proof fn lemma_service_first_match(t: transaction::Model, rules: Seq<rule::Model>, i: int)
    requires
        0 <= i < rules.len(),
        rule_outcome(t.description@, rules[i]) == MatchOutcome::Ok(true),
        forall|j: int|
            0 <= j < i ==> rule_outcome(t.description@, #[trigger] rules[j]) != MatchOutcome::Ok(
                true,
            ),
    ensures
        (t.category matches Some(c) && c@ == rules[i].category@) ==> service_update(t, rules) is None,
        !(t.category matches Some(c) && c@ == rules[i].category@) ==> service_update(t, rules)
            == Some(UpdateView { transaction_id: t.id@, category_id: rules[i].category@ }),
{
    lemma_first_match_wins(t, rules, i);
}

/// Where no rule matches, the service gives no update.
pub proof fn lemma_service_no_match(t: transaction::Model, rules: Seq<rule::Model>)
    requires
        forall|j: int|
            0 <= j < rules.len() ==> rule_outcome(t.description@, #[trigger] rules[j])
                != MatchOutcome::Ok(true),
    ensures
        service_update(t, rules) is None,
{
    lemma_no_match_no_update(t, rules);
}

}

verus! {

/// The service's `classify_transactions` classifies each transaction by
/// `service_update`.
pub proof fn lemma_service_step(t: transaction::Model, rules: Seq<rule::Model>)
    ensures
        service_step(rules)(t) == service_update(t, rules),
{
}

}
