use vstd::prelude::*;
use vstd::string::StringExecFns;

use crate::entities::{rule, transaction};
use crate::regex_match::{regex_build, regex_match, regex_matches, regex_outcome, MatchOutcome};
use crate::repository::{TransactionUpdate, UpdateView};
use crate::string_err::StringErr;
use crate::text::{contains_str, equals_str, has_substring, lowercase, to_lowercase};

verus! {

/// Whether a `STRING_MATCH` rule with `pattern` matches `description`: the
/// lowercase pattern occurs in the lowercase description.
pub open spec fn string_match_holds(description: Seq<char>, pattern: Seq<char>) -> bool {
    has_substring(lowercase(description), lowercase(pattern))
}

/// The message of the error for a rule of an unknown type.
pub open spec fn unknown_rule_type_text(rule_type: Seq<char>) -> Seq<char> {
    "Unknown rule type: "@ + rule_type
}

/// What matching `rule` against a transaction's `description` gives:
/// whether it matches, or the message of the error it fails with.
pub open spec fn rule_outcome(description: Seq<char>, rule: rule::Model) -> MatchOutcome {
    if rule.rule_type@ == "STRING_MATCH"@ {
        MatchOutcome::Ok(string_match_holds(description, rule.pattern@))
    } else if rule.rule_type@ == "REGEX"@ {
        regex_outcome(rule.pattern@, description)
    } else {
        MatchOutcome::Err(unknown_rule_type_text(rule.rule_type@))
    }
}

/// The rule matches the description (a rule that fails does not).
pub open spec fn rule_applies(description: Seq<char>, rule: rule::Model) -> bool {
    rule_outcome(description, rule) == MatchOutcome::Ok(true)
}

/// `rules[i]` is the first of `rules` that matches the description.
pub open spec fn is_first_applicable(description: Seq<char>, rules: Seq<rule::Model>, i: int) -> bool {
    &&& 0 <= i < rules.len()
    &&& rule_applies(description, rules[i])
    &&& forall|j: int| 0 <= j < i ==> !rule_applies(description, #[trigger] rules[j])
}

/// The position of the first rule that matches the description, if any.
pub open spec fn applicable_rule(description: Seq<char>, rules: Seq<rule::Model>) -> Option<int> {
    if exists|i: int| is_first_applicable(description, rules, i) {
        Some(choose|i: int| is_first_applicable(description, rules, i))
    } else {
        None
    }
}

/// At most one rule is the first that matches.
pub proof fn lemma_first_applicable_unique(
    description: Seq<char>,
    rules: Seq<rule::Model>,
    i: int,
    j: int,
)
    requires
        is_first_applicable(description, rules, i),
        is_first_applicable(description, rules, j),
    ensures
        i == j,
{
    if i < j {
        assert(!rule_applies(description, rules[i]));
    } else if j < i {
        assert(!rule_applies(description, rules[j]));
    }
}

/// The position found by `applicable_rule` is the first matching rule, and
/// where it finds none, no rule matches.
pub proof fn lemma_applicable_rule(description: Seq<char>, rules: Seq<rule::Model>)
    ensures
        applicable_rule(description, rules) matches Some(i) ==> is_first_applicable(
            description,
            rules,
            i,
        ),
        applicable_rule(description, rules) is None ==> forall|i: int|
            0 <= i < rules.len() ==> !rule_applies(description, #[trigger] rules[i]),
{
    if applicable_rule(description, rules) is None {
        assert forall|i: int| 0 <= i < rules.len() implies !rule_applies(
            description,
            #[trigger] rules[i],
        ) by {
            if rule_applies(description, rules[i]) {
                lemma_some_rule_applies(description, rules, i);
            }
        }
    }
}

/// Where some rule matches, there is a first one.
proof fn lemma_some_rule_applies(description: Seq<char>, rules: Seq<rule::Model>, i: int)
    requires
        0 <= i < rules.len(),
        rule_applies(description, rules[i]),
    ensures
        exists|k: int| is_first_applicable(description, rules, k),
    decreases i,
{
    if forall|j: int| 0 <= j < i ==> !rule_applies(description, #[trigger] rules[j]) {
        assert(is_first_applicable(description, rules, i));
    } else {
        let j = choose|j: int| 0 <= j < i && rule_applies(description, #[trigger] rules[j]);
        lemma_some_rule_applies(description, rules, j);
    }
}

/// The update that `match_rules` makes for a transaction: the category of
/// the first rule that matches its description.
pub open spec fn classifier_update(t: transaction::Model, rules: Seq<rule::Model>) -> Option<UpdateView> {
    match applicable_rule(t.description@, rules) {
        Some(i) => Some(UpdateView { transaction_id: t.id@, category_id: rules[i].category@ }),
        None => None,
    }
}

/// `classifier_update` against fixed rules.
pub open spec fn classifier_step(rules: Seq<rule::Model>) -> spec_fn(transaction::Model) -> Option<UpdateView> {
    |t: transaction::Model| classifier_update(t, rules)
}

/// The updates, in order, or the first error.
pub type UpdatesOutcome = Result<Seq<UpdateView>, Seq<char>>;

/// Going through the items in order: the first failed item's error, or the
/// updates that `step` gives for the transactions, in order, leaving out
/// those for which it gives none.
pub open spec fn collect_updates(
    items: Seq<Result<transaction::Model, StringErr>>,
    step: spec_fn(transaction::Model) -> Option<UpdateView>,
) -> UpdatesOutcome
    decreases items.len(),
{
    if items.len() == 0 {
        UpdatesOutcome::Ok(Seq::empty())
    } else {
        match collect_updates(items.drop_last(), step) {
            Err(e) => UpdatesOutcome::Err(e),
            Ok(done) => match items.last() {
                Err(e) => UpdatesOutcome::Err(e@),
                Ok(t) => match step(t) {
                    Some(u) => UpdatesOutcome::Ok(done.push(u)),
                    None => UpdatesOutcome::Ok(done),
                },
            },
        }
    }
}

/// The contents of a sequence of updates.
pub open spec fn update_views(us: Seq<TransactionUpdate>) -> Seq<UpdateView> {
    us.map_values(|u: TransactionUpdate| u@)
}

/// Once a prefix of the items has failed, the whole has failed with the same
/// error.
pub proof fn lemma_collect_error_persists(
    items: Seq<Result<transaction::Model, StringErr>>,
    step: spec_fn(transaction::Model) -> Option<UpdateView>,
    k: int,
)
    requires
        0 <= k <= items.len(),
        collect_updates(items.take(k), step) is Err,
    ensures
        collect_updates(items, step) == collect_updates(items.take(k), step),
    decreases items.len() - k,
{
    if k < items.len() {
        assert(items.take(k + 1).drop_last() =~= items.take(k));
        lemma_collect_error_persists(items, step, k + 1);
    } else {
        assert(items.take(k) =~= items);
    }
}

/// A `STRING_MATCH` rule ignores case: descriptions with the same lowercase
/// form, matched by patterns with the same lowercase form, give the same
/// outcome.
pub proof fn lemma_string_match_ignores_case(
    d1: Seq<char>,
    d2: Seq<char>,
    r1: rule::Model,
    r2: rule::Model,
)
    requires
        r1.rule_type@ == "STRING_MATCH"@,
        r2.rule_type@ == "STRING_MATCH"@,
        lowercase(d1) == lowercase(d2),
        lowercase(r1.pattern@) == lowercase(r2.pattern@),
    ensures
        rule_outcome(d1, r1) == rule_outcome(d2, r2),
{
}

/// A rule whose type is neither `STRING_MATCH` nor `REGEX` fails with the
/// unknown-type error on every description, and so never matches.
pub proof fn lemma_unknown_rule_type_fails(description: Seq<char>, rule: rule::Model)
    requires
        rule.rule_type@ != "STRING_MATCH"@,
        rule.rule_type@ != "REGEX"@,
    ensures
        rule_outcome(description, rule) == MatchOutcome::Err("Unknown rule type: "@ + rule.rule_type@),
        !rule_applies(description, rule),
{
}

/// Only the description decides the category: two transactions with the
/// same description are classified into the same category, each under its
/// own id.
pub proof fn lemma_description_decides(
    t1: transaction::Model,
    t2: transaction::Model,
    rules: Seq<rule::Model>,
)
    requires
        t1.description@ == t2.description@,
    ensures
        classifier_update(t1, rules) is Some <==> classifier_update(t2, rules) is Some,
        classifier_update(t1, rules) matches Some(u1) ==> {
            &&& classifier_update(t2, rules) matches Some(u2)
            &&& u1.category_id == u2.category_id
            &&& u1.transaction_id == t1.id@
            &&& u2.transaction_id == t2.id@
        },
{
}

/// A rule that does not match a description (a failing rule included) does
/// not change how it is classified: leaving it out of the rules gives the
/// same category.
pub proof fn lemma_non_matching_rule_is_irrelevant(
    t: transaction::Model,
    rules: Seq<rule::Model>,
    k: int,
)
    requires
        0 <= k < rules.len(),
        !rule_applies(t.description@, rules[k]),
    ensures
        classifier_update(t, rules.remove(k)) == classifier_update(t, rules),
{
    let d = t.description@;
    let rest = rules.remove(k);
    lemma_applicable_rule(d, rules);
    lemma_applicable_rule(d, rest);
    match applicable_rule(d, rules) {
        Some(i) => {
            let i2 = if i < k { i } else { i - 1 };
            assert(rest[i2] == rules[i]);
            assert forall|j: int| 0 <= j < i2 implies !rule_applies(d, #[trigger] rest[j]) by {
                if j < k {
                    assert(rest[j] == rules[j]);
                } else {
                    assert(rest[j] == rules[j + 1]);
                }
            }
            assert(is_first_applicable(d, rest, i2));
            let c = applicable_rule(d, rest)->0;
            lemma_first_applicable_unique(d, rest, i2, c);
        },
        None => {
            if applicable_rule(d, rest) is Some {
                let c = applicable_rule(d, rest)->0;
                if c < k {
                    assert(rest[c] == rules[c]);
                } else {
                    assert(rest[c] == rules[c + 1]);
                }
            }
        },
    }
}

/// The item is a transaction with the given id.
pub open spec fn is_transaction_with_id(item: Result<transaction::Model, StringErr>, id: Seq<char>) -> bool {
    item matches Ok(t) && t.id@ == id
}

/// Each update names a transaction that was classified, and there are no
/// more updates than transactions.
pub proof fn lemma_updates_name_input_transactions(
    items: Seq<Result<transaction::Model, StringErr>>,
    step: spec_fn(transaction::Model) -> Option<UpdateView>,
)
    requires
        forall|t: transaction::Model| #[trigger] step(t) matches Some(u) ==> u.transaction_id == t.id@,
    ensures
        collect_updates(items, step) matches Ok(us) ==> {
            &&& us.len() <= items.len()
            &&& forall|k: int| #![trigger us[k]] 0 <= k < us.len() ==> exists|j: int|
                0 <= j < items.len() && is_transaction_with_id(#[trigger] items[j], us[k].transaction_id)
        },
    decreases items.len(),
{
    if items.len() > 0 {
        let init = items.drop_last();
        lemma_updates_name_input_transactions(init, step);
        if collect_updates(items, step) is Ok {
            let done = collect_updates(init, step)->Ok_0;
            let us = collect_updates(items, step)->Ok_0;
            let last = items.len() - 1;
            assert forall|k: int| #![trigger us[k]] 0 <= k < us.len() implies exists|j: int|
                0 <= j < items.len() && is_transaction_with_id(#[trigger] items[j], us[k].transaction_id) by {
                if k < done.len() {
                    let j = choose|j: int|
                        0 <= j < init.len() && is_transaction_with_id(#[trigger] init[j], done[k].transaction_id);
                    assert(items[j] == init[j]);
                } else {
                    assert(items[last] == items.last());
                }
            }
        }
    }
}

/// The updates that `match_rules` gives carry the transaction's own id.
pub proof fn lemma_classifier_step_keeps_id(rules: Seq<rule::Model>)
    ensures
        forall|t: transaction::Model| #[trigger] classifier_step(rules)(t) matches Some(u)
            ==> u.transaction_id == t.id@,
{
}

/// Matches one rule against a transaction's description. A `STRING_MATCH`
/// rule matches where its pattern occurs in the description, both taken in
/// lowercase; a `REGEX` rule matches where its pattern, compiled as a regex,
/// matches anywhere in the description. A pattern that does not compile, or
/// a rule of another type, is an error.
pub fn match_rule(t: &transaction::Model, r: &rule::Model) -> (res: Result<bool, StringErr>)
    ensures
        res matches Ok(b) ==> rule_outcome(t.description@, *r) == MatchOutcome::Ok(b),
        res matches Err(e) ==> rule_outcome(t.description@, *r) == MatchOutcome::Err(e@),
{
    if equals_str(&r.rule_type, "STRING_MATCH") {
        let description = to_lowercase(t.description.as_str());
        let pattern = to_lowercase(r.pattern.as_str());
        Ok(contains_str(description.as_str(), pattern.as_str()))
    } else if equals_str(&r.rule_type, "REGEX") {
        regex_match(r.pattern.as_str(), t.description.as_str())
    } else {
        let mut message = "Unknown rule type: ".to_string();
        message.append(r.rule_type.as_str());
        Err(StringErr::new(message))
    }
}

/// Finds the first rule that matches the transaction's description and gives
/// the update to that rule's category; a rule whose matching fails counts as
/// not matching. `None` where no rule matches.
pub fn match_rules(t: &transaction::Model, rs: &[rule::Model]) -> (res: Option<TransactionUpdate>)
    ensures
        res matches Some(u) ==> classifier_update(*t, rs@) == Some(u@),
        res is None ==> classifier_update(*t, rs@) is None,
{
    let n = rs.len();
    for i in 0..n
        invariant
            n == rs@.len(),
            forall|j: int| 0 <= j < i ==> !rule_applies(t.description@, #[trigger] rs@[j]),
    {
        let applies = match match_rule(t, &rs[i]) {
            Ok(b) => b,
            Err(_) => false,
        };
        if applies {
            proof {
                assert(is_first_applicable(t.description@, rs@, i as int));
                let k = choose|k: int| is_first_applicable(t.description@, rs@, k);
                lemma_first_applicable_unique(t.description@, rs@, i as int, k);
            }
            return Some(
                TransactionUpdate {
                    transaction_id: t.id.clone(),
                    category_id: rs[i].category.clone(),
                },
            );
        }
    }
    None
}

/// Classifies the transactions in order against the rules and gives the
/// updates of those that a rule matches, in order; the first transaction
/// that failed to load fails the whole with its error.
pub fn classify_transactions(
    ts: Vec<Result<transaction::Model, StringErr>>,
    rs: Vec<rule::Model>,
) -> (res: Result<Vec<TransactionUpdate>, StringErr>)
    ensures
        res matches Ok(us) ==> collect_updates(ts@, classifier_step(rs@)) == UpdatesOutcome::Ok(
            update_views(us@),
        ),
        res matches Err(e) ==> collect_updates(ts@, classifier_step(rs@)) == UpdatesOutcome::Err(
            e@,
        ),
{
    let mut out: Vec<TransactionUpdate> = Vec::new();
    let n = ts.len();
    proof {
        assert(update_views(out@) =~= Seq::<UpdateView>::empty());
        assert(ts@.take(0).len() == 0);
    }
    for i in 0..n
        invariant
            n == ts@.len(),
            collect_updates(ts@.take(i as int), classifier_step(rs@)) == UpdatesOutcome::Ok(
                update_views(out@),
            ),
    {
        proof {
            assert(ts@.take(i + 1).drop_last() =~= ts@.take(i as int));
        }
        match &ts[i] {
            Ok(t) => {
                let ghost before = out@;
                match match_rules(t, rs.as_slice()) {
                    Some(u) => {
                        out.push(u);
                        proof {
                            assert(update_views(out@) =~= update_views(before).push(u@));
                        }
                    },
                    None => {},
                }
            },
            Err(e) => {
                proof {
                    lemma_collect_error_persists(ts@, classifier_step(rs@), i + 1);
                }
                return Err(e.clone());
            },
        }
    }
    proof {
        assert(ts@.take(n as int) =~= ts@);
    }
    Ok(out)
}

}

verus! {

/// A failed rule: its id and the message of its error.
pub type RuleFailure = (i32, Seq<char>);

/// The rules that fail while a description is matched against `rules` in
/// order, up to the first rule that matches: each with its id and error.
pub open spec fn failures_until_match(description: Seq<char>, rules: Seq<rule::Model>) -> Seq<RuleFailure>
    decreases rules.len(),
{
    if rules.len() == 0 {
        Seq::empty()
    } else {
        match rule_outcome(description, rules[0]) {
            Ok(true) => Seq::empty(),
            Ok(false) => failures_until_match(description, rules.drop_first()),
            Err(m) => seq![(rules[0].id, m)] + failures_until_match(description, rules.drop_first()),
        }
    }
}

/// The rule failures met while classifying the items in order, up to the
/// first item that failed to load.
pub open spec fn failures_of_all(
    items: Seq<Result<transaction::Model, StringErr>>,
    rules: Seq<rule::Model>,
) -> Seq<RuleFailure>
    decreases items.len(),
{
    if items.len() == 0 {
        Seq::empty()
    } else {
        match items[0] {
            Err(_) => Seq::empty(),
            Ok(t) => failures_until_match(t.description@, rules) + failures_of_all(
                items.drop_first(),
                rules,
            ),
        }
    }
}

/// The contents of reported rule failures.
pub open spec fn failure_views(fs: Seq<(i32, StringErr)>) -> Seq<RuleFailure> {
    fs.map_values(|f: (i32, StringErr)| (f.0, f.1@))
}

/// The rules that fail while `match_rules` looks for the transaction's rule,
/// in order: each rule's id with its error.
pub fn rule_errors(t: &transaction::Model, rs: &[rule::Model]) -> (fs: Vec<(i32, StringErr)>)
    ensures
        failure_views(fs@) == failures_until_match(t.description@, rs@),
{
    let mut fs: Vec<(i32, StringErr)> = Vec::new();
    let n = rs.len();
    proof {
        assert(rs@.skip(0) =~= rs@);
        assert(failure_views(fs@) =~= Seq::<RuleFailure>::empty());
    }
    for i in 0..n
        invariant
            n == rs@.len(),
            failures_until_match(t.description@, rs@) == failure_views(fs@)
                + failures_until_match(t.description@, rs@.skip(i as int)),
    {
        let ghost rest = rs@.skip(i as int);
        proof {
            assert(rest[0] == rs@[i as int]);
            assert(rest.drop_first() =~= rs@.skip(i + 1));
        }
        let ghost before = failure_views(fs@);
        match match_rule(t, &rs[i]) {
            Ok(true) => {
                proof {
                    assert(failure_views(fs@) =~= failure_views(fs@) + Seq::<RuleFailure>::empty());
                }
                return fs;
            },
            Ok(false) => {},
            Err(e) => {
                fs.push((rs[i].id, e));
                proof {
                    assert(failure_views(fs@) =~= before.push((rs@[i as int].id, e@)));
                    assert(before + failures_until_match(t.description@, rest) =~= failure_views(
                        fs@,
                    ) + failures_until_match(t.description@, rs@.skip(i + 1)));
                }
            },
        }
    }
    proof {
        assert(rs@.skip(n as int) =~= Seq::<rule::Model>::empty());
        assert(failure_views(fs@) + Seq::<RuleFailure>::empty() =~= failure_views(fs@));
    }
    fs
}

/// The rules that fail while the transactions are classified in order (by
/// either `classify_transactions`), up to the first item that failed to
/// load: each rule's id with its error.
pub fn classification_errors(
    ts: &Vec<Result<transaction::Model, StringErr>>,
    rs: &[rule::Model],
) -> (fs: Vec<(i32, StringErr)>)
    ensures
        failure_views(fs@) == failures_of_all(ts@, rs@),
{
    let mut fs: Vec<(i32, StringErr)> = Vec::new();
    let n = ts.len();
    proof {
        assert(ts@.skip(0) =~= ts@);
        assert(failure_views(fs@) =~= Seq::<RuleFailure>::empty());
    }
    for i in 0..n
        invariant
            n == ts@.len(),
            failures_of_all(ts@, rs@) == failure_views(fs@) + failures_of_all(
                ts@.skip(i as int),
                rs@,
            ),
    {
        let ghost rest = ts@.skip(i as int);
        proof {
            assert(rest[0] == ts@[i as int]);
            assert(rest.drop_first() =~= ts@.skip(i + 1));
        }
        match &ts[i] {
            Ok(t) => {
                let ghost before = failure_views(fs@);
                let mut more = rule_errors(t, rs);
                let ghost added = failure_views(more@);
                fs.append(&mut more);
                proof {
                    assert(failure_views(fs@) =~= before + added);
                    assert(before + (added + failures_of_all(ts@.skip(i + 1), rs@)) =~= (before
                        + added) + failures_of_all(ts@.skip(i + 1), rs@));
                }
            },
            Err(_) => {
                proof {
                    assert(failure_views(fs@) + Seq::<RuleFailure>::empty() =~= failure_views(
                        fs@,
                    ));
                }
                return fs;
            },
        }
    }
    proof {
        assert(ts@.skip(n as int) =~= Seq::<Result<transaction::Model, StringErr>>::empty());
        assert(failure_views(fs@) + Seq::<RuleFailure>::empty() =~= failure_views(fs@));
    }
    fs
}

}

verus! {

/// A `STRING_MATCH` rule never fails, and it matches exactly where the
/// lowercase pattern stands, as a run of consecutive characters, somewhere in
/// the lowercase description (an empty pattern matches every description).
pub proof fn lemma_string_match_is_lowercase_substring(description: Seq<char>, rule: rule::Model)
    requires
        rule.rule_type@ == "STRING_MATCH"@,
    ensures
        rule_outcome(description, rule) is Ok,
        rule_outcome(description, rule) == MatchOutcome::Ok(true) <==> exists|i: int|
            0 <= i && i + lowercase(rule.pattern@).len() <= lowercase(description).len()
                && #[trigger] lowercase(description).subrange(
                i,
                i + lowercase(rule.pattern@).len(),
            ) == lowercase(rule.pattern@),
{
}

/// A `REGEX` rule matches exactly where its pattern, compiled as a regex,
/// matches the description (case as written), and fails with the compile
/// error's text where the pattern does not compile.
pub proof fn lemma_regex_rule_outcome(description: Seq<char>, rule: rule::Model)
    requires
        rule.rule_type@ == "REGEX"@,
    ensures
        regex_build(rule.pattern@) is Ok ==> rule_outcome(description, rule) == MatchOutcome::Ok(
            regex_matches(rule.pattern@, description),
        ),
        regex_build(rule.pattern@) is Err ==> rule_outcome(description, rule) == MatchOutcome::Err(
            regex_build(rule.pattern@)->Err_0,
        ),
{
    reveal_strlit("REGEX");
    reveal_strlit("STRING_MATCH");
    assert("REGEX"@[0] != "STRING_MATCH"@[0]);
}

/// Whatever the types of the rules: where `rules[i]` matches and no earlier
/// rule does, the transaction gets `rules[i]`'s category under its own id.
pub proof fn lemma_first_match_wins(t: transaction::Model, rules: Seq<rule::Model>, i: int)
    requires
        0 <= i < rules.len(),
        rule_outcome(t.description@, rules[i]) == MatchOutcome::Ok(true),
        forall|j: int|
            0 <= j < i ==> rule_outcome(t.description@, #[trigger] rules[j]) != MatchOutcome::Ok(
                true,
            ),
    ensures
        classifier_update(t, rules) == Some(
            UpdateView { transaction_id: t.id@, category_id: rules[i].category@ },
        ),
{
    let d = t.description@;
    assert(is_first_applicable(d, rules, i));
    let k = choose|k: int| is_first_applicable(d, rules, k);
    lemma_first_applicable_unique(d, rules, i, k);
}

/// Where no rule matches, the transaction gets no update.
pub proof fn lemma_no_match_no_update(t: transaction::Model, rules: Seq<rule::Model>)
    requires
        forall|j: int|
            0 <= j < rules.len() ==> rule_outcome(t.description@, #[trigger] rules[j])
                != MatchOutcome::Ok(true),
    ensures
        classifier_update(t, rules) is None,
{
    lemma_applicable_rule(t.description@, rules);
    if applicable_rule(t.description@, rules) is Some {
        let i = applicable_rule(t.description@, rules)->0;
        assert(rule_outcome(t.description@, rules[i]) == MatchOutcome::Ok(true));
    }
}

}

verus! {

/// Classifying two runs of items one after the other: the first run's
/// error, if it fails; else the second run's error, if it fails; else the
/// first run's updates followed by the second's.
pub proof fn lemma_collect_concat(
    a: Seq<Result<transaction::Model, StringErr>>,
    b: Seq<Result<transaction::Model, StringErr>>,
    step: spec_fn(transaction::Model) -> Option<UpdateView>,
)
    ensures
        collect_updates(a, step) matches Err(e) ==> collect_updates(a + b, step) == UpdatesOutcome::Err(e),
        collect_updates(a, step) is Ok && collect_updates(b, step) is Err ==> collect_updates(a + b, step)
            == collect_updates(b, step),
        collect_updates(a, step) is Ok && collect_updates(b, step) is Ok ==> collect_updates(a + b, step)
            == UpdatesOutcome::Ok(collect_updates(a, step)->Ok_0 + collect_updates(b, step)->Ok_0),
    decreases b.len(),
{
    if b.len() == 0 {
        assert(a + b =~= a);
        if collect_updates(a, step) is Ok {
            assert(collect_updates(a, step)->Ok_0 + collect_updates(b, step)->Ok_0 =~= collect_updates(a, step)->Ok_0);
        }
    } else {
        let b2 = b.drop_last();
        lemma_collect_concat(a, b2, step);
        assert((a + b).drop_last() =~= a + b2);
        assert((a + b).last() == b.last());
        if collect_updates(a, step) is Ok && collect_updates(b2, step) is Ok {
            let x = collect_updates(a, step)->Ok_0;
            let y = collect_updates(b2, step)->Ok_0;
            match b.last() {
                Ok(t) => match step(t) {
                    Some(u) => {
                        assert(x + y.push(u) =~= (x + y).push(u));
                    },
                    None => {},
                },
                Err(_) => {},
            }
        }
    }
}

/// One transaction that loaded gives its own update, if any; one that
/// failed to load gives its error.
pub proof fn lemma_collect_single(
    item: Result<transaction::Model, StringErr>,
    step: spec_fn(transaction::Model) -> Option<UpdateView>,
)
    ensures
        item matches Err(e) ==> collect_updates(seq![item], step) == UpdatesOutcome::Err(e@),
        item matches Ok(t) ==> collect_updates(seq![item], step) == UpdatesOutcome::Ok(
            match step(t) {
                Some(u) => seq![u],
                None => Seq::empty(),
            },
        ),
{
    reveal_with_fuel(collect_updates, 2);
    assert(seq![item].drop_last() =~= Seq::<Result<transaction::Model, StringErr>>::empty());
    assert(seq![item].last() == item);
    if let Ok(t) = item {
        if let Some(u) = step(t) {
            assert(Seq::<UpdateView>::empty().push(u) =~= seq![u]);
        }
    }
}

/// `classify_transactions` classifies each transaction by `classifier_update`.
pub proof fn lemma_classifier_step(t: transaction::Model, rules: Seq<rule::Model>)
    ensures
        classifier_step(rules)(t) == classifier_update(t, rules),
{
}

}
