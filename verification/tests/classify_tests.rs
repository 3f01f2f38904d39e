use fin::classify;
use fin::entities::{rule, transaction};
use fin::service::classify as service_classify;
use fin::{Date, StringErr, TransactionUpdate};

fn date() -> Date {
    Date::from_ymd(2024, 1, 24).unwrap()
}

fn txn(id: &str, description: &str, category: Option<&str>) -> transaction::Model {
    transaction::Model {
        id: id.to_string(),
        amount_cents: -4800,
        description: description.to_string(),
        date: date(),
        category: category.map(|c| c.to_string()),
    }
}

fn rule(id: i32, rule_type: &str, pattern: &str, category: &str) -> rule::Model {
    rule::Model {
        id,
        rule_type: rule_type.to_string(),
        pattern: pattern.to_string(),
        category: category.to_string(),
    }
}

fn pair(u: &TransactionUpdate) -> (String, String) {
    (u.transaction_id.clone(), u.category_id.clone())
}

#[test]
fn string_match_ignores_case() {
    let t = txn("t1", "MYER Sydney City", None);
    assert!(classify::match_rule(&t, &rule(1, "STRING_MATCH", "myer", "shopping")).unwrap());
    assert!(classify::match_rule(&t, &rule(1, "STRING_MATCH", "sYdNeY c", "shopping")).unwrap());
}

#[test]
fn string_match_needs_the_whole_pattern() {
    let t = txn("t1", "Myer", None);
    assert!(!classify::match_rule(&t, &rule(1, "STRING_MATCH", "myers", "shopping")).unwrap());
    assert!(!classify::match_rule(&t, &rule(1, "STRING_MATCH", "coles", "groceries")).unwrap());
}

#[test]
fn empty_string_pattern_matches_everything() {
    let t = txn("t1", "Anything at all", None);
    assert!(classify::match_rule(&t, &rule(1, "STRING_MATCH", "", "misc")).unwrap());
}

#[test]
fn string_match_lowercases_beyond_ascii() {
    let t = txn("t1", "CAFÉ ÉTOILE", None);
    assert!(classify::match_rule(&t, &rule(1, "STRING_MATCH", "café", "eating out")).unwrap());
}

#[test]
fn regex_rule_matches_anywhere() {
    let t = txn("t1", "Payment to Coles 1234 Sydney", None);
    assert!(classify::match_rule(&t, &rule(2, "REGEX", r"Coles\s+\d{4}", "groceries")).unwrap());
    assert!(!classify::match_rule(&t, &rule(2, "REGEX", r"^Coles", "groceries")).unwrap());
}

#[test]
fn regex_rule_is_case_sensitive() {
    let t = txn("t1", "coles", None);
    assert!(!classify::match_rule(&t, &rule(2, "REGEX", "Coles", "groceries")).unwrap());
    assert!(classify::match_rule(&t, &rule(2, "REGEX", "(?i)Coles", "groceries")).unwrap());
}

#[test]
fn invalid_regex_is_an_error() {
    let t = txn("t1", "foo(bar", None);
    let e = classify::match_rule(&t, &rule(3, "REGEX", "foo(bar", "x")).unwrap_err();
    assert!(e.message().starts_with("Syntax("));
}

#[test]
fn unknown_rule_type_is_an_error() {
    let t = txn("t1", "Myer", None);
    let e = classify::match_rule(&t, &rule(4, "SUBSTRING", "Myer", "x")).unwrap_err();
    assert_eq!(e.message(), "Unknown rule type: SUBSTRING");
    let e = classify::match_rule(&t, &rule(4, "string_match", "Myer", "x")).unwrap_err();
    assert_eq!(e.message(), "Unknown rule type: string_match");
}

#[test]
fn first_matching_rule_wins() {
    let t = txn("t1", "Woolworths Metro", None);
    let rules = vec![
        rule(1, "STRING_MATCH", "coles", "groceries-coles"),
        rule(2, "STRING_MATCH", "woolworths", "groceries"),
        rule(3, "REGEX", "Metro", "transport"),
    ];
    let u = classify::match_rules(&t, &rules).unwrap();
    assert_eq!(pair(&u), ("t1".to_string(), "groceries".to_string()));
}

#[test]
fn failing_rules_count_as_not_matching() {
    let t = txn("t7", "Uber trip", None);
    let rules = vec![
        rule(1, "REGEX", "Uber(", "broken"),
        rule(2, "FUZZY", "uber", "unknown"),
        rule(3, "STRING_MATCH", "UBER", "transport"),
    ];
    let u = classify::match_rules(&t, &rules).unwrap();
    assert_eq!(pair(&u), ("t7".to_string(), "transport".to_string()));
}

#[test]
fn no_matching_rule_gives_no_update() {
    let t = txn("t1", "Rent", None);
    let rules = vec![rule(1, "STRING_MATCH", "coles", "groceries")];
    assert!(classify::match_rules(&t, &rules).is_none());
    assert!(classify::match_rules(&t, &[]).is_none());
}

#[test]
fn classifier_updates_even_an_unchanged_category() {
    let t = txn("t1", "Coles", Some("groceries"));
    let rules = vec![rule(1, "STRING_MATCH", "coles", "groceries")];
    let u = classify::match_rules(&t, &rules).unwrap();
    assert_eq!(pair(&u), ("t1".to_string(), "groceries".to_string()));
}

#[test]
fn service_skips_an_unchanged_category() {
    let rules = vec![rule(1, "STRING_MATCH", "coles", "groceries")];
    let same = txn("t1", "Coles", Some("groceries"));
    assert!(service_classify::match_rules(&same, &rules).is_none());
    let other = txn("t2", "Coles", Some("misc"));
    let u = service_classify::match_rules(&other, &rules).unwrap();
    assert_eq!(pair(&u), ("t2".to_string(), "groceries".to_string()));
    let none = txn("t3", "Coles", None);
    let u = service_classify::match_rules(&none, &rules).unwrap();
    assert_eq!(pair(&u), ("t3".to_string(), "groceries".to_string()));
}

#[test]
fn classify_keeps_order_and_leaves_out_unmatched() {
    let rules = vec![
        rule(1, "STRING_MATCH", "coles", "groceries"),
        rule(2, "REGEX", "^Opal", "transport"),
    ];
    let ts = vec![
        Ok(txn("a", "Opal top up", None)),
        Ok(txn("b", "Rent", None)),
        Ok(txn("c", "COLES 55", None)),
    ];
    let us = classify::classify_transactions(ts, rules).unwrap();
    let got: Vec<(String, String)> = us.iter().map(pair).collect();
    assert_eq!(
        got,
        vec![
            ("a".to_string(), "transport".to_string()),
            ("c".to_string(), "groceries".to_string())
        ]
    );
}

#[test]
fn classify_fails_with_the_first_error() {
    let rules = vec![rule(1, "STRING_MATCH", "coles", "groceries")];
    let ts = vec![
        Ok(txn("a", "Coles", None)),
        Err(StringErr::new("connection lost".to_string())),
        Ok(txn("b", "Coles", None)),
        Err(StringErr::new("later".to_string())),
    ];
    let e = classify::classify_transactions(ts, rules).unwrap_err();
    assert_eq!(e.message(), "connection lost");
}

#[test]
fn classify_of_nothing_is_empty() {
    let us = classify::classify_transactions(Vec::new(), vec![rule(1, "STRING_MATCH", "", "x")]).unwrap();
    assert!(us.is_empty());
}

#[test]
fn service_classify_leaves_out_unchanged() {
    let rules = vec![rule(1, "STRING_MATCH", "coles", "groceries")];
    let ts = vec![
        Ok(txn("a", "Coles", Some("groceries"))),
        Ok(txn("b", "Coles", Some("misc"))),
        Ok(txn("c", "Rent", None)),
    ];
    let us = service_classify::classify_transactions(ts, rules).unwrap();
    let got: Vec<(String, String)> = us.iter().map(pair).collect();
    assert_eq!(got, vec![("b".to_string(), "groceries".to_string())]);
}

#[test]
fn reclassifying_after_updates_changes_nothing() {
    let rules = vec![
        rule(1, "STRING_MATCH", "coles", "groceries"),
        rule(2, "REGEX", "Opal", "transport"),
    ];
    let mut ts = vec![txn("a", "Coles", None), txn("b", "Opal", Some("misc")), txn("c", "Rent", None)];
    let first: Vec<Result<transaction::Model, StringErr>> = ts
        .iter()
        .map(|t| Ok(txn(&t.id, &t.description, t.category.as_deref())))
        .collect();
    let us = service_classify::classify_transactions(first, rules.iter().map(|r| rule(r.id, &r.rule_type, &r.pattern, &r.category)).collect()).unwrap();
    assert_eq!(us.len(), 2);
    for u in &us {
        for t in ts.iter_mut() {
            if t.id == u.transaction_id {
                t.category = Some(u.category_id.clone());
            }
        }
    }
    let again: Vec<Result<transaction::Model, StringErr>> = ts.into_iter().map(Ok).collect();
    let us = service_classify::classify_transactions(again, rules).unwrap();
    assert!(us.is_empty());
}

#[test]
fn string_err_keeps_its_message() {
    let e = StringErr::new("boom".to_string());
    assert_eq!(e.message(), "boom");
    assert_eq!(e.clone().message(), "boom");
}

#[test]
fn failing_rules_are_reported_until_the_match() {
    let t = txn("t7", "Uber trip", None);
    let rules = vec![
        rule(1, "REGEX", "Uber(", "broken"),
        rule(2, "FUZZY", "uber", "unknown"),
        rule(3, "STRING_MATCH", "UBER", "transport"),
        rule(4, "OTHER", "x", "never reached"),
    ];
    let fs = classify::rule_errors(&t, &rules);
    assert_eq!(fs.len(), 2);
    assert_eq!(fs[0].0, 1);
    assert!(fs[0].1.message().starts_with("Syntax("));
    assert_eq!(fs[1].0, 2);
    assert_eq!(fs[1].1.message(), "Unknown rule type: FUZZY");
}

#[test]
fn classification_errors_stop_at_the_first_failed_item() {
    let rules = vec![rule(5, "OTHER", "x", "c"), rule(6, "STRING_MATCH", "coles", "groceries")];
    let ts = vec![
        Ok(txn("a", "Coles", None)),
        Ok(txn("b", "Rent", None)),
        Err(StringErr::new("lost".to_string())),
        Ok(txn("c", "Rent", None)),
    ];
    let fs = classify::classification_errors(&ts, &rules);
    let got: Vec<(i32, String)> = fs.iter().map(|(id, e)| (*id, e.message())).collect();
    assert_eq!(
        got,
        vec![
            (5, "Unknown rule type: OTHER".to_string()),
            (5, "Unknown rule type: OTHER".to_string())
        ]
    );
}
