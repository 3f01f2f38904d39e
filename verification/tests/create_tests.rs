use fin::service::create::{input_to_model, inputs_to_models};
use fin::{
    CreateTransactionInput, CreateTransactionModel, CreateTransactionResult,
    CreateTransactionResultMessage, Date, DbErrorKind, DbFailure,
};

fn input(y: i32, m: u32, d: u32, description: &str, amount_cents: i32) -> CreateTransactionInput {
    CreateTransactionInput {
        amount_cents,
        description: description.to_string(),
        date: Date::from_ymd(y, m, d).unwrap(),
    }
}

#[test]
fn model_id_is_date_then_description() {
    let m = input_to_model(input(2023, 12, 1, "Myer", -5000));
    assert_eq!(m.id, "2023-12-01Myer");
    assert_eq!(m.amount_cents, -5000);
    assert_eq!(m.description, "Myer");
    assert!(m.date.same_day(&Date::from_ymd(2023, 12, 1).unwrap()));
    assert!(m.category.is_none());
}

#[test]
fn same_date_and_description_give_the_same_id() {
    let a = input_to_model(input(2023, 1, 24, "Test Buggee", -2000));
    let b = input_to_model(input(2023, 1, 24, "Test Buggee", 100));
    let c = input_to_model(input(2023, 1, 24, "Test Buggee 2", -2000));
    assert_eq!(a.id, b.id);
    assert_ne!(a.id, c.id);
}

#[test]
fn models_keep_the_order_of_inputs() {
    let ms = inputs_to_models(vec![
        input(2024, 1, 24, "Some buy hey?", -4800),
        input(2023, 12, 12, "Credit", 3000),
    ]);
    let ids: Vec<&str> = ms.iter().map(|m| m.id.as_str()).collect();
    assert_eq!(ids, vec!["2024-01-24Some buy hey?", "2023-12-12Credit"]);
    assert_eq!(ms[1].amount_cents, 3000);
    assert!(inputs_to_models(Vec::new()).is_empty());
}

fn model() -> CreateTransactionModel {
    input_to_model(input(2024, 1, 14, "My loss", -40000))
}

#[test]
fn stored_transaction_is_a_success() {
    let r = CreateTransactionResult::from_outcome(model(), &Ok(()));
    assert!(matches!(r.message, CreateTransactionResultMessage::Success));
    assert_eq!(r.description, "My loss");
    assert_eq!(r.date.text(), "2024-01-14");
}

#[test]
fn unique_violation_is_a_duplicate() {
    let e = DbFailure::Database { kind: DbErrorKind::UniqueViolation, detail: "dup key".to_string() };
    let r = CreateTransactionResult::from_outcome(model(), &Err(e));
    assert!(matches!(r.message, CreateTransactionResultMessage::Duplicate));
}

#[test]
fn other_database_errors_keep_their_text() {
    let e = DbFailure::Database { kind: DbErrorKind::NotNullViolation, detail: "null amount".to_string() };
    match CreateTransactionResultMessage::from_db_failure(&e) {
        CreateTransactionResultMessage::Error(m) => assert_eq!(m, "null amount"),
        other => panic!("unexpected {:?}", other),
    }
    let e = DbFailure::Other { detail: "connection refused".to_string() };
    match CreateTransactionResultMessage::from_db_failure(&e) {
        CreateTransactionResultMessage::Error(m) => assert_eq!(m, "connection refused"),
        other => panic!("unexpected {:?}", other),
    }
}
