use transaction_store::apply::{ApplyAction, TransactionApplier};
use transaction_store::error::StoreError;

fn run(
    tag_count: usize,
    fail_at: Option<usize>,
) -> (Vec<ApplyAction>, Option<Result<(), StoreError>>) {
    let mut applier = TransactionApplier::new(tag_count);
    let mut performed = Vec::new();
    while let Some(action) = applier.next_action() {
        let outcome = if fail_at == Some(performed.len()) {
            Err(StoreError::DatabaseError(format!("write {} failed", performed.len())))
        } else {
            Ok(())
        };
        performed.push(action);
        applier.acknowledge(outcome);
    }
    (performed, applier.result())
}

#[test]
fn without_tags_three_writes_are_performed() {
    let (performed, result) = run(0, None);
    assert_eq!(
        performed,
        vec![
            ApplyAction::InsertTransaction,
            ApplyAction::UpdateAccount,
            ApplyAction::ApplyNoteUpdates
        ]
    );
    assert!(matches!(result, Some(Ok(()))));
}

#[test]
fn tags_follow_the_three_writes_in_their_order() {
    let (performed, result) = run(3, None);
    assert_eq!(
        performed,
        vec![
            ApplyAction::InsertTransaction,
            ApplyAction::UpdateAccount,
            ApplyAction::ApplyNoteUpdates,
            ApplyAction::AddNoteTag(0),
            ApplyAction::AddNoteTag(1),
            ApplyAction::AddNoteTag(2),
        ]
    );
    assert!(matches!(result, Some(Ok(()))));
}

#[test]
fn a_failed_write_ends_the_work() {
    for fail_at in 0..5 {
        let (performed, result) = run(2, Some(fail_at));
        let (all, _) = run(2, None);
        assert_eq!(performed, all[..fail_at + 1].to_vec());
        match result {
            Some(Err(StoreError::DatabaseError(message))) => {
                assert_eq!(message, format!("write {fail_at} failed"));
            },
            other => panic!("unexpected {other:?}"),
        }
    }
}

#[test]
fn nothing_is_decided_while_a_write_is_pending() {
    let mut applier = TransactionApplier::new(1);
    assert_eq!(applier.next_action(), Some(ApplyAction::InsertTransaction));
    assert_eq!(applier.next_action(), Some(ApplyAction::InsertTransaction));
    applier.acknowledge(Ok(()));
    assert_eq!(applier.next_action(), Some(ApplyAction::UpdateAccount));
    assert!(applier.result().is_none());
    assert!(TransactionApplier::new(0).result().is_none());
}

#[test]
fn outcomes_after_the_end_change_nothing() {
    let mut applier = TransactionApplier::new(0);
    for _ in 0..3 {
        applier.acknowledge(Ok(()));
    }
    assert_eq!(applier.next_action(), None);
    applier.acknowledge(Err(StoreError::MissingTransactionScript));
    applier.acknowledge(Ok(()));
    assert_eq!(applier.next_action(), None);
    assert!(matches!(applier.result(), Some(Ok(()))));

    let mut applier = TransactionApplier::new(4);
    applier.acknowledge(Ok(()));
    applier.acknowledge(Err(StoreError::TruncatedNullifiers));
    applier.acknowledge(Ok(()));
    applier.acknowledge(Err(StoreError::MissingTransactionScript));
    assert_eq!(applier.next_action(), None);
    assert!(matches!(applier.result(), Some(Err(StoreError::TruncatedNullifiers))));
}

#[test]
fn many_tags_are_counted_without_overflow() {
    let mut applier = TransactionApplier::new(usize::MAX);
    for _ in 0..3 {
        applier.acknowledge(Ok(()));
    }
    for index in 0..1000 {
        assert_eq!(applier.next_action(), Some(ApplyAction::AddNoteTag(index)));
        applier.acknowledge(Ok(()));
    }
    assert!(applier.result().is_none());
}

#[test]
fn database_errors_carry_their_cause() {
    match StoreError::scan_failed("JsValue(boom)") {
        StoreError::DatabaseError(message) => {
            assert_eq!(message, "failed to get transactions: JsValue(boom)")
        },
        other => panic!("unexpected {other:?}"),
    }
    match StoreError::rows_malformed("Error(bad row)") {
        StoreError::DatabaseError(message) => {
            assert_eq!(message, "failed to deserialize Error(bad row)")
        },
        other => panic!("unexpected {other:?}"),
    }
    match StoreError::account_update_failed("()") {
        StoreError::DatabaseError(message) => assert_eq!(message, "failed to update account: ()"),
        other => panic!("unexpected {other:?}"),
    }
    match StoreError::database("", "") {
        StoreError::DatabaseError(message) => assert_eq!(message, ""),
        other => panic!("unexpected {other:?}"),
    }
}
