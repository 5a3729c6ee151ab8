use payment_processor::ingress::{submit_payment, SubmitError};
use payment_processor::status::{PaymentBatchStatus, PaymentStatus};
use payment_processor::store::{Store, StoreError};

fn seeded_store() -> Store {
    let mut store = Store::new();
    submit_payment(
        &mut store,
        &"c1".to_string(),
        &"alice".to_string(),
        &"addr1".to_string(),
        100,
        Some("ext-7".to_string()),
        1,
    )
    .expect("seed submission");
    store
}

#[test]
fn submission_is_validated() {
    let mut store = Store::new();
    let bad_amount = submit_payment(
        &mut store,
        &"c1".to_string(),
        &"alice".to_string(),
        &"addr1".to_string(),
        -1,
        None,
        1,
    );
    assert!(matches!(bad_amount, Err(SubmitError::BadRequest)));
    let empty_client = submit_payment(
        &mut store,
        &"".to_string(),
        &"alice".to_string(),
        &"addr1".to_string(),
        1,
        None,
        1,
    );
    assert!(matches!(empty_client, Err(SubmitError::BadRequest)));
    let empty_account = submit_payment(
        &mut store,
        &"c1".to_string(),
        &"".to_string(),
        &"addr1".to_string(),
        1,
        None,
        1,
    );
    assert!(matches!(empty_account, Err(SubmitError::BadRequest)));
    let empty_addr = submit_payment(
        &mut store,
        &"c1".to_string(),
        &"alice".to_string(),
        &"".to_string(),
        1,
        None,
        1,
    );
    assert!(matches!(empty_addr, Err(SubmitError::BadRequest)));
    assert_eq!(store.payments.len(), 0);
}

#[test]
fn new_payment_starts_received() {
    let store = seeded_store();
    let p = &store.payments[0];
    assert!(matches!(p.status, PaymentStatus::Received));
    assert!(p.payment_batch_id.is_none());
    assert_eq!(p.amount, 100);
    assert_eq!(p.payment_id.as_deref(), Some("ext-7"));
    assert!(p.failure_reason.is_none());
    assert_eq!(p.created_at, 1);
    assert_eq!(p.updated_at, 1);
    assert_eq!(p.id.len(), 36);
}

#[test]
fn lookup_by_id_and_client_key() {
    let store = seeded_store();
    let id = store.payments[0].id.clone();
    assert!(store.get_payment_by_id(&id).is_some());
    assert!(store.get_payment_by_id(&"missing".to_string()).is_none());
    let by_key = store
        .get_payment_by_client_key(&"c1".to_string(), &"alice".to_string())
        .expect("key exists");
    assert_eq!(by_key.id, id);
    assert!(store
        .get_payment_by_client_key(&"c1".to_string(), &"bob".to_string())
        .is_none());
}

#[test]
fn find_receivable_respects_limit() {
    let mut store = Store::new();
    for c in ["a", "b", "c"] {
        submit_payment(
            &mut store,
            &c.to_string(),
            &"alice".to_string(),
            &"addr".to_string(),
            1,
            None,
            1,
        )
        .expect("submit");
    }
    assert_eq!(store.find_receivable_payments(10).len(), 3);
    assert_eq!(store.find_receivable_payments(2).len(), 2);
    assert_eq!(store.find_receivable_payments(0).len(), 0);
}

#[test]
fn create_batch_rejects_bad_lists() {
    let mut store = seeded_store();
    let pid = store.payments[0].id.clone();
    let empty: Vec<String> = vec![];
    let r = store.create_batch_with_payments(
        "batch-1".to_string(),
        &"alice".to_string(),
        "key-1".to_string(),
        &empty,
        2,
    );
    assert_eq!(r.err(), Some(StoreError::Conflict));
    // a listed payment of another account is refused
    let r = store.create_batch_with_payments(
        "batch-1".to_string(),
        &"bob".to_string(),
        "key-1".to_string(),
        &vec![pid.clone()],
        2,
    );
    assert_eq!(r.err(), Some(StoreError::Conflict));
    // duplicate ids in the list are refused
    let r = store.create_batch_with_payments(
        "batch-1".to_string(),
        &"alice".to_string(),
        "key-1".to_string(),
        &vec![pid.clone(), pid.clone()],
        2,
    );
    assert_eq!(r.err(), Some(StoreError::Conflict));
    // the good case claims the payment
    let b = store
        .create_batch_with_payments(
            "batch-1".to_string(),
            &"alice".to_string(),
            "key-1".to_string(),
            &vec![pid.clone()],
            2,
        )
        .expect("created");
    assert!(matches!(b.status, PaymentBatchStatus::PendingBatching));
    assert_eq!(b.retry_count, 0);
    let p = store.get_payment_by_id(&pid).expect("payment");
    assert!(matches!(p.status, PaymentStatus::Batched));
    assert_eq!(p.payment_batch_id.as_deref(), Some("batch-1"));
    // a second batch under the same id is refused
    let r = store.create_batch_with_payments(
        "batch-1".to_string(),
        &"alice".to_string(),
        "key-2".to_string(),
        &vec![pid],
        3,
    );
    assert_eq!(r.err(), Some(StoreError::Conflict));
}

#[test]
fn transitions_are_conditional_on_source_status() {
    let mut store = Store::new();
    let missing = "missing".to_string();
    assert_eq!(
        store.update_to_signing_in_progress(&missing, 1),
        Err(StoreError::NotFound)
    );
    assert_eq!(
        store.update_to_failed(&missing, "x".to_string(), 1),
        Err(StoreError::NotFound)
    );
    assert_eq!(
        store.increment_retry_count(&missing, "x".to_string(), 1),
        Err(StoreError::NotFound)
    );

    let mut store = seeded_store();
    let pid = store.payments[0].id.clone();
    store
        .create_batch_with_payments(
            "batch-1".to_string(),
            &"alice".to_string(),
            "key-1".to_string(),
            &vec![pid],
            2,
        )
        .expect("created");
    let bid = "batch-1".to_string();
    // the batch is PENDING_BATCHING, not AWAITING_SIGNATURE
    assert_eq!(
        store.update_to_signing_in_progress(&bid, 3),
        Err(StoreError::Conflict)
    );
    store
        .update_to_awaiting_signature(&bid, "U".to_string(), 3)
        .expect("advance");
    // a second identical claim now conflicts: the first claim fenced it
    assert_eq!(
        store.update_to_awaiting_signature(&bid, "U".to_string(), 4),
        Err(StoreError::Conflict)
    );
    // terminal batches refuse further failure
    store.update_to_failed(&bid, "stop".to_string(), 5).expect("failed");
    assert_eq!(
        store.update_to_failed(&bid, "again".to_string(), 6),
        Err(StoreError::Conflict)
    );
    assert_eq!(
        store.increment_retry_count(&bid, "again".to_string(), 6),
        Err(StoreError::Conflict)
    );
}

#[test]
fn read_endpoint_joins_payment_with_batch() {
    let mut store = seeded_store();
    let pid = store.payments[0].id.clone();
    let (p, b) = store.get_by_id_with_batch_info(&pid).expect("present");
    assert_eq!(p.id, pid);
    assert!(b.is_none());
    store
        .create_batch_with_payments(
            "batch-1".to_string(),
            &"alice".to_string(),
            "key-1".to_string(),
            &vec![pid.clone()],
            2,
        )
        .expect("created");
    let (p, b) = store.get_by_id_with_batch_info(&pid).expect("present");
    assert_eq!(p.payment_batch_id.as_deref(), Some("batch-1"));
    let b = b.expect("joined batch");
    assert_eq!(b.id, "batch-1");
    assert!(store.get_by_id_with_batch_info(&"missing".to_string()).is_none());
}
