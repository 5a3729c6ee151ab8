use payment_processor::ingress::submit_payment;
use payment_processor::status::{PaymentBatchStatus, PaymentStatus};
use payment_processor::store::Store;
use payment_processor::workers::{
    apply_confirmation_outcome, apply_unsigned_tx_outcome, begin_broadcast, begin_signing,
    finish_broadcast, finish_signing, run_batch_creator_tick, BroadcastOutcome, ConfirmOutcome,
    SignOutcome, UnsignedTxOutcome,
};

fn submit_ok(store: &mut Store, client: &str, account: &str, addr: &str, amount: i64, now: u64) -> String {
    let p = submit_payment(
        store,
        &client.to_string(),
        &account.to_string(),
        &addr.to_string(),
        amount,
        None,
        now,
    )
    .expect("submission should succeed");
    p.id
}

/// Drives one freshly submitted payment to an `AWAITING_BROADCAST`
/// batch carrying `signed`, and returns the batch id.
fn drive_to_awaiting_broadcast(store: &mut Store, signed: &str) -> String {
    run_batch_creator_tick(store, 10, 2).expect("tick");
    let batch_id = store.batches[0].id.clone();
    apply_unsigned_tx_outcome(
        store,
        &batch_id,
        UnsignedTxOutcome::Success("U".to_string()),
        3,
    )
    .expect("unsigned tx");
    let unsigned = begin_signing(store, &batch_id, 4).expect("claim for signing");
    assert_eq!(unsigned, "U");
    finish_signing(store, &batch_id, SignOutcome::Signed(signed.to_string()), 5).expect("signed");
    batch_id
}

#[test]
fn happy_path_confirms_payment_and_batch() {
    let mut store = Store::new();
    let pid = submit_ok(&mut store, "c1", "alice", "addr1", 100, 1);
    let batch_id = drive_to_awaiting_broadcast(&mut store, "S");
    let signed = begin_broadcast(&mut store, &batch_id, 6).expect("claim for broadcast");
    assert_eq!(signed, "S");
    finish_broadcast(&mut store, &batch_id, BroadcastOutcome::Accepted, 7).expect("accepted");
    apply_confirmation_outcome(
        &mut store,
        &batch_id,
        ConfirmOutcome::Mined(42, vec![0xab, 0xcd], 1700000000),
        8,
    )
    .expect("mined");

    let b = store.find_by_id(&batch_id).expect("batch exists");
    assert!(matches!(b.status, PaymentBatchStatus::Confirmed));
    assert_eq!(b.mined_height, Some(42));
    assert_eq!(b.mined_header_hash.as_deref(), Some("abcd"));
    assert_eq!(b.mined_timestamp, Some(1700000000));
    let p = store.get_payment_by_id(&pid).expect("payment exists");
    assert!(matches!(p.status, PaymentStatus::Confirmed));
    assert!(p.failure_reason.is_none());
}

#[test]
fn idempotent_resubmission_returns_same_id() {
    let mut store = Store::new();
    let id1 = submit_ok(&mut store, "c1", "alice", "addr1", 100, 1);
    let id2 = submit_ok(&mut store, "c1", "alice", "addr1", 100, 2);
    assert_eq!(id1, id2);
    assert_eq!(store.payments.len(), 1);
}

#[test]
fn signer_failure_fails_batch_and_payment() {
    let mut store = Store::new();
    let pid = submit_ok(&mut store, "c1", "alice", "addr1", 100, 1);
    run_batch_creator_tick(&mut store, 10, 2).expect("tick");
    let batch_id = store.batches[0].id.clone();
    apply_unsigned_tx_outcome(
        &mut store,
        &batch_id,
        UnsignedTxOutcome::Success("U".to_string()),
        3,
    )
    .expect("unsigned tx");
    begin_signing(&mut store, &batch_id, 4).expect("claim");
    finish_signing(
        &mut store,
        &batch_id,
        SignOutcome::Failed("bad key".to_string()),
        5,
    )
    .expect("failure recorded");

    let b = store.find_by_id(&batch_id).expect("batch");
    assert!(matches!(b.status, PaymentBatchStatus::Failed));
    assert_eq!(b.error_message.as_deref(), Some("bad key"));
    let p = store.get_payment_by_id(&pid).expect("payment");
    assert!(matches!(p.status, PaymentStatus::Failed));
    assert_eq!(p.failure_reason.as_deref(), Some("bad key"));
}

#[test]
fn ten_transient_broadcast_errors_fail_the_batch() {
    let mut store = Store::new();
    let pid = submit_ok(&mut store, "c1", "alice", "addr1", 100, 1);
    let batch_id = drive_to_awaiting_broadcast(&mut store, "S");
    begin_broadcast(&mut store, &batch_id, 6).expect("claim for broadcast");
    for attempt in 0..10u64 {
        let reason = format!("transient {}", attempt);
        finish_broadcast(
            &mut store,
            &batch_id,
            BroadcastOutcome::Transient(reason),
            7 + attempt,
        )
        .expect("retry recorded");
    }
    let b = store.find_by_id(&batch_id).expect("batch");
    assert!(matches!(b.status, PaymentBatchStatus::Failed));
    assert_eq!(b.error_message.as_deref(), Some("transient 9"));
    assert_eq!(b.retry_count, 9);
    let p = store.get_payment_by_id(&pid).expect("payment");
    assert!(matches!(p.status, PaymentStatus::Failed));
    assert_eq!(p.failure_reason.as_deref(), Some("transient 9"));
}

#[test]
fn batch_creator_groups_by_account() {
    let mut store = Store::new();
    for (c, a) in [("b1", "bob"), ("b2", "bob"), ("b3", "bob"), ("k1", "carol"), ("k2", "carol")] {
        submit_ok(&mut store, c, a, "addr", 10, 1);
    }
    let created = run_batch_creator_tick(&mut store, 50, 2).expect("tick");
    assert_eq!(created, 2);
    assert_eq!(store.batches.len(), 2);
    let mut sizes: Vec<usize> = store
        .batches
        .iter()
        .map(|b| store.find_by_batch_id(&b.id).len())
        .collect();
    sizes.sort();
    assert_eq!(sizes, vec![2, 3]);
    for p in &store.payments {
        assert!(matches!(p.status, PaymentStatus::Batched));
        let b = store
            .find_by_id(p.payment_batch_id.as_ref().expect("batched"))
            .expect("batch exists");
        assert_eq!(b.account_name, p.account_name);
        assert!(matches!(b.status, PaymentBatchStatus::PendingBatching));
        assert_eq!(b.retry_count, 0);
    }
}

#[test]
fn restart_resumes_from_awaiting_broadcast() {
    let mut store = Store::new();
    let pid = submit_ok(&mut store, "c1", "alice", "addr1", 100, 1);
    let batch_id = drive_to_awaiting_broadcast(&mut store, "S");
    // A crash here loses nothing: the store is the single source of
    // truth. The next broadcaster pass polls `AWAITING_BROADCAST` and
    // picks the batch up where it stood.
    let pending = store.find_by_status(PaymentBatchStatus::AwaitingBroadcast);
    assert_eq!(pending.len(), 1);
    assert_eq!(pending[0].id, batch_id);
    assert_eq!(pending[0].signed_tx_json.as_deref(), Some("S"));
    let signed = begin_broadcast(&mut store, &batch_id, 10).expect("claim");
    assert_eq!(signed, "S");
    finish_broadcast(&mut store, &batch_id, BroadcastOutcome::Accepted, 11).expect("accepted");
    let b = store.find_by_id(&batch_id).expect("batch");
    assert!(matches!(b.status, PaymentBatchStatus::AwaitingConfirmation));
    let p = store.get_payment_by_id(&pid).expect("payment");
    assert!(matches!(p.status, PaymentStatus::Batched));
}

#[test]
fn unsigned_tx_rejection_fails_batch() {
    let mut store = Store::new();
    let pid = submit_ok(&mut store, "c1", "alice", "addr1", 100, 1);
    run_batch_creator_tick(&mut store, 10, 2).expect("tick");
    let batch_id = store.batches[0].id.clone();
    apply_unsigned_tx_outcome(
        &mut store,
        &batch_id,
        UnsignedTxOutcome::Rejected("bad recipients".to_string()),
        3,
    )
    .expect("rejection recorded");
    let b = store.find_by_id(&batch_id).expect("batch");
    assert!(matches!(b.status, PaymentBatchStatus::Failed));
    assert_eq!(b.error_message.as_deref(), Some("bad recipients"));
    let p = store.get_payment_by_id(&pid).expect("payment");
    assert_eq!(p.failure_reason.as_deref(), Some("bad recipients"));
}

#[test]
fn confirmation_not_yet_changes_nothing() {
    let mut store = Store::new();
    submit_ok(&mut store, "c1", "alice", "addr1", 100, 1);
    let batch_id = drive_to_awaiting_broadcast(&mut store, "S");
    begin_broadcast(&mut store, &batch_id, 6).expect("claim");
    finish_broadcast(&mut store, &batch_id, BroadcastOutcome::Accepted, 7).expect("accepted");
    apply_confirmation_outcome(&mut store, &batch_id, ConfirmOutcome::NotYet, 8).expect("no-op");
    let b = store.find_by_id(&batch_id).expect("batch");
    assert!(matches!(b.status, PaymentBatchStatus::AwaitingConfirmation));
    assert_eq!(b.retry_count, 0);
}
