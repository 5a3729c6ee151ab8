//! The worker decision logic: from a batch's current status and the
//! outcome of one piece of outside work — an unsigned-transaction
//! request, a wallet signing run, a broadcast, a confirmation poll — to
//! the one store transition the pipeline prescribes for it.
//!
//! The outside work itself (HTTP, the wallet subprocess, base-node RPC)
//! is performed by the caller, which hands the result back as a plain
//! outcome value; every function here is verified for every outcome.

use vstd::prelude::*;
use crate::model::{Payment, PaymentBatchUpdate};
use crate::status::{batch_progress, batch_terminal, payment_progress, PaymentBatchStatus, PaymentStatus};
use crate::store::{
    lemma_received_list_distinct, lemma_received_list_elems, payment_batched_to,
    receivable_with_account, id_in_list, payment_ids_unique,
    advanced_one, batch_confirmed_step, batch_failed_step, batch_updated,
    batches_progress, has_batch, has_batch_in, has_live_batch, payments_progress, received_list,
    Store, StoreError, MAX_RETRIES,
};
use crate::ext::{fresh_uuid, spec_hex_encode};

verus! {

/// What the external unsigned-transaction service reported for one
/// `PENDING_BATCHING` batch.
pub enum UnsignedTxOutcome {
    /// The service returned the unsigned transaction body.
    Success(String),
    /// A transient fault (network blip, 5xx): worth retrying.
    Transient(String),
    /// A structural or validation rejection: irrecoverable.
    Rejected(String),
}

/// What the wallet signing run reported for one `SIGNING_IN_PROGRESS`
/// batch. A failure to spawn the wallet and a non-zero exit are both
/// irrecoverable; the caller formats the reason.
pub enum SignOutcome {
    /// Exit code zero: the signed transaction that was written out.
    Signed(String),
    /// Non-zero exit or spawn error, with the diagnostic message.
    Failed(String),
}

/// What the base node reported for one broadcast attempt.
pub enum BroadcastOutcome {
    /// The node accepted the transaction.
    Accepted,
    /// A transient network fault: worth retrying.
    Transient(String),
    /// The node rejected the transaction (policy, double-spend).
    Rejected(String),
}

/// What the base node reported for one confirmation poll.
pub enum ConfirmOutcome {
    /// Mined at sufficient depth: height, raw header hash, timestamp.
    Mined(u64, Vec<u8>, u64),
    /// Not yet mined deep enough: time, not attempts, is the measure;
    /// nothing changes.
    NotYet,
    /// Definitively rejected (reorged out permanently).
    Rejected(String),
}

/// Applies the unsigned-transaction service's outcome to a
/// `PENDING_BATCHING` batch: success records the body and advances to
/// `AWAITING_SIGNATURE`; a transient fault counts one retry; a rejection
/// fails the batch with cascade.
pub fn apply_unsigned_tx_outcome(
    store: &mut Store,
    batch_id: &String,
    outcome: UnsignedTxOutcome,
    now: u64,
) -> (r: Result<(), StoreError>)
    requires
        old(store).wf(),
    ensures
        final(store).wf(),
        payments_progress(old(store).payments@, final(store).payments@),
        batches_progress(old(store).batches@, final(store).batches@),
        r is Err ==> *final(store) == *old(store),
        r == Err::<(), StoreError>(StoreError::NotFound) <==> !has_batch(
            old(store).batches@,
            batch_id@,
        ),
        match outcome {
            UnsignedTxOutcome::Success(body) => {
                &&& r is Ok <==> has_batch_in(
                    old(store).batches@,
                    batch_id@,
                    PaymentBatchStatus::PendingBatching,
                )
                &&& r is Ok ==> advanced_one(
                    old(store).batches@,
                    final(store).batches@,
                    batch_id@,
                    PaymentBatchStatus::PendingBatching,
                    (PaymentBatchUpdate {
                        status: Some(PaymentBatchStatus::AwaitingSignature),
                        unsigned_tx_json: Some(body),
                        signed_tx_json: None,
                        error_message: None,
                        mined_height: None,
                        mined_header_hash: None,
                        mined_timestamp: None,
                    }),
                    false,
                    now,
                )
            },
            UnsignedTxOutcome::Transient(msg) => {
                &&& r is Ok <==> has_live_batch(old(store).batches@, batch_id@)
                &&& r is Ok ==> exists|j: int|
                    0 <= j < old(store).batches@.len() && (#[trigger] old(store).batches@[j]).id@
                        == batch_id@ && !batch_terminal(old(store).batches@[j].status) && (if old(
                        store,
                    ).batches@[j].retry_count + 1 >= MAX_RETRIES {
                        batch_failed_step(*old(store), *final(store), j, msg@, now)
                    } else {
                        final(store).payments@ == old(store).payments@ && final(store).batches@
                            == old(store).batches@.update(
                            j,
                            batch_updated(
                                old(store).batches@[j],
                                (PaymentBatchUpdate {
                                    status: None,
                                    unsigned_tx_json: None,
                                    signed_tx_json: None,
                                    error_message: None,
                                    mined_height: None,
                                    mined_header_hash: None,
                                    mined_timestamp: None,
                                }),
                                true,
                                now,
                            ),
                        )
                    })
            },
            UnsignedTxOutcome::Rejected(msg) => {
                &&& r is Ok <==> has_live_batch(old(store).batches@, batch_id@)
                &&& r is Ok ==> exists|j: int|
                    0 <= j < old(store).batches@.len() && (#[trigger] old(store).batches@[j]).id@
                        == batch_id@ && !batch_terminal(old(store).batches@[j].status)
                        && batch_failed_step(*old(store), *final(store), j, msg@, now)
            },
        },
{
    match outcome {
        UnsignedTxOutcome::Success(body) => store.update_to_awaiting_signature(
            batch_id,
            body,
            now,
        ),
        UnsignedTxOutcome::Transient(msg) => store.increment_retry_count(batch_id, msg, now),
        UnsignedTxOutcome::Rejected(msg) => store.update_to_failed(batch_id, msg, now),
    }
}

/// Claims an `AWAITING_SIGNATURE` batch for signing: advances it to
/// `SIGNING_IN_PROGRESS` — fencing against a second signer instance —
/// and hands back the unsigned transaction to put before the wallet.
pub fn begin_signing(store: &mut Store, batch_id: &String, now: u64) -> (r: Result<
    String,
    StoreError,
>)
    requires
        old(store).wf(),
    ensures
        final(store).wf(),
        final(store).payments@ == old(store).payments@,
        payments_progress(old(store).payments@, final(store).payments@),
        batches_progress(old(store).batches@, final(store).batches@),
        r is Ok <==> has_batch_in(
            old(store).batches@,
            batch_id@,
            PaymentBatchStatus::AwaitingSignature,
        ),
        r is Err ==> *final(store) == *old(store),
        r == Err::<String, StoreError>(StoreError::NotFound) <==> !has_batch(
            old(store).batches@,
            batch_id@,
        ),
        r is Ok ==> exists|j: int|
            0 <= j < old(store).batches@.len() && (#[trigger] old(store).batches@[j]).id@
                == batch_id@ && old(store).batches@[j].status
                == PaymentBatchStatus::AwaitingSignature && old(
                store,
            ).batches@[j].unsigned_tx_json is Some && r.unwrap()@ == old(
                store,
            ).batches@[j].unsigned_tx_json.unwrap()@ && advanced_one(
                old(store).batches@,
                final(store).batches@,
                batch_id@,
                PaymentBatchStatus::AwaitingSignature,
                (PaymentBatchUpdate {
                    status: Some(PaymentBatchStatus::SigningInProgress),
                    unsigned_tx_json: None,
                    signed_tx_json: None,
                    error_message: None,
                    mined_height: None,
                    mined_header_hash: None,
                    mined_timestamp: None,
                }),
                false,
                now,
            ),
{
    let json = match store.find_by_id(batch_id) {
        None => {
            return Err(StoreError::NotFound);
        },
        Some(b) => {
            if !(b.status == PaymentBatchStatus::AwaitingSignature) {
                proof {
                    assert forall|k: int|
                        0 <= k < store.batches@.len() && (#[trigger] store.batches@[k]).id@
                            == batch_id@ implies store.batches@[k].status
                        != PaymentBatchStatus::AwaitingSignature by {
                        let j0 = choose|j0: int|
                            0 <= j0 < store.batches@.len() && #[trigger] store.batches@[j0] == *b
                                && b.id@ == batch_id@;
                        if k != j0 {
                            assert(store.batches@[k].id@ == store.batches@[j0].id@);
                            assert(false);
                        }
                    };
                }
                return Err(StoreError::Conflict);
            }
            match &b.unsigned_tx_json {
                Some(s) => s.clone(),
                None => {
                    proof {
                        let j0 = choose|j0: int|
                            0 <= j0 < store.batches@.len() && #[trigger] store.batches@[j0] == *b
                                && b.id@ == batch_id@;
                        assert(false);
                    }
                    return Err(StoreError::Conflict);
                },
            }
        },
    };
    match store.update_to_signing_in_progress(batch_id, now) {
        Ok(()) => Ok(json),
        Err(e) => Err(e),
    }
}

/// Applies the wallet's outcome to a `SIGNING_IN_PROGRESS` batch: a
/// successful run records the signed transaction and advances to
/// `AWAITING_BROADCAST`; any failure is irrecoverable and fails the
/// batch with cascade.
pub fn finish_signing(store: &mut Store, batch_id: &String, outcome: SignOutcome, now: u64) -> (r:
    Result<(), StoreError>)
    requires
        old(store).wf(),
    ensures
        final(store).wf(),
        payments_progress(old(store).payments@, final(store).payments@),
        batches_progress(old(store).batches@, final(store).batches@),
        r is Err ==> *final(store) == *old(store),
        r == Err::<(), StoreError>(StoreError::NotFound) <==> !has_batch(
            old(store).batches@,
            batch_id@,
        ),
        match outcome {
            SignOutcome::Signed(json) => {
                &&& r is Ok <==> has_batch_in(
                    old(store).batches@,
                    batch_id@,
                    PaymentBatchStatus::SigningInProgress,
                )
                &&& r is Ok ==> advanced_one(
                    old(store).batches@,
                    final(store).batches@,
                    batch_id@,
                    PaymentBatchStatus::SigningInProgress,
                    (PaymentBatchUpdate {
                        status: Some(PaymentBatchStatus::AwaitingBroadcast),
                        unsigned_tx_json: None,
                        signed_tx_json: Some(json),
                        error_message: None,
                        mined_height: None,
                        mined_header_hash: None,
                        mined_timestamp: None,
                    }),
                    false,
                    now,
                )
            },
            SignOutcome::Failed(msg) => {
                &&& r is Ok <==> has_live_batch(old(store).batches@, batch_id@)
                &&& r is Ok ==> exists|j: int|
                    0 <= j < old(store).batches@.len() && (#[trigger] old(store).batches@[j]).id@
                        == batch_id@ && !batch_terminal(old(store).batches@[j].status)
                        && batch_failed_step(*old(store), *final(store), j, msg@, now)
            },
        },
{
    match outcome {
        SignOutcome::Signed(json) => store.update_to_awaiting_broadcast(batch_id, json, now),
        SignOutcome::Failed(msg) => store.update_to_failed(batch_id, msg, now),
    }
}

/// Claims an `AWAITING_BROADCAST` batch for the broadcaster: advances it
/// to `BROADCASTING` and hands back the signed transaction to submit.
pub fn begin_broadcast(store: &mut Store, batch_id: &String, now: u64) -> (r: Result<
    String,
    StoreError,
>)
    requires
        old(store).wf(),
    ensures
        final(store).wf(),
        final(store).payments@ == old(store).payments@,
        payments_progress(old(store).payments@, final(store).payments@),
        batches_progress(old(store).batches@, final(store).batches@),
        r is Ok <==> has_batch_in(
            old(store).batches@,
            batch_id@,
            PaymentBatchStatus::AwaitingBroadcast,
        ),
        r is Err ==> *final(store) == *old(store),
        r == Err::<String, StoreError>(StoreError::NotFound) <==> !has_batch(
            old(store).batches@,
            batch_id@,
        ),
        r is Ok ==> exists|j: int|
            0 <= j < old(store).batches@.len() && (#[trigger] old(store).batches@[j]).id@
                == batch_id@ && old(store).batches@[j].status
                == PaymentBatchStatus::AwaitingBroadcast && old(
                store,
            ).batches@[j].signed_tx_json is Some && r.unwrap()@ == old(
                store,
            ).batches@[j].signed_tx_json.unwrap()@ && advanced_one(
                old(store).batches@,
                final(store).batches@,
                batch_id@,
                PaymentBatchStatus::AwaitingBroadcast,
                (PaymentBatchUpdate {
                    status: Some(PaymentBatchStatus::Broadcasting),
                    unsigned_tx_json: None,
                    signed_tx_json: None,
                    error_message: None,
                    mined_height: None,
                    mined_header_hash: None,
                    mined_timestamp: None,
                }),
                false,
                now,
            ),
{
    let json = match store.find_by_id(batch_id) {
        None => {
            return Err(StoreError::NotFound);
        },
        Some(b) => {
            if !(b.status == PaymentBatchStatus::AwaitingBroadcast) {
                proof {
                    assert forall|k: int|
                        0 <= k < store.batches@.len() && (#[trigger] store.batches@[k]).id@
                            == batch_id@ implies store.batches@[k].status
                        != PaymentBatchStatus::AwaitingBroadcast by {
                        let j0 = choose|j0: int|
                            0 <= j0 < store.batches@.len() && #[trigger] store.batches@[j0] == *b
                                && b.id@ == batch_id@;
                        if k != j0 {
                            assert(store.batches@[k].id@ == store.batches@[j0].id@);
                            assert(false);
                        }
                    };
                }
                return Err(StoreError::Conflict);
            }
            match &b.signed_tx_json {
                Some(s) => s.clone(),
                None => {
                    proof {
                        let j0 = choose|j0: int|
                            0 <= j0 < store.batches@.len() && #[trigger] store.batches@[j0] == *b
                                && b.id@ == batch_id@;
                        assert(false);
                    }
                    return Err(StoreError::Conflict);
                },
            }
        },
    };
    match store.update_to_broadcasting(batch_id, now) {
        Ok(()) => Ok(json),
        Err(e) => Err(e),
    }
}

/// Applies the base node's broadcast outcome to a `BROADCASTING` batch:
/// acceptance advances to `AWAITING_CONFIRMATION`; a transient fault
/// counts one retry; a rejection fails the batch with cascade.
pub fn finish_broadcast(
    store: &mut Store,
    batch_id: &String,
    outcome: BroadcastOutcome,
    now: u64,
) -> (r: Result<(), StoreError>)
    requires
        old(store).wf(),
    ensures
        final(store).wf(),
        payments_progress(old(store).payments@, final(store).payments@),
        batches_progress(old(store).batches@, final(store).batches@),
        r is Err ==> *final(store) == *old(store),
        r == Err::<(), StoreError>(StoreError::NotFound) <==> !has_batch(
            old(store).batches@,
            batch_id@,
        ),
        match outcome {
            BroadcastOutcome::Accepted => {
                &&& r is Ok <==> has_batch_in(
                    old(store).batches@,
                    batch_id@,
                    PaymentBatchStatus::Broadcasting,
                )
                &&& r is Ok ==> advanced_one(
                    old(store).batches@,
                    final(store).batches@,
                    batch_id@,
                    PaymentBatchStatus::Broadcasting,
                    (PaymentBatchUpdate {
                        status: Some(PaymentBatchStatus::AwaitingConfirmation),
                        unsigned_tx_json: None,
                        signed_tx_json: None,
                        error_message: None,
                        mined_height: None,
                        mined_header_hash: None,
                        mined_timestamp: None,
                    }),
                    false,
                    now,
                )
            },
            BroadcastOutcome::Transient(msg) => {
                &&& r is Ok <==> has_live_batch(old(store).batches@, batch_id@)
                &&& r is Ok ==> exists|j: int|
                    0 <= j < old(store).batches@.len() && (#[trigger] old(store).batches@[j]).id@
                        == batch_id@ && !batch_terminal(old(store).batches@[j].status) && (if old(
                        store,
                    ).batches@[j].retry_count + 1 >= MAX_RETRIES {
                        batch_failed_step(*old(store), *final(store), j, msg@, now)
                    } else {
                        final(store).payments@ == old(store).payments@ && final(store).batches@
                            == old(store).batches@.update(
                            j,
                            batch_updated(
                                old(store).batches@[j],
                                (PaymentBatchUpdate {
                                    status: None,
                                    unsigned_tx_json: None,
                                    signed_tx_json: None,
                                    error_message: None,
                                    mined_height: None,
                                    mined_header_hash: None,
                                    mined_timestamp: None,
                                }),
                                true,
                                now,
                            ),
                        )
                    })
            },
            BroadcastOutcome::Rejected(msg) => {
                &&& r is Ok <==> has_live_batch(old(store).batches@, batch_id@)
                &&& r is Ok ==> exists|j: int|
                    0 <= j < old(store).batches@.len() && (#[trigger] old(store).batches@[j]).id@
                        == batch_id@ && !batch_terminal(old(store).batches@[j].status)
                        && batch_failed_step(*old(store), *final(store), j, msg@, now)
            },
        },
{
    match outcome {
        BroadcastOutcome::Accepted => store.update_to_awaiting_confirmation(batch_id, now),
        BroadcastOutcome::Transient(msg) => store.increment_retry_count(batch_id, msg, now),
        BroadcastOutcome::Rejected(msg) => store.update_to_failed(batch_id, msg, now),
    }
}

/// Applies one confirmation poll to an `AWAITING_CONFIRMATION` batch:
/// mined at depth confirms the batch (and, in the same step, all its
/// member payments); not-yet-mined changes nothing, since time rather
/// than attempts is the progress measure here; a definitive rejection
/// fails the batch with cascade.
pub fn apply_confirmation_outcome(
    store: &mut Store,
    batch_id: &String,
    outcome: ConfirmOutcome,
    now: u64,
) -> (r: Result<(), StoreError>)
    requires
        old(store).wf(),
    ensures
        final(store).wf(),
        payments_progress(old(store).payments@, final(store).payments@),
        batches_progress(old(store).batches@, final(store).batches@),
        r is Err ==> *final(store) == *old(store),
        match outcome {
            ConfirmOutcome::Mined(height, hash, ts) => {
                &&& r == Err::<(), StoreError>(StoreError::NotFound) <==> !has_batch(
                    old(store).batches@,
                    batch_id@,
                )
                &&& r is Ok <==> has_batch_in(
                    old(store).batches@,
                    batch_id@,
                    PaymentBatchStatus::AwaitingConfirmation,
                )
                &&& r is Ok ==> exists|j: int|
                    0 <= j < old(store).batches@.len() && (#[trigger] old(store).batches@[j]).id@
                        == batch_id@ && old(store).batches@[j].status
                        == PaymentBatchStatus::AwaitingConfirmation && batch_confirmed_step(
                        *old(store),
                        *final(store),
                        j,
                        height,
                        spec_hex_encode(hash@),
                        ts,
                        now,
                    )
            },
            ConfirmOutcome::NotYet => r is Ok && *final(store) == *old(store),
            ConfirmOutcome::Rejected(msg) => {
                &&& r == Err::<(), StoreError>(StoreError::NotFound) <==> !has_batch(
                    old(store).batches@,
                    batch_id@,
                )
                &&& r is Ok <==> has_live_batch(old(store).batches@, batch_id@)
                &&& r is Ok ==> exists|j: int|
                    0 <= j < old(store).batches@.len() && (#[trigger] old(store).batches@[j]).id@
                        == batch_id@ && !batch_terminal(old(store).batches@[j].status)
                        && batch_failed_step(*old(store), *final(store), j, msg@, now)
            },
        },
{
    match outcome {
        ConfirmOutcome::Mined(height, hash, ts) => store.update_to_confirmed(
            batch_id,
            height,
            hash,
            ts,
            now,
        ),
        ConfirmOutcome::NotYet => Ok(()),
        ConfirmOutcome::Rejected(msg) => store.update_to_failed(batch_id, msg, now),
    }
}

/// One batch creator tick: groups the first `limit` `RECEIVED` payments
/// by account and creates one `PENDING_BATCHING` batch per account with
/// a fresh id and a fresh idempotency key, claiming exactly those
/// payments. On success no selected payment is left `RECEIVED`; the
/// result counts the batches created. An id collision aborts the tick
/// with `Conflict`, leaving the store well-formed with the groups
/// already batched.
/// A payment row that is not `RECEIVED` cannot be named by a list of
/// ids that all name `RECEIVED` rows of one account.
proof fn lemma_not_received_not_listed(
    psp: Seq<Payment>,
    ids: Seq<String>,
    account: Seq<char>,
)
    requires
        payment_ids_unique(psp),
        forall|a: int|
            0 <= a < ids.len() ==> receivable_with_account(psp, (#[trigger] ids[a])@, account),
    ensures
        forall|i: int|
            0 <= i < psp.len() && (#[trigger] psp[i]).status != PaymentStatus::Received
                ==> !id_in_list(psp[i].id@, ids),
        forall|i: int|
            0 <= i < psp.len() && (#[trigger] psp[i]).account_name@ != account
                ==> !id_in_list(psp[i].id@, ids),
{
    assert forall|i: int|
        0 <= i < psp.len() && ((#[trigger] psp[i]).status != PaymentStatus::Received
            || psp[i].account_name@ != account) implies !id_in_list(psp[i].id@, ids) by {
        if id_in_list(psp[i].id@, ids) {
            let a = choose|a: int| 0 <= a < ids.len() && (#[trigger] ids[a])@ == psp[i].id@;
            assert(receivable_with_account(psp, ids[a]@, account));
            let i2 = choose|i2: int|
                0 <= i2 < psp.len() && (#[trigger] psp[i2]).id@ == ids[a]@ && psp[i2].status
                    == PaymentStatus::Received && psp[i2].account_name@ == account;
            if i2 != i {
                assert(psp[i2].id@ == psp[i].id@);
                assert(false);
            }
        }
    };
}

/// After one account's group is claimed, every entry of `rest` still
/// names an untouched `RECEIVED` row of its own account.
proof fn lemma_tick_rest_survives(
    psp: Seq<Payment>,
    psn: Seq<Payment>,
    remaining: Seq<Payment>,
    ids: Seq<String>,
    rest: Seq<Payment>,
    account: Seq<char>,
)
    requires
        psn.len() == psp.len(),
        forall|i: int|
            0 <= i < psp.len() && !id_in_list((#[trigger] psp[i]).id@, ids) ==> psn[i] == psp[i],
        forall|i: int|
            0 <= i < psp.len() && (#[trigger] psp[i]).account_name@ != account
                ==> !id_in_list(psp[i].id@, ids),
        forall|k: int|
            #![trigger remaining[k]]
            0 <= k < remaining.len() ==> exists|i: int|
                0 <= i < psp.len() && (#[trigger] psp[i]).id@ == remaining[k].id@ && psp[i].status
                    == PaymentStatus::Received && psp[i].account_name@
                    == remaining[k].account_name@,
        forall|a: int|
            #![trigger rest[a]]
            0 <= a < rest.len() ==> exists|kk: int|
                0 <= kk < remaining.len() && (rest[a]).id@ == (#[trigger] remaining[kk]).id@
                    && rest[a].account_name@ == remaining[kk].account_name@
                    && remaining[kk].account_name@ != account,
    ensures
        forall|a: int|
            #![trigger rest[a]]
            0 <= a < rest.len() ==> exists|i: int|
                0 <= i < psn.len() && (#[trigger] psn[i]).id@ == rest[a].id@ && psn[i].status
                    == PaymentStatus::Received && psn[i].account_name@ == rest[a].account_name@,
{
    assert forall|a: int| #![trigger rest[a]] 0 <= a < rest.len() implies exists|i: int|
        0 <= i < psn.len() && (#[trigger] psn[i]).id@ == rest[a].id@ && psn[i].status
            == PaymentStatus::Received && psn[i].account_name@ == rest[a].account_name@ by {
        let kk = choose|kk: int|
            0 <= kk < remaining.len() && (rest[a]).id@ == (#[trigger] remaining[kk]).id@
                && rest[a].account_name@ == remaining[kk].account_name@
                && remaining[kk].account_name@ != account;
        let i = choose|i: int|
            0 <= i < psp.len() && (#[trigger] psp[i]).id@ == remaining[kk].id@ && psp[i].status
                == PaymentStatus::Received && psp[i].account_name@
                == remaining[kk].account_name@;
        assert(psn[i] == psp[i]);
        assert(psn[i].id@ == rest[a].id@);
    };
}

/// The Received-to-Batched payment frame composes across one claiming
/// step.
proof fn lemma_tick_frame(
    orig_ps: Seq<Payment>,
    psp: Seq<Payment>,
    psn: Seq<Payment>,
    ids: Seq<String>,
    bid: Seq<char>,
    now: u64,
)
    requires
        psn.len() == psp.len(),
        psp.len() == orig_ps.len(),
        forall|i: int|
            0 <= i < psp.len() && id_in_list((#[trigger] psp[i]).id@, ids)
                ==> payment_batched_to(psp[i], psn[i], bid, now),
        forall|i: int|
            0 <= i < psp.len() && !id_in_list((#[trigger] psp[i]).id@, ids) ==> psn[i] == psp[i],
        forall|i: int|
            0 <= i < psp.len() && (#[trigger] psp[i]).status != PaymentStatus::Received
                ==> !id_in_list(psp[i].id@, ids),
        forall|i: int|
            0 <= i < orig_ps.len() ==> psp[i] == (#[trigger] orig_ps[i]) || (orig_ps[i].status
                == PaymentStatus::Received && psp[i].status == PaymentStatus::Batched
                && psp[i].core_kept(orig_ps[i]) && psp[i].updated_at == now),
    ensures
        forall|i: int|
            0 <= i < orig_ps.len() ==> psn[i] == (#[trigger] orig_ps[i]) || (orig_ps[i].status
                == PaymentStatus::Received && psn[i].status == PaymentStatus::Batched
                && psn[i].core_kept(orig_ps[i]) && psn[i].updated_at == now),
{
    assert forall|i: int|
        0 <= i < orig_ps.len() implies psn[i] == (#[trigger] orig_ps[i]) || (orig_ps[i].status
        == PaymentStatus::Received && psn[i].status == PaymentStatus::Batched && psn[i].core_kept(
        orig_ps[i],
    ) && psn[i].updated_at == now) by {
        if id_in_list(psp[i].id@, ids) {
            assert(payment_batched_to(psp[i], psn[i], bid, now));
            assert(psp[i].status == PaymentStatus::Received);
            assert(psp[i] == orig_ps[i]);
        } else {
            assert(psn[i] == psp[i]);
        }
    };
}

#[verifier::rlimit(100)]
pub fn run_batch_creator_tick(store: &mut Store, limit: usize, now: u64) -> (r: Result<
    usize,
    StoreError,
>)
    requires
        old(store).wf(),
    ensures
        final(store).wf(),
        payments_progress(old(store).payments@, final(store).payments@),
        batches_progress(old(store).batches@, final(store).batches@),
        final(store).payments@.len() == old(store).payments@.len(),
        final(store).batches@.len() >= old(store).batches@.len(),
        forall|k: int|
            0 <= k < old(store).batches@.len()
                ==> final(store).batches@[k] == #[trigger] old(store).batches@[k],
        forall|k: int|
            old(store).batches@.len() <= k < final(store).batches@.len()
                ==> (#[trigger] final(store).batches@[k]).status
                    == PaymentBatchStatus::PendingBatching
                && final(store).batches@[k].retry_count == 0
                && final(store).batches@[k].created_at == now,
        forall|i: int|
            0 <= i < old(store).payments@.len()
                ==> final(store).payments@[i] == #[trigger] old(store).payments@[i]
                || (old(store).payments@[i].status == PaymentStatus::Received
                    && final(store).payments@[i].status == PaymentStatus::Batched
                    && final(store).payments@[i].core_kept(old(store).payments@[i])
                    && final(store).payments@[i].updated_at == now),
        r is Ok ==> r.unwrap() == final(store).batches@.len() - old(store).batches@.len(),
        r is Ok && received_list(old(store).payments@, limit as nat).len() > 0
            ==> final(store).batches@.len() > old(store).batches@.len(),
{
    proof {
        lemma_received_list_elems(old(store).payments@, limit as nat);
        lemma_received_list_distinct(old(store).payments@, limit as nat);
    }
    let mut remaining: Vec<Payment> = store.find_receivable_payments(limit);
    let ghost orig = *store;
    let ghost rl = received_list(orig.payments@, limit as nat);
    let base: usize = store.batches.len();
    proof {
        assert forall|k: int| #![trigger remaining@[k]] 0 <= k < remaining@.len() implies exists|
            i: int,
        |
            0 <= i < store.payments@.len() && (#[trigger] store.payments@[i]).id@
                == remaining@[k].id@ && store.payments@[i].status == PaymentStatus::Received
                && store.payments@[i].account_name@ == remaining@[k].account_name@ by {
            assert(remaining@[k] == rl[k]);
            let i = choose|i: int| 0 <= i < orig.payments@.len() && #[trigger] orig.payments@[i]
                == rl[k];
            assert(store.payments@[i].id@ == remaining@[k].id@);
        };
    }
    while remaining.len() > 0
        invariant
            store.wf(),
            orig == *old(store),
            base == orig.batches@.len(),
            rl == received_list(orig.payments@, limit as nat),
            forall|k: int|
                #![trigger remaining@[k]]
                0 <= k < remaining@.len() ==> exists|i: int|
                    0 <= i < store.payments@.len() && (#[trigger] store.payments@[i]).id@
                        == remaining@[k].id@ && store.payments@[i].status
                        == PaymentStatus::Received && store.payments@[i].account_name@
                        == remaining@[k].account_name@,
            forall|a: int, b: int|
                0 <= a < b < remaining@.len() ==> (#[trigger] remaining@[a]).id@
                    != (#[trigger] remaining@[b]).id@,
            store.payments@.len() == orig.payments@.len(),
            forall|i: int|
                0 <= i < orig.payments@.len() ==> store.payments@[i] == (#[trigger] orig.payments@[i])
                    || (orig.payments@[i].status == PaymentStatus::Received
                    && store.payments@[i].status == PaymentStatus::Batched
                    && store.payments@[i].core_kept(orig.payments@[i])
                    && store.payments@[i].updated_at == now),
            store.batches@.len() >= orig.batches@.len(),
            forall|k: int|
                0 <= k < orig.batches@.len() ==> store.batches@[k] == (#[trigger] orig.batches@[k]),
            forall|k: int|
                orig.batches@.len() <= k < store.batches@.len() ==> (#[trigger] store.batches@[k]).status
                    == PaymentBatchStatus::PendingBatching && store.batches@[k].retry_count == 0
                    && store.batches@[k].created_at == now,
            store.batches@.len() > orig.batches@.len() || remaining@.len() == rl.len(),
        decreases remaining@.len(),
    {
        let account = remaining[0].account_name.clone();
        let mut ids: Vec<String> = Vec::new();
        let mut rest: Vec<Payment> = Vec::new();
        let m: usize = remaining.len();
        for k in 0..m
            invariant
                m == remaining@.len(),
                m > 0,
                account@ == remaining@[0].account_name@,
                forall|a: int, b: int|
                    0 <= a < b < remaining@.len() ==> (#[trigger] remaining@[a]).id@
                        != (#[trigger] remaining@[b]).id@,
                forall|a: int|
                    #![trigger ids@[a]]
                    0 <= a < ids@.len() ==> exists|kk: int|
                        0 <= kk < k && (ids@[a])@ == (#[trigger] remaining@[kk]).id@
                            && remaining@[kk].account_name@ == account@,
                forall|kk: int|
                    0 <= kk < k && (#[trigger] remaining@[kk]).account_name@ == account@
                        ==> id_in_list(remaining@[kk].id@, ids@),
                forall|a: int, b: int|
                    0 <= a < b < ids@.len() ==> (#[trigger] ids@[a])@ != (#[trigger] ids@[b])@,
        {
            if remaining[k].account_name == account {
                let ghost ids0 = ids@;
                ids.push(remaining[k].id.clone());
                proof {
                    assert forall|a: int, b: int|
                        0 <= a < b < ids@.len() implies (#[trigger] ids@[a])@
                        != (#[trigger] ids@[b])@ by {
                        if b == ids@.len() - 1 {
                            assert(ids@[a] == ids0[a]);
                            let kk = choose|kk: int|
                                0 <= kk < k && (ids0[a])@ == (#[trigger] remaining@[kk]).id@
                                    && remaining@[kk].account_name@ == account@;
                            assert(remaining@[kk].id@ != remaining@[k as int].id@);
                        } else {
                            assert(ids@[a] == ids0[a]);
                            assert(ids@[b] == ids0[b]);
                        }
                    };
                    assert forall|a: int| #![trigger ids@[a]] 0 <= a < ids@.len() implies exists|
                        kk: int,
                    |
                        0 <= kk < k + 1 && (ids@[a])@ == (#[trigger] remaining@[kk]).id@
                            && remaining@[kk].account_name@ == account@ by {
                        if a < ids0.len() {
                            assert(ids@[a] == ids0[a]);
                            let kk = choose|kk: int|
                                0 <= kk < k && (ids0[a])@ == (#[trigger] remaining@[kk]).id@
                                    && remaining@[kk].account_name@ == account@;
                            assert((ids@[a])@ == remaining@[kk].id@);
                        } else {
                            assert((ids@[a])@ == remaining@[k as int].id@);
                        }
                    };
                    assert forall|kk: int|
                        0 <= kk < k + 1 && (#[trigger] remaining@[kk]).account_name@
                        == account@ implies id_in_list(remaining@[kk].id@, ids@) by {
                        if kk < k {
                            let a = choose|a: int|
                                0 <= a < ids0.len() && (#[trigger] ids0[a])@
                                    == remaining@[kk].id@;
                            assert(ids@[a] == ids0[a]);
                            assert((ids@[a])@ == remaining@[kk].id@);
                        } else {
                            assert((ids@[ids@.len() - 1])@ == remaining@[kk].id@);
                        }
                    };
                }
            }
        }
        proof {
            assert(id_in_list(remaining@[0].id@, ids@));
            assert(ids@.len() > 0);
        }
        for k in 0..m
            invariant
                m == remaining@.len(),
                m > 0,
                account@ == remaining@[0].account_name@,
                forall|a: int, b: int|
                    0 <= a < b < remaining@.len() ==> (#[trigger] remaining@[a]).id@
                        != (#[trigger] remaining@[b]).id@,
                rest@.len() <= k,
                k > 0 ==> rest@.len() < k,
                forall|a: int|
                    #![trigger rest@[a]]
                    0 <= a < rest@.len() ==> exists|kk: int|
                        0 <= kk < k && (rest@[a]).id@ == (#[trigger] remaining@[kk]).id@
                            && rest@[a].account_name@ == remaining@[kk].account_name@
                            && remaining@[kk].account_name@ != account@,
                forall|a: int, b: int|
                    0 <= a < b < rest@.len() ==> (#[trigger] rest@[a]).id@
                        != (#[trigger] rest@[b]).id@,
        {
            if !(remaining[k].account_name == account) {
                let ghost rest0 = rest@;
                rest.push(remaining[k].duplicate());
                proof {
                    assert forall|a: int, b: int|
                        0 <= a < b < rest@.len() implies (#[trigger] rest@[a]).id@
                        != (#[trigger] rest@[b]).id@ by {
                        if b == rest@.len() - 1 {
                            assert(rest@[a] == rest0[a]);
                            let kk = choose|kk: int|
                                0 <= kk < k && (rest0[a]).id@ == (#[trigger] remaining@[kk]).id@
                                    && rest0[a].account_name@ == remaining@[kk].account_name@
                                    && remaining@[kk].account_name@ != account@;
                            assert(remaining@[kk].id@ != remaining@[k as int].id@);
                        } else {
                            assert(rest@[a] == rest0[a]);
                            assert(rest@[b] == rest0[b]);
                        }
                    };
                    assert forall|a: int| #![trigger rest@[a]] 0 <= a < rest@.len() implies exists|
                        kk: int,
                    |
                        0 <= kk < k + 1 && (rest@[a]).id@ == (#[trigger] remaining@[kk]).id@
                            && rest@[a].account_name@ == remaining@[kk].account_name@
                            && remaining@[kk].account_name@ != account@ by {
                        if a < rest0.len() {
                            assert(rest@[a] == rest0[a]);
                            let kk = choose|kk: int|
                                0 <= kk < k && (rest0[a]).id@ == (#[trigger] remaining@[kk]).id@
                                    && rest0[a].account_name@ == remaining@[kk].account_name@
                                    && remaining@[kk].account_name@ != account@;
                            assert((rest@[a]).id@ == remaining@[kk].id@);
                        } else {
                            assert((rest@[a]).id@ == remaining@[k as int].id@);
                        }
                    };
                }
            }
        }
        proof {
            assert(rest@.len() < m);
            assert forall|a: int| 0 <= a < ids@.len() implies receivable_with_account(
                store.payments@,
                (#[trigger] ids@[a])@,
                account@,
            ) by {
                let kk = choose|kk: int|
                    0 <= kk < m && (ids@[a])@ == (#[trigger] remaining@[kk]).id@
                        && remaining@[kk].account_name@ == account@;
                let i = choose|i: int|
                    0 <= i < store.payments@.len() && (#[trigger] store.payments@[i]).id@
                        == remaining@[kk].id@ && store.payments@[i].status
                        == PaymentStatus::Received && store.payments@[i].account_name@
                        == remaining@[kk].account_name@;
                assert(store.payments@[i].id@ == ids@[a]@ && store.payments@[i].status
                    == PaymentStatus::Received && store.payments@[i].account_name@ == account@);
            };
        }
        let batch_id = fresh_uuid();
        let pr_key = fresh_uuid();
        let ghost pre = *store;
        let nb = match store.create_batch_with_payments(batch_id, &account, pr_key, &ids, now) {
            Err(e) => {
                return Err(e);
            },
            Ok(nb) => nb,
        };
        proof {
            lemma_not_received_not_listed(pre.payments@, ids@, account@);
            lemma_tick_rest_survives(
                pre.payments@,
                store.payments@,
                remaining@,
                ids@,
                rest@,
                account@,
            );
            lemma_tick_frame(orig.payments@, pre.payments@, store.payments@, ids@, nb.id@, now);
        }
        remaining = rest;
    }
    proof {
        assert forall|i: int| 0 <= i < orig.payments@.len() implies payment_progress(
            (#[trigger] orig.payments@[i]).status,
            store.payments@[i].status,
        ) && store.payments@[i].id@ == orig.payments@[i].id@ by {};
        assert forall|j: int| 0 <= j < orig.batches@.len() implies batch_progress(
            (#[trigger] orig.batches@[j]).status,
            store.batches@[j].status,
        ) && store.batches@[j].id@ == orig.batches@[j].id@ by {
            assert(store.batches@[j] == orig.batches@[j]);
        };
    }
    let total: usize = store.batches.len();
    Ok(total - base)
}

} // verus!
