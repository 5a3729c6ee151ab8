//! The pipeline's cross-cutting guarantees, each proved from the store
//! invariant that every operation preserves. The per-step guarantees —
//! that every operation only moves statuses forward — stand in the
//! `payments_progress` / `batches_progress` clauses of the operations
//! themselves, and compose by the transitivity lemmas in `status`.

use vstd::prelude::*;
use crate::status::{batch_terminal, PaymentBatchStatus, PaymentStatus};
use crate::store::{Store, MAX_RETRIES};

verus! {

/// Idempotency of ingress: the client key `(client_id, account_name)`
/// names at most one payment, so any two stored payments carrying the
/// same key are one and the same row — two consecutive submissions of
/// one request therefore return the same payment id.
pub proof fn lemma_client_key_unique(s: Store, i: int, j: int)
    requires
        s.wf(),
        0 <= i < s.payments@.len(),
        0 <= j < s.payments@.len(),
        s.payments@[i].client_id@ == s.payments@[j].client_id@,
        s.payments@[i].account_name@ == s.payments@[j].account_name@,
    ensures
        i == j,
{
}

/// Cascade consistency: every member payment of a terminal batch shares
/// that terminal status, with the failure reason copied on failure.
pub proof fn lemma_cascade_consistency(s: Store, i: int, j: int)
    requires
        s.wf(),
        0 <= i < s.payments@.len(),
        0 <= j < s.batches@.len(),
        s.payments@[i].is_member_of(s.batches@[j].id@),
        batch_terminal(s.batches@[j].status),
    ensures
        s.batches@[j].status == PaymentBatchStatus::Confirmed ==> s.payments@[i].status
            == PaymentStatus::Confirmed,
        s.batches@[j].status == PaymentBatchStatus::Failed ==> s.payments@[i].status
            == PaymentStatus::Failed && s.payments@[i].failure_reason is Some
            && s.batches@[j].error_message is Some && s.payments@[i].failure_reason.unwrap()@
            == s.batches@[j].error_message.unwrap()@,
{
}

/// Retry bound: a batch never exceeds `MAX_RETRIES` retries; a batch
/// that reached the bound is `FAILED`, and a non-terminal batch is
/// strictly below it.
pub proof fn lemma_retry_bound(s: Store, j: int)
    requires
        s.wf(),
        0 <= j < s.batches@.len(),
    ensures
        0 <= s.batches@[j].retry_count <= MAX_RETRIES,
        s.batches@[j].retry_count == MAX_RETRIES ==> s.batches@[j].status
            == PaymentBatchStatus::Failed,
        !batch_terminal(s.batches@[j].status) ==> s.batches@[j].retry_count < MAX_RETRIES,
{
}

/// Account homogeneity: every member payment of a batch carries the
/// batch's account name.
pub proof fn lemma_account_homogeneity(s: Store, i: int, j: int)
    requires
        s.wf(),
        0 <= i < s.payments@.len(),
        0 <= j < s.batches@.len(),
        s.payments@[i].is_member_of(s.batches@[j].id@),
    ensures
        s.payments@[i].account_name@ == s.batches@[j].account_name@,
{
}

} // verus!
