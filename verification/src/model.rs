//! The two persistent entities: `Payment` and `PaymentBatch`, plus the
//! partial-update record for batches.
//!
//! Timestamps are kept as plain unsigned seconds; the caller that owns
//! the clock hands the current time to every mutating store operation.

use vstd::prelude::*;
use crate::status::{PaymentBatchStatus, PaymentStatus};

verus! {

#[derive(Debug)]
pub struct Payment {
    pub id: String,
    pub client_id: String,
    pub account_name: String,
    pub status: PaymentStatus,
    pub payment_batch_id: Option<String>,
    pub recipient_address: String,
    pub amount: i64,
    pub payment_id: Option<String>,
    pub failure_reason: Option<String>,
    pub created_at: u64,
    pub updated_at: u64,
}

#[derive(Debug)]
pub struct PaymentBatch {
    pub id: String,
    pub account_name: String,
    pub status: PaymentBatchStatus,
    pub pr_idempotency_key: String,
    pub unsigned_tx_json: Option<String>,
    pub signed_tx_json: Option<String>,
    pub error_message: Option<String>,
    pub retry_count: i64,
    pub mined_height: Option<u64>,
    pub mined_header_hash: Option<String>,
    pub mined_timestamp: Option<u64>,
    pub created_at: u64,
    pub updated_at: u64,
}

/// A partial update of a batch row: only the set fields are written.
/// `updated_at` is always touched regardless of which fields are set.
#[derive(Debug, Default)]
pub struct PaymentBatchUpdate {
    pub status: Option<PaymentBatchStatus>,
    pub unsigned_tx_json: Option<String>,
    pub signed_tx_json: Option<String>,
    pub error_message: Option<String>,
    pub mined_height: Option<u64>,
    pub mined_header_hash: Option<String>,
    pub mined_timestamp: Option<u64>,
}

/// An owned copy of an optional string, equal to its source.
pub fn dup_opt_string(o: &Option<String>) -> (r: Option<String>)
    ensures
        r == *o,
{
    match o {
        Option::None => Option::None,
        Option::Some(s) => Option::Some(s.clone()),
    }
}

impl Payment {
    /// An owned copy, equal to `self`.
    pub fn duplicate(&self) -> (r: Payment)
        ensures
            r == *self,
    {
        Payment {
            id: self.id.clone(),
            client_id: self.client_id.clone(),
            account_name: self.account_name.clone(),
            status: self.status,
            payment_batch_id: dup_opt_string(&self.payment_batch_id),
            recipient_address: self.recipient_address.clone(),
            amount: self.amount,
            payment_id: dup_opt_string(&self.payment_id),
            failure_reason: dup_opt_string(&self.failure_reason),
            created_at: self.created_at,
            updated_at: self.updated_at,
        }
    }

    /// The payment is assigned to the batch whose id reads `batch_id`.
    pub open spec fn is_member_of(self, batch_id: Seq<char>) -> bool {
        self.payment_batch_id is Some && self.payment_batch_id.unwrap()@ == batch_id
    }

    /// The identity and request data of a payment; everything except the
    /// fields that the pipeline's own transitions write.
    pub open spec fn core_kept(self, other: Payment) -> bool {
        &&& self.id@ == other.id@
        &&& self.client_id@ == other.client_id@
        &&& self.account_name@ == other.account_name@
        &&& self.recipient_address@ == other.recipient_address@
        &&& self.amount == other.amount
        &&& self.payment_id == other.payment_id
        &&& self.created_at == other.created_at
    }
}

impl PaymentBatch {
    /// An owned copy, equal to `self`.
    pub fn duplicate(&self) -> (r: PaymentBatch)
        ensures
            r == *self,
    {
        PaymentBatch {
            id: self.id.clone(),
            account_name: self.account_name.clone(),
            status: self.status,
            pr_idempotency_key: self.pr_idempotency_key.clone(),
            unsigned_tx_json: dup_opt_string(&self.unsigned_tx_json),
            signed_tx_json: dup_opt_string(&self.signed_tx_json),
            error_message: dup_opt_string(&self.error_message),
            retry_count: self.retry_count,
            mined_height: self.mined_height,
            mined_header_hash: dup_opt_string(&self.mined_header_hash),
            mined_timestamp: self.mined_timestamp,
            created_at: self.created_at,
            updated_at: self.updated_at,
        }
    }

    /// The identity of a batch; everything except the fields that the
    /// pipeline's own transitions write.
    pub open spec fn core_kept(self, other: PaymentBatch) -> bool {
        &&& self.id@ == other.id@
        &&& self.account_name@ == other.account_name@
        &&& self.pr_idempotency_key@ == other.pr_idempotency_key@
        &&& self.created_at == other.created_at
    }
}

} // verus!
