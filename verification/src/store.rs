//! The store: the single source of truth for payments and batches.
//!
//! Every operation is transactional: it either performs its whole
//! multi-row change or leaves the store untouched and reports an error.
//! Status updates are conditional on the expected source status, so that
//! advancing a batch is also the act of claiming it. The two failure
//! cascades (`update_to_failed` and the terminal branch of
//! `increment_retry_count`) and the confirmation cascade
//! (`update_to_confirmed`) update the batch row and its member payments
//! in one step.

use vstd::prelude::*;
use vstd::pervasive::VecAdditionalExecFns;
use crate::ext::{hex_encode, spec_hex_encode};
use crate::model::{dup_opt_string, Payment, PaymentBatch, PaymentBatchUpdate};
use crate::status::{
    batch_progress, batch_rank, batch_terminal, batch_terminal_exec, payment_progress,
    PaymentBatchStatus, PaymentStatus,
};

verus! {

/// The bound on transient-error retries for one batch.
pub const MAX_RETRIES: i64 = 10;

#[derive(Clone, Copy, Debug, PartialEq, Eq, Structural)]
pub enum StoreError {
    /// The named payment or batch is absent, or it is not in the status
    /// that the requested transition starts from.
    NotFound,
    /// A uniqueness or precondition conflict: an id or client key is
    /// already taken, or a listed payment is not currently receivable.
    Conflict,
}

pub struct Store {
    pub payments: Vec<Payment>,
    pub batches: Vec<PaymentBatch>,
}

pub open spec fn payment_ids_unique(ps: Seq<Payment>) -> bool {
    forall|i: int, j: int| 0 <= i < j < ps.len() ==> ps[i].id@ != ps[j].id@
}

pub open spec fn client_keys_unique(ps: Seq<Payment>) -> bool {
    forall|i: int, j: int|
        0 <= i < j < ps.len() ==> !(ps[i].client_id@ == ps[j].client_id@ && ps[i].account_name@
            == ps[j].account_name@)
}

pub open spec fn batch_ids_unique(bs: Seq<PaymentBatch>) -> bool {
    forall|i: int, j: int| 0 <= i < j < bs.len() ==> bs[i].id@ != bs[j].id@
}

pub open spec fn has_payment(ps: Seq<Payment>, id: Seq<char>) -> bool {
    exists|i: int| 0 <= i < ps.len() && ps[i].id@ == id
}

pub open spec fn has_client_key(ps: Seq<Payment>, client_id: Seq<char>, account_name: Seq<char>) -> bool {
    exists|i: int|
        0 <= i < ps.len() && ps[i].client_id@ == client_id && ps[i].account_name@ == account_name
}

pub open spec fn has_batch(bs: Seq<PaymentBatch>, id: Seq<char>) -> bool {
    exists|j: int| 0 <= j < bs.len() && bs[j].id@ == id
}

/// Row-local well-formedness of one payment.
pub open spec fn payment_ok(p: Payment) -> bool {
    &&& p.amount >= 0
    &&& (p.payment_batch_id is Some <==> p.status != PaymentStatus::Received)
    &&& (p.failure_reason is Some <==> p.status == PaymentStatus::Failed)
}

/// Row-local well-formedness of one batch.
pub open spec fn batch_ok(b: PaymentBatch) -> bool {
    &&& 0 <= b.retry_count < MAX_RETRIES
    &&& (b.error_message is Some <==> b.status == PaymentBatchStatus::Failed)
    &&& (batch_rank(b.status) >= 1 && b.status != PaymentBatchStatus::Failed
        ==> b.unsigned_tx_json is Some)
    &&& (batch_rank(b.status) >= 3 && b.status != PaymentBatchStatus::Failed
        ==> b.signed_tx_json is Some)
    &&& (b.status == PaymentBatchStatus::Confirmed ==> b.mined_height is Some
        && b.mined_header_hash is Some && b.mined_timestamp is Some)
    &&& (b.status != PaymentBatchStatus::Confirmed ==> b.mined_height is None
        && b.mined_header_hash is None && b.mined_timestamp is None)
}

/// What must hold of a payment that belongs to a batch: the accounts
/// agree, and the payment's status follows the batch's. While the batch
/// is in flight its members are `Batched`; a terminal batch has dragged
/// every member to the same terminal status, with the failure reason
/// copied on failure.
pub open spec fn member_status_ok(p: Payment, b: PaymentBatch) -> bool {
    &&& p.account_name@ == b.account_name@
    &&& (!batch_terminal(b.status) ==> p.status == PaymentStatus::Batched)
    &&& (b.status == PaymentBatchStatus::Confirmed ==> p.status == PaymentStatus::Confirmed)
    &&& (b.status == PaymentBatchStatus::Failed ==> p.status == PaymentStatus::Failed
        && p.failure_reason is Some && b.error_message is Some && p.failure_reason.unwrap()@
        == b.error_message.unwrap()@)
}

impl Store {
    /// The store invariant: id and client-key uniqueness, row-local
    /// well-formedness, referential integrity of the batch link, the
    /// member/batch status coupling, and non-terminal batches having at
    /// least one member.
    pub open spec fn wf(self) -> bool {
        &&& payment_ids_unique(self.payments@)
        &&& client_keys_unique(self.payments@)
        &&& batch_ids_unique(self.batches@)
        &&& (forall|i: int| 0 <= i < self.payments@.len() ==> payment_ok(#[trigger] self.payments@[i]))
        &&& (forall|j: int| 0 <= j < self.batches@.len() ==> batch_ok(#[trigger] self.batches@[j]))
        &&& (forall|i: int|
            0 <= i < self.payments@.len() && (#[trigger] self.payments@[i]).payment_batch_id is Some
                ==> has_batch(self.batches@, self.payments@[i].payment_batch_id.unwrap()@))
        &&& (forall|i: int, j: int|
            0 <= i < self.payments@.len() && 0 <= j < self.batches@.len()
                && (#[trigger] self.payments@[i]).is_member_of((#[trigger] self.batches@[j]).id@)
                ==> member_status_ok(self.payments@[i], self.batches@[j]))
        &&& (forall|j: int|
            0 <= j < self.batches@.len() && !batch_terminal((#[trigger] self.batches@[j]).status)
                ==> exists|i: int|
                0 <= i < self.payments@.len() && (#[trigger] self.payments@[i]).is_member_of(
                    self.batches@[j].id@,
                ))
    }

    pub fn new() -> (s: Store)
        ensures
            s.wf(),
            s.payments@ =~= Seq::<Payment>::empty(),
            s.batches@ =~= Seq::<PaymentBatch>::empty(),
    {
        Store { payments: Vec::new(), batches: Vec::new() }
    }

    /// The index of the payment with the given id, if present.
    fn payment_index(&self, id: &String) -> (r: Option<usize>)
        ensures
            match r {
                Some(i) => i < self.payments@.len() && self.payments@[i as int].id@ == id@,
                None => !has_payment(self.payments@, id@),
            },
    {
        let n: usize = self.payments.len();
        for i in 0..n
            invariant
                n == self.payments@.len(),
                forall|k: int| 0 <= k < i ==> (#[trigger] self.payments@[k]).id@ != id@,
        {
            if self.payments[i].id == *id {
                return Some(i);
            }
        }
        None
    }

    /// The index of the payment with the given client idempotency key.
    fn client_key_index(&self, client_id: &String, account_name: &String) -> (r: Option<usize>)
        ensures
            match r {
                Some(i) => i < self.payments@.len() && self.payments@[i as int].client_id@
                    == client_id@ && self.payments@[i as int].account_name@ == account_name@,
                None => !has_client_key(self.payments@, client_id@, account_name@),
            },
    {
        let n: usize = self.payments.len();
        for i in 0..n
            invariant
                n == self.payments@.len(),
                forall|k: int|
                    0 <= k < i ==> !((#[trigger] self.payments@[k]).client_id@ == client_id@
                        && self.payments@[k].account_name@ == account_name@),
        {
            if self.payments[i].client_id == *client_id && self.payments[i].account_name
                == *account_name {
                return Some(i);
            }
        }
        None
    }

    /// The index of the batch with the given id, if present.
    fn batch_index(&self, id: &String) -> (r: Option<usize>)
        ensures
            match r {
                Some(j) => j < self.batches@.len() && self.batches@[j as int].id@ == id@,
                None => !has_batch(self.batches@, id@),
            },
    {
        let n: usize = self.batches.len();
        for j in 0..n
            invariant
                n == self.batches@.len(),
                forall|k: int| 0 <= k < j ==> (#[trigger] self.batches@[k]).id@ != id@,
        {
            if self.batches[j].id == *id {
                return Some(j);
            }
        }
        None
    }

    /// Retrieves a payment by its id.
    pub fn get_payment_by_id(&self, id: &String) -> (r: Option<&Payment>)
        ensures
            match r {
                Some(p) => has_payment(self.payments@, id@) && exists|i: int|
                    0 <= i < self.payments@.len() && self.payments@[i] == *p && p.id@ == id@,
                None => !has_payment(self.payments@, id@),
            },
    {
        match self.payment_index(id) {
            Some(i) => Some(&self.payments[i]),
            None => None,
        }
    }

    /// Retrieves a payment by `(client_id, account_name)`, the client
    /// idempotency key.
    pub fn get_payment_by_client_key(&self, client_id: &String, account_name: &String) -> (r:
        Option<&Payment>)
        ensures
            match r {
                Some(p) => has_client_key(self.payments@, client_id@, account_name@) && exists|
                    i: int,
                |
                    0 <= i < self.payments@.len() && self.payments@[i] == *p && p.client_id@
                        == client_id@ && p.account_name@ == account_name@,
                None => !has_client_key(self.payments@, client_id@, account_name@),
            },
    {
        match self.client_key_index(client_id, account_name) {
            Some(i) => Some(&self.payments[i]),
            None => None,
        }
    }

    /// Finds a batch by its id.
    pub fn find_by_id(&self, batch_id: &String) -> (r: Option<&PaymentBatch>)
        ensures
            match r {
                Some(b) => has_batch(self.batches@, batch_id@) && exists|j: int|
                    0 <= j < self.batches@.len() && self.batches@[j] == *b && b.id@ == batch_id@,
                None => !has_batch(self.batches@, batch_id@),
            },
    {
        match self.batch_index(batch_id) {
            Some(j) => Some(&self.batches[j]),
            None => None,
        }
    }

    /// Creates a new `RECEIVED` payment with the given id. Fails with
    /// `Conflict`, changing nothing, iff the id or the client key is
    /// already taken.
    pub fn create_payment(
        &mut self,
        id: String,
        client_id: &String,
        account_name: &String,
        recipient_address: &String,
        amount: i64,
        payment_id: Option<String>,
        now: u64,
    ) -> (r: Result<Payment, StoreError>)
        requires
            old(self).wf(),
            amount >= 0,
        ensures
            final(self).wf(),
            final(self).batches@ == old(self).batches@,
            r is Ok <==> (!has_payment(old(self).payments@, id@) && !has_client_key(
                old(self).payments@,
                client_id@,
                account_name@,
            )),
            r is Ok ==> ({
                let p = r.unwrap();
                &&& p.id@ == id@
                &&& p.client_id@ == client_id@
                &&& p.account_name@ == account_name@
                &&& p.status == PaymentStatus::Received
                &&& p.payment_batch_id is None
                &&& p.recipient_address@ == recipient_address@
                &&& p.amount == amount
                &&& p.payment_id == payment_id
                &&& p.failure_reason is None
                &&& p.created_at == now
                &&& p.updated_at == now
                &&& final(self).payments@ == old(self).payments@.push(p)
            }),
            r is Err ==> *final(self) == *old(self) && r == Err::<Payment, StoreError>(
                StoreError::Conflict,
            ),
    {
        if self.payment_index(&id).is_some() {
            return Err(StoreError::Conflict);
        }
        if self.client_key_index(client_id, account_name).is_some() {
            return Err(StoreError::Conflict);
        }
        let p = Payment {
            id,
            client_id: client_id.clone(),
            account_name: account_name.clone(),
            status: PaymentStatus::Received,
            payment_batch_id: None,
            recipient_address: recipient_address.clone(),
            amount,
            payment_id,
            failure_reason: None,
            created_at: now,
            updated_at: now,
        };
        let ret = p.duplicate();
        let ghost ps0 = self.payments@;
        let ghost pnew = p;
        self.payments.push(p);
        proof {
            let ps = self.payments@;
            assert(ps =~= ps0.push(pnew));
            assert forall|i: int, j: int| 0 <= i < j < ps.len() implies ps[i].id@ != ps[j].id@ by {
                if j == ps.len() - 1 {
                    assert(ps[i] == ps0[i]);
                }
            };
            assert forall|i: int, j: int|
                0 <= i < j < ps.len() implies !(ps[i].client_id@ == ps[j].client_id@
                && ps[i].account_name@ == ps[j].account_name@) by {
                if j == ps.len() - 1 {
                    assert(ps[i] == ps0[i]);
                }
            };
            assert forall|j: int|
                0 <= j < self.batches@.len() && !batch_terminal(
                    (#[trigger] self.batches@[j]).status,
                ) implies exists|i: int|
                0 <= i < ps.len() && (#[trigger] ps[i]).is_member_of(self.batches@[j].id@) by {
                let i0 = choose|i: int|
                    0 <= i < ps0.len() && (#[trigger] ps0[i]).is_member_of(self.batches@[j].id@);
                assert(ps[i0].is_member_of(self.batches@[j].id@));
            };
        }
        Ok(ret)
    }
}

/// The batch row that results from applying a partial update: set fields
/// overwrite, unset fields persist, `updated_at` is always touched, and
/// the retry counter is optionally incremented.
pub open spec fn batch_updated(
    b: PaymentBatch,
    upd: PaymentBatchUpdate,
    increment_retry: bool,
    now: u64,
) -> PaymentBatch {
    PaymentBatch {
        id: b.id,
        account_name: b.account_name,
        status: if upd.status is Some {
            upd.status.unwrap()
        } else {
            b.status
        },
        pr_idempotency_key: b.pr_idempotency_key,
        unsigned_tx_json: if upd.unsigned_tx_json is Some {
            upd.unsigned_tx_json
        } else {
            b.unsigned_tx_json
        },
        signed_tx_json: if upd.signed_tx_json is Some {
            upd.signed_tx_json
        } else {
            b.signed_tx_json
        },
        error_message: if upd.error_message is Some {
            upd.error_message
        } else {
            b.error_message
        },
        retry_count: if increment_retry {
            (b.retry_count + 1) as i64
        } else {
            b.retry_count
        },
        mined_height: if upd.mined_height is Some {
            upd.mined_height
        } else {
            b.mined_height
        },
        mined_header_hash: if upd.mined_header_hash is Some {
            upd.mined_header_hash
        } else {
            b.mined_header_hash
        },
        mined_timestamp: if upd.mined_timestamp is Some {
            upd.mined_timestamp
        } else {
            b.mined_timestamp
        },
        created_at: b.created_at,
        updated_at: now,
    }
}

/// Exactly one batch, identified by `id` and found in status `expected`,
/// was advanced by the given partial update; all other rows persist.
pub open spec fn advanced_one(
    pre: Seq<PaymentBatch>,
    post: Seq<PaymentBatch>,
    id: Seq<char>,
    expected: PaymentBatchStatus,
    upd: PaymentBatchUpdate,
    increment_retry: bool,
    now: u64,
) -> bool {
    exists|j: int|
        0 <= j < pre.len() && (#[trigger] pre[j]).id@ == id && pre[j].status == expected && post
            == pre.update(j, batch_updated(pre[j], upd, increment_retry, now))
}

/// Some batch row carries `id` and stands in status `expected`.
pub open spec fn has_batch_in(bs: Seq<PaymentBatch>, id: Seq<char>, expected: PaymentBatchStatus) -> bool {
    exists|j: int| 0 <= j < bs.len() && (#[trigger] bs[j]).id@ == id && bs[j].status == expected
}

/// Some batch row carries `id` and is not yet terminal.
pub open spec fn has_live_batch(bs: Seq<PaymentBatch>, id: Seq<char>) -> bool {
    exists|j: int| 0 <= j < bs.len() && (#[trigger] bs[j]).id@ == id && !batch_terminal(bs[j].status)
}

/// Every pre-existing payment keeps its identity and its status only
/// moves along the payment state machine.
pub open spec fn payments_progress(pre: Seq<Payment>, post: Seq<Payment>) -> bool {
    &&& post.len() >= pre.len()
    &&& forall|i: int|
        0 <= i < pre.len() ==> payment_progress((#[trigger] pre[i]).status, post[i].status)
            && post[i].id@ == pre[i].id@
}

/// Every pre-existing batch keeps its identity and its status only moves
/// along the batch state machine.
pub open spec fn batches_progress(pre: Seq<PaymentBatch>, post: Seq<PaymentBatch>) -> bool {
    &&& post.len() >= pre.len()
    &&& forall|j: int|
        0 <= j < pre.len() ==> batch_progress((#[trigger] pre[j]).status, post[j].status)
            && post[j].id@ == pre[j].id@
}

/// `q` is `p` dragged down by its batch's failure: same record, now
/// `Failed` with the batch's reason copied.
pub open spec fn payment_failed_to(p: Payment, q: Payment, reason: Seq<char>, now: u64) -> bool {
    &&& q.core_kept(p)
    &&& q.payment_batch_id == p.payment_batch_id
    &&& q.status == PaymentStatus::Failed
    &&& q.failure_reason is Some
    &&& q.failure_reason.unwrap()@ == reason
    &&& q.updated_at == now
}

/// `q` is `p` finalised by its batch's confirmation.
pub open spec fn payment_confirmed_to(p: Payment, q: Payment, now: u64) -> bool {
    &&& q.core_kept(p)
    &&& q.payment_batch_id == p.payment_batch_id
    &&& q.status == PaymentStatus::Confirmed
    &&& q.failure_reason is None
    &&& q.updated_at == now
}

/// All members of the batch `batch_id` went `Failed` with `reason`;
/// every other payment persists unchanged.
pub open spec fn members_failed(
    pre: Seq<Payment>,
    post: Seq<Payment>,
    batch_id: Seq<char>,
    reason: Seq<char>,
    now: u64,
) -> bool {
    &&& post.len() == pre.len()
    &&& forall|i: int|
        0 <= i < pre.len() && (#[trigger] pre[i]).is_member_of(batch_id) ==> payment_failed_to(
            pre[i],
            post[i],
            reason,
            now,
        )
    &&& forall|i: int|
        0 <= i < pre.len() && !(#[trigger] pre[i]).is_member_of(batch_id) ==> post[i] == pre[i]
}

/// All members of the batch `batch_id` went `Confirmed`; every other
/// payment persists unchanged.
pub open spec fn members_confirmed(
    pre: Seq<Payment>,
    post: Seq<Payment>,
    batch_id: Seq<char>,
    now: u64,
) -> bool {
    &&& post.len() == pre.len()
    &&& forall|i: int|
        0 <= i < pre.len() && (#[trigger] pre[i]).is_member_of(batch_id) ==> payment_confirmed_to(
            pre[i],
            post[i],
            now,
        )
    &&& forall|i: int|
        0 <= i < pre.len() && !(#[trigger] pre[i]).is_member_of(batch_id) ==> post[i] == pre[i]
}

/// The batch at `j` went `Failed` with `reason` and the failure cascaded
/// to exactly its members, in one step.
pub open spec fn batch_failed_step(
    pre: Store,
    post: Store,
    j: int,
    reason: Seq<char>,
    now: u64,
) -> bool {
    &&& post.batches@.len() == pre.batches@.len()
    &&& (forall|k: int|
        0 <= k < pre.batches@.len() && k != j ==> post.batches@[k] == (#[trigger] pre.batches@[k]))
    &&& post.batches@[j].core_kept(pre.batches@[j])
    &&& post.batches@[j].status == PaymentBatchStatus::Failed
    &&& post.batches@[j].error_message is Some
    &&& post.batches@[j].error_message.unwrap()@ == reason
    &&& post.batches@[j].retry_count == pre.batches@[j].retry_count
    &&& post.batches@[j].unsigned_tx_json == pre.batches@[j].unsigned_tx_json
    &&& post.batches@[j].signed_tx_json == pre.batches@[j].signed_tx_json
    &&& post.batches@[j].mined_height == pre.batches@[j].mined_height
    &&& post.batches@[j].mined_header_hash == pre.batches@[j].mined_header_hash
    &&& post.batches@[j].mined_timestamp == pre.batches@[j].mined_timestamp
    &&& post.batches@[j].updated_at == now
    &&& members_failed(pre.payments@, post.payments@, pre.batches@[j].id@, reason, now)
}

impl Store {
    /// Overwrites the batch row at `j` with the partial update applied.
    fn apply_batch_update(
        &mut self,
        j: usize,
        upd: PaymentBatchUpdate,
        increment_retry: bool,
        now: u64,
    )
        requires
            j < old(self).batches@.len(),
            increment_retry ==> old(self).batches@[j as int].retry_count < MAX_RETRIES,
            old(self).batches@[j as int].retry_count >= 0,
        ensures
            final(self).payments@ == old(self).payments@,
            final(self).batches@ == old(self).batches@.update(
                j as int,
                batch_updated(old(self).batches@[j as int], upd, increment_retry, now),
            ),
    {
        let b = &self.batches[j];
        let nb = PaymentBatch {
            id: b.id.clone(),
            account_name: b.account_name.clone(),
            status: match upd.status {
                Some(s) => s,
                None => b.status,
            },
            pr_idempotency_key: b.pr_idempotency_key.clone(),
            unsigned_tx_json: match upd.unsigned_tx_json {
                Some(s) => Some(s),
                None => dup_opt_string(&b.unsigned_tx_json),
            },
            signed_tx_json: match upd.signed_tx_json {
                Some(s) => Some(s),
                None => dup_opt_string(&b.signed_tx_json),
            },
            error_message: match upd.error_message {
                Some(s) => Some(s),
                None => dup_opt_string(&b.error_message),
            },
            retry_count: if increment_retry {
                b.retry_count + 1
            } else {
                b.retry_count
            },
            mined_height: match upd.mined_height {
                Some(h) => Some(h),
                None => b.mined_height,
            },
            mined_header_hash: match upd.mined_header_hash {
                Some(s) => Some(s),
                None => dup_opt_string(&b.mined_header_hash),
            },
            mined_timestamp: match upd.mined_timestamp {
                Some(t) => Some(t),
                None => b.mined_timestamp,
            },
            created_at: b.created_at,
            updated_at: now,
        };
        self.batches.set(j, nb);
    }
}

/// A store stays well-formed when a single batch row changes, its
/// identity and account persist, the row itself stays well-formed, its
/// members' coupling holds against the new row, and the change does not
/// revive a terminal batch.
proof fn lemma_wf_batch_only_update(pre: Store, post: Store, j: int)
    requires
        pre.wf(),
        post.payments@ == pre.payments@,
        post.batches@.len() == pre.batches@.len(),
        0 <= j < pre.batches@.len(),
        forall|k: int| 0 <= k < pre.batches@.len() && k != j ==> post.batches@[k] == (#[trigger] pre.batches@[k]),
        post.batches@[j].id@ == pre.batches@[j].id@,
        post.batches@[j].account_name@ == pre.batches@[j].account_name@,
        batch_ok(post.batches@[j]),
        forall|i: int|
            0 <= i < pre.payments@.len() && (#[trigger] pre.payments@[i]).is_member_of(
                pre.batches@[j].id@,
            ) ==> member_status_ok(pre.payments@[i], post.batches@[j]),
        !batch_terminal(post.batches@[j].status) ==> !batch_terminal(pre.batches@[j].status),
    ensures
        post.wf(),
{
    assert forall|k: int| 0 <= k < post.batches@.len() implies batch_ok(
        #[trigger] post.batches@[k],
    ) by {
        if k != j {
            assert(post.batches@[k] == pre.batches@[k]);
        }
    };
    assert forall|i: int, k: int|
        0 <= i < post.payments@.len() && 0 <= k < post.batches@.len()
            && (#[trigger] post.payments@[i]).is_member_of(
            (#[trigger] post.batches@[k]).id@,
        ) implies member_status_ok(post.payments@[i], post.batches@[k]) by {
        if k != j {
            assert(post.batches@[k] == pre.batches@[k]);
        }
    };
    assert forall|i: int|
        0 <= i < post.payments@.len() && (#[trigger] post.payments@[i]).payment_batch_id
            is Some implies has_batch(post.batches@, post.payments@[i].payment_batch_id.unwrap()@) by {
        let id = post.payments@[i].payment_batch_id.unwrap()@;
        let k = choose|k: int| 0 <= k < pre.batches@.len() && (#[trigger] pre.batches@[k]).id@ == id;
        assert(post.batches@[k].id@ == id);
    };
    assert forall|k: int|
        0 <= k < post.batches@.len() && !batch_terminal(
            (#[trigger] post.batches@[k]).status,
        ) implies exists|i: int|
        0 <= i < post.payments@.len() && (#[trigger] post.payments@[i]).is_member_of(
            post.batches@[k].id@,
        ) by {
        if k != j {
            assert(post.batches@[k] == pre.batches@[k]);
        } else {
            assert(!batch_terminal(pre.batches@[j].status));
        }
        let i0 = choose|i: int|
            0 <= i < pre.payments@.len() && (#[trigger] pre.payments@[i]).is_member_of(
                pre.batches@[k].id@,
            );
        assert(post.payments@[i0].is_member_of(post.batches@[k].id@));
    };
    assert forall|i: int, k: int| 0 <= i < k < post.batches@.len() implies post.batches@[i].id@
        != post.batches@[k].id@ by {
        if i != j {
            assert(post.batches@[i] == pre.batches@[i]);
        }
        if k != j {
            assert(post.batches@[k] == pre.batches@[k]);
        }
    };
}

impl Store {
    /// The shared conditional-transition core: finds the batch, checks
    /// that it stands in `expected`, and applies a forward, non-terminal
    /// partial update. `Ok` iff the batch exists in `expected`.
    fn advance_batch(
        &mut self,
        batch_id: &String,
        expected: PaymentBatchStatus,
        upd: PaymentBatchUpdate,
        now: u64,
    ) -> (r: Result<(), StoreError>)
        requires
            old(self).wf(),
            !batch_terminal(expected),
            upd.status is Some,
            !batch_terminal(upd.status.unwrap()),
            batch_rank(expected) < batch_rank(upd.status.unwrap()),
            upd.error_message is None,
            upd.mined_height is None,
            upd.mined_header_hash is None,
            upd.mined_timestamp is None,
            batch_rank(upd.status.unwrap()) >= 1 ==> upd.unsigned_tx_json is Some || batch_rank(
                expected,
            ) >= 1,
            batch_rank(upd.status.unwrap()) >= 3 ==> upd.signed_tx_json is Some || batch_rank(
                expected,
            ) >= 3,
        ensures
            final(self).wf(),
            final(self).payments@ == old(self).payments@,
            r is Ok <==> has_batch_in(old(self).batches@, batch_id@, expected),
            r is Ok ==> advanced_one(
                old(self).batches@,
                final(self).batches@,
                batch_id@,
                expected,
                upd,
                false,
                now,
            ),
            r is Err ==> *final(self) == *old(self),
            r == Err::<(), StoreError>(StoreError::NotFound) <==> !has_batch(
                old(self).batches@,
                batch_id@,
            ),
            batches_progress(old(self).batches@, final(self).batches@),
    {
        let j = match self.batch_index(batch_id) {
            None => {
                return Err(StoreError::NotFound);
            },
            Some(j) => j,
        };
        if !(self.batches[j].status == expected) {
            assert(!has_batch_in(self.batches@, batch_id@, expected)) by {
                assert forall|k: int|
                    0 <= k < self.batches@.len() && (#[trigger] self.batches@[k]).id@
                        == batch_id@ implies self.batches@[k].status != expected by {
                    if k != j as int {
                        assert(false);
                    }
                };
            }
            return Err(StoreError::Conflict);
        }
        let ghost pre = *self;
        self.apply_batch_update(j, upd, false, now);
        proof {
            let nb = self.batches@[j as int];
            assert forall|i: int|
                0 <= i < pre.payments@.len() && (#[trigger] pre.payments@[i]).is_member_of(
                    pre.batches@[j as int].id@,
                ) implies member_status_ok(pre.payments@[i], nb) by {
                assert(member_status_ok(pre.payments@[i], pre.batches@[j as int]));
            };
            lemma_wf_batch_only_update(pre, *self, j as int);
        }
        Ok(())
    }

    /// Claims a `PENDING_BATCHING` batch for which the external service
    /// returned an unsigned transaction: records the body and advances
    /// to `AWAITING_SIGNATURE`.
    pub fn update_to_awaiting_signature(
        &mut self,
        batch_id: &String,
        unsigned_tx_json: String,
        now: u64,
    ) -> (r: Result<(), StoreError>)
        requires
            old(self).wf(),
        ensures
            final(self).wf(),
            final(self).payments@ == old(self).payments@,
            r is Ok <==> has_batch_in(
                old(self).batches@,
                batch_id@,
                PaymentBatchStatus::PendingBatching,
            ),
            r is Ok ==> advanced_one(
                old(self).batches@,
                final(self).batches@,
                batch_id@,
                PaymentBatchStatus::PendingBatching,
                (PaymentBatchUpdate {
                    status: Some(PaymentBatchStatus::AwaitingSignature),
                    unsigned_tx_json: Some(unsigned_tx_json),
                    signed_tx_json: None,
                    error_message: None,
                    mined_height: None,
                    mined_header_hash: None,
                    mined_timestamp: None,
                }),
                false,
                now,
            ),
            r is Err ==> *final(self) == *old(self),
            r == Err::<(), StoreError>(StoreError::NotFound) <==> !has_batch(
                old(self).batches@,
                batch_id@,
            ),
            batches_progress(old(self).batches@, final(self).batches@),
    {
        let upd = PaymentBatchUpdate {
            status: Some(PaymentBatchStatus::AwaitingSignature),
            unsigned_tx_json: Some(unsigned_tx_json),
            signed_tx_json: None,
            error_message: None,
            mined_height: None,
            mined_header_hash: None,
            mined_timestamp: None,
        };
        self.advance_batch(batch_id, PaymentBatchStatus::PendingBatching, upd, now)
    }

    /// Claims an `AWAITING_SIGNATURE` batch for the signer: the claim
    /// excludes other signer instances.
    pub fn update_to_signing_in_progress(&mut self, batch_id: &String, now: u64) -> (r: Result<
        (),
        StoreError,
    >)
        requires
            old(self).wf(),
        ensures
            final(self).wf(),
            final(self).payments@ == old(self).payments@,
            r is Ok <==> has_batch_in(
                old(self).batches@,
                batch_id@,
                PaymentBatchStatus::AwaitingSignature,
            ),
            r is Ok ==> advanced_one(
                old(self).batches@,
                final(self).batches@,
                batch_id@,
                PaymentBatchStatus::AwaitingSignature,
                (PaymentBatchUpdate {
                    status: Some(PaymentBatchStatus::SigningInProgress),
                    unsigned_tx_json: None,
                    signed_tx_json: None,
                    error_message: None,
                    mined_height: None,
                    mined_header_hash: None,
                    mined_timestamp: None,
                }),
                false,
                now,
            ),
            r is Err ==> *final(self) == *old(self),
            r == Err::<(), StoreError>(StoreError::NotFound) <==> !has_batch(
                old(self).batches@,
                batch_id@,
            ),
            batches_progress(old(self).batches@, final(self).batches@),
    {
        let upd = PaymentBatchUpdate {
            status: Some(PaymentBatchStatus::SigningInProgress),
            unsigned_tx_json: None,
            signed_tx_json: None,
            error_message: None,
            mined_height: None,
            mined_header_hash: None,
            mined_timestamp: None,
        };
        self.advance_batch(batch_id, PaymentBatchStatus::AwaitingSignature, upd, now)
    }

    /// Records the signed transaction produced by the wallet and
    /// advances a `SIGNING_IN_PROGRESS` batch to `AWAITING_BROADCAST`.
    pub fn update_to_awaiting_broadcast(
        &mut self,
        batch_id: &String,
        signed_tx_json: String,
        now: u64,
    ) -> (r: Result<(), StoreError>)
        requires
            old(self).wf(),
        ensures
            final(self).wf(),
            final(self).payments@ == old(self).payments@,
            r is Ok <==> has_batch_in(
                old(self).batches@,
                batch_id@,
                PaymentBatchStatus::SigningInProgress,
            ),
            r is Ok ==> advanced_one(
                old(self).batches@,
                final(self).batches@,
                batch_id@,
                PaymentBatchStatus::SigningInProgress,
                (PaymentBatchUpdate {
                    status: Some(PaymentBatchStatus::AwaitingBroadcast),
                    unsigned_tx_json: None,
                    signed_tx_json: Some(signed_tx_json),
                    error_message: None,
                    mined_height: None,
                    mined_header_hash: None,
                    mined_timestamp: None,
                }),
                false,
                now,
            ),
            r is Err ==> *final(self) == *old(self),
            r == Err::<(), StoreError>(StoreError::NotFound) <==> !has_batch(
                old(self).batches@,
                batch_id@,
            ),
            batches_progress(old(self).batches@, final(self).batches@),
    {
        let upd = PaymentBatchUpdate {
            status: Some(PaymentBatchStatus::AwaitingBroadcast),
            unsigned_tx_json: None,
            signed_tx_json: Some(signed_tx_json),
            error_message: None,
            mined_height: None,
            mined_header_hash: None,
            mined_timestamp: None,
        };
        self.advance_batch(batch_id, PaymentBatchStatus::SigningInProgress, upd, now)
    }

    /// Claims an `AWAITING_BROADCAST` batch for the broadcaster.
    pub fn update_to_broadcasting(&mut self, batch_id: &String, now: u64) -> (r: Result<
        (),
        StoreError,
    >)
        requires
            old(self).wf(),
        ensures
            final(self).wf(),
            final(self).payments@ == old(self).payments@,
            r is Ok <==> has_batch_in(
                old(self).batches@,
                batch_id@,
                PaymentBatchStatus::AwaitingBroadcast,
            ),
            r is Ok ==> advanced_one(
                old(self).batches@,
                final(self).batches@,
                batch_id@,
                PaymentBatchStatus::AwaitingBroadcast,
                (PaymentBatchUpdate {
                    status: Some(PaymentBatchStatus::Broadcasting),
                    unsigned_tx_json: None,
                    signed_tx_json: None,
                    error_message: None,
                    mined_height: None,
                    mined_header_hash: None,
                    mined_timestamp: None,
                }),
                false,
                now,
            ),
            r is Err ==> *final(self) == *old(self),
            r == Err::<(), StoreError>(StoreError::NotFound) <==> !has_batch(
                old(self).batches@,
                batch_id@,
            ),
            batches_progress(old(self).batches@, final(self).batches@),
    {
        let upd = PaymentBatchUpdate {
            status: Some(PaymentBatchStatus::Broadcasting),
            unsigned_tx_json: None,
            signed_tx_json: None,
            error_message: None,
            mined_height: None,
            mined_header_hash: None,
            mined_timestamp: None,
        };
        self.advance_batch(batch_id, PaymentBatchStatus::AwaitingBroadcast, upd, now)
    }

    /// Marks a `BROADCASTING` batch as accepted by the base node and
    /// advances it to `AWAITING_CONFIRMATION`.
    pub fn update_to_awaiting_confirmation(&mut self, batch_id: &String, now: u64) -> (r: Result<
        (),
        StoreError,
    >)
        requires
            old(self).wf(),
        ensures
            final(self).wf(),
            final(self).payments@ == old(self).payments@,
            r is Ok <==> has_batch_in(
                old(self).batches@,
                batch_id@,
                PaymentBatchStatus::Broadcasting,
            ),
            r is Ok ==> advanced_one(
                old(self).batches@,
                final(self).batches@,
                batch_id@,
                PaymentBatchStatus::Broadcasting,
                (PaymentBatchUpdate {
                    status: Some(PaymentBatchStatus::AwaitingConfirmation),
                    unsigned_tx_json: None,
                    signed_tx_json: None,
                    error_message: None,
                    mined_height: None,
                    mined_header_hash: None,
                    mined_timestamp: None,
                }),
                false,
                now,
            ),
            r is Err ==> *final(self) == *old(self),
            r == Err::<(), StoreError>(StoreError::NotFound) <==> !has_batch(
                old(self).batches@,
                batch_id@,
            ),
            batches_progress(old(self).batches@, final(self).batches@),
    {
        let upd = PaymentBatchUpdate {
            status: Some(PaymentBatchStatus::AwaitingConfirmation),
            unsigned_tx_json: None,
            signed_tx_json: None,
            error_message: None,
            mined_height: None,
            mined_header_hash: None,
            mined_timestamp: None,
        };
        self.advance_batch(batch_id, PaymentBatchStatus::Broadcasting, upd, now)
    }
}

/// The batch at `j` went `CONFIRMED` with the given mining evidence and
/// the confirmation cascaded to exactly its members, in one step.
pub open spec fn batch_confirmed_step(
    pre: Store,
    post: Store,
    j: int,
    mined_height: u64,
    mined_header_hash_hex: Seq<char>,
    mined_timestamp: u64,
    now: u64,
) -> bool {
    &&& post.batches@.len() == pre.batches@.len()
    &&& (forall|k: int|
        0 <= k < pre.batches@.len() && k != j ==> post.batches@[k] == (#[trigger] pre.batches@[k]))
    &&& post.batches@[j].core_kept(pre.batches@[j])
    &&& post.batches@[j].status == PaymentBatchStatus::Confirmed
    &&& post.batches@[j].error_message is None
    &&& post.batches@[j].retry_count == pre.batches@[j].retry_count
    &&& post.batches@[j].unsigned_tx_json == pre.batches@[j].unsigned_tx_json
    &&& post.batches@[j].signed_tx_json == pre.batches@[j].signed_tx_json
    &&& post.batches@[j].mined_height == Some(mined_height)
    &&& post.batches@[j].mined_header_hash is Some
    &&& post.batches@[j].mined_header_hash.unwrap()@ == mined_header_hash_hex
    &&& post.batches@[j].mined_timestamp == Some(mined_timestamp)
    &&& post.batches@[j].updated_at == now
    &&& members_confirmed(pre.payments@, post.payments@, pre.batches@[j].id@, now)
}

/// Failing one live batch with its member cascade keeps the store
/// well-formed.
proof fn lemma_wf_after_fail(pre: Store, post: Store, j: int, reason: Seq<char>, now: u64)
    requires
        pre.wf(),
        0 <= j < pre.batches@.len(),
        !batch_terminal(pre.batches@[j].status),
        batch_failed_step(pre, post, j, reason, now),
    ensures
        post.wf(),
{
    let bid = pre.batches@[j].id@;
    assert forall|i: int| 0 <= i < post.payments@.len() implies (#[trigger] post.payments@[i]).id@
        == pre.payments@[i].id@ && post.payments@[i].client_id@ == pre.payments@[i].client_id@
        && post.payments@[i].account_name@ == pre.payments@[i].account_name@
        && post.payments@[i].payment_batch_id == pre.payments@[i].payment_batch_id by {
        if pre.payments@[i].is_member_of(bid) {
            assert(payment_failed_to(pre.payments@[i], post.payments@[i], reason, now));
        }
    };
    assert forall|i: int| 0 <= i < post.payments@.len() implies payment_ok(
        #[trigger] post.payments@[i],
    ) by {
        assert(payment_ok(pre.payments@[i]));
        if pre.payments@[i].is_member_of(bid) {
            assert(payment_failed_to(pre.payments@[i], post.payments@[i], reason, now));
        }
    };
    assert forall|k: int| 0 <= k < post.batches@.len() implies batch_ok(
        #[trigger] post.batches@[k],
    ) by {
        assert(batch_ok(pre.batches@[k]));
    };
    assert forall|i: int|
        0 <= i < post.payments@.len() && (#[trigger] post.payments@[i]).payment_batch_id
            is Some implies has_batch(post.batches@, post.payments@[i].payment_batch_id.unwrap()@) by {
        let id = post.payments@[i].payment_batch_id.unwrap()@;
        let k = choose|k: int| 0 <= k < pre.batches@.len() && (#[trigger] pre.batches@[k]).id@ == id;
        assert(post.batches@[k].id@ == id);
    };
    assert forall|i: int, k: int|
        0 <= i < post.payments@.len() && 0 <= k < post.batches@.len()
            && (#[trigger] post.payments@[i]).is_member_of(
            (#[trigger] post.batches@[k]).id@,
        ) implies member_status_ok(post.payments@[i], post.batches@[k]) by {
        assert(pre.payments@[i].is_member_of(pre.batches@[k].id@));
        assert(member_status_ok(pre.payments@[i], pre.batches@[k]));
        if k == j {
            assert(payment_failed_to(pre.payments@[i], post.payments@[i], reason, now));
        } else {
            assert(pre.batches@[k].id@ != bid);
            assert(!pre.payments@[i].is_member_of(bid));
            assert(post.payments@[i] == pre.payments@[i]);
        }
    };
    assert forall|k: int|
        0 <= k < post.batches@.len() && !batch_terminal(
            (#[trigger] post.batches@[k]).status,
        ) implies exists|i: int|
        0 <= i < post.payments@.len() && (#[trigger] post.payments@[i]).is_member_of(
            post.batches@[k].id@,
        ) by {
        let i0 = choose|i: int|
            0 <= i < pre.payments@.len() && (#[trigger] pre.payments@[i]).is_member_of(
                pre.batches@[k].id@,
            );
        assert(post.payments@[i0].is_member_of(post.batches@[k].id@));
    };
    assert forall|i: int, k: int| 0 <= i < k < post.batches@.len() implies post.batches@[i].id@
        != post.batches@[k].id@ by {
        assert(pre.batches@[i].id@ != pre.batches@[k].id@);
    };
}

/// Confirming one `AWAITING_CONFIRMATION` batch with its member cascade
/// keeps the store well-formed.
proof fn lemma_wf_after_confirm(
    pre: Store,
    post: Store,
    j: int,
    mined_height: u64,
    mined_header_hash_hex: Seq<char>,
    mined_timestamp: u64,
    now: u64,
)
    requires
        pre.wf(),
        0 <= j < pre.batches@.len(),
        pre.batches@[j].status == PaymentBatchStatus::AwaitingConfirmation,
        batch_confirmed_step(pre, post, j, mined_height, mined_header_hash_hex, mined_timestamp, now),
    ensures
        post.wf(),
{
    let bid = pre.batches@[j].id@;
    assert forall|i: int| 0 <= i < post.payments@.len() implies (#[trigger] post.payments@[i]).id@
        == pre.payments@[i].id@ && post.payments@[i].client_id@ == pre.payments@[i].client_id@
        && post.payments@[i].account_name@ == pre.payments@[i].account_name@
        && post.payments@[i].payment_batch_id == pre.payments@[i].payment_batch_id by {
        if pre.payments@[i].is_member_of(bid) {
            assert(payment_confirmed_to(pre.payments@[i], post.payments@[i], now));
        }
    };
    assert forall|i: int| 0 <= i < post.payments@.len() implies payment_ok(
        #[trigger] post.payments@[i],
    ) by {
        assert(payment_ok(pre.payments@[i]));
        if pre.payments@[i].is_member_of(bid) {
            assert(payment_confirmed_to(pre.payments@[i], post.payments@[i], now));
        }
    };
    assert forall|k: int| 0 <= k < post.batches@.len() implies batch_ok(
        #[trigger] post.batches@[k],
    ) by {
        assert(batch_ok(pre.batches@[k]));
    };
    assert forall|i: int|
        0 <= i < post.payments@.len() && (#[trigger] post.payments@[i]).payment_batch_id
            is Some implies has_batch(post.batches@, post.payments@[i].payment_batch_id.unwrap()@) by {
        let id = post.payments@[i].payment_batch_id.unwrap()@;
        let k = choose|k: int| 0 <= k < pre.batches@.len() && (#[trigger] pre.batches@[k]).id@ == id;
        assert(post.batches@[k].id@ == id);
    };
    assert forall|i: int, k: int|
        0 <= i < post.payments@.len() && 0 <= k < post.batches@.len()
            && (#[trigger] post.payments@[i]).is_member_of(
            (#[trigger] post.batches@[k]).id@,
        ) implies member_status_ok(post.payments@[i], post.batches@[k]) by {
        assert(pre.payments@[i].is_member_of(pre.batches@[k].id@));
        assert(member_status_ok(pre.payments@[i], pre.batches@[k]));
        if k == j {
            assert(payment_confirmed_to(pre.payments@[i], post.payments@[i], now));
        } else {
            assert(pre.batches@[k].id@ != bid);
            assert(!pre.payments@[i].is_member_of(bid));
            assert(post.payments@[i] == pre.payments@[i]);
        }
    };
    assert forall|k: int|
        0 <= k < post.batches@.len() && !batch_terminal(
            (#[trigger] post.batches@[k]).status,
        ) implies exists|i: int|
        0 <= i < post.payments@.len() && (#[trigger] post.payments@[i]).is_member_of(
            post.batches@[k].id@,
        ) by {
        let i0 = choose|i: int|
            0 <= i < pre.payments@.len() && (#[trigger] pre.payments@[i]).is_member_of(
                pre.batches@[k].id@,
            );
        assert(post.payments@[i0].is_member_of(post.batches@[k].id@));
    };
    assert forall|i: int, k: int| 0 <= i < k < post.batches@.len() implies post.batches@[i].id@
        != post.batches@[k].id@ by {
        assert(pre.batches@[i].id@ != pre.batches@[k].id@);
    };
}

impl Store {
    /// Sets every member of `batch_id` to `FAILED` with `reason`.
    fn cascade_members_failed(&mut self, batch_id: &String, reason: &String, now: u64)
        ensures
            final(self).batches@ == old(self).batches@,
            members_failed(old(self).payments@, final(self).payments@, batch_id@, reason@, now),
    {
        let n: usize = self.payments.len();
        for i in 0..n
            invariant
                n == self.payments@.len(),
                self.batches@ == old(self).batches@,
                forall|k: int|
                    0 <= k < i && (#[trigger] old(self).payments@[k]).is_member_of(batch_id@)
                        ==> payment_failed_to(
                        old(self).payments@[k],
                        self.payments@[k],
                        reason@,
                        now,
                    ),
                forall|k: int|
                    0 <= k < n && !(i <= k < n) && !(#[trigger] old(
                        self,
                    ).payments@[k]).is_member_of(batch_id@) ==> self.payments@[k] == old(
                        self,
                    ).payments@[k],
                forall|k: int| i <= k < n ==> #[trigger] self.payments@[k] == old(self).payments@[k],
        {
            let is_mem = match &self.payments[i].payment_batch_id {
                Some(b) => *b == *batch_id,
                None => false,
            };
            if is_mem {
                let mut q = self.payments[i].duplicate();
                q.status = PaymentStatus::Failed;
                q.failure_reason = Some(reason.clone());
                q.updated_at = now;
                self.payments.set(i, q);
            }
        }
    }

    /// Sets every member of `batch_id` to `CONFIRMED`.
    fn cascade_members_confirmed(&mut self, batch_id: &String, now: u64)
        ensures
            final(self).batches@ == old(self).batches@,
            members_confirmed(old(self).payments@, final(self).payments@, batch_id@, now),
    {
        let n: usize = self.payments.len();
        for i in 0..n
            invariant
                n == self.payments@.len(),
                self.batches@ == old(self).batches@,
                forall|k: int|
                    0 <= k < i && (#[trigger] old(self).payments@[k]).is_member_of(batch_id@)
                        ==> payment_confirmed_to(old(self).payments@[k], self.payments@[k], now),
                forall|k: int|
                    0 <= k < n && !(i <= k < n) && !(#[trigger] old(
                        self,
                    ).payments@[k]).is_member_of(batch_id@) ==> self.payments@[k] == old(
                        self,
                    ).payments@[k],
                forall|k: int| i <= k < n ==> #[trigger] self.payments@[k] == old(self).payments@[k],
        {
            let is_mem = match &self.payments[i].payment_batch_id {
                Some(b) => *b == *batch_id,
                None => false,
            };
            if is_mem {
                let mut q = self.payments[i].duplicate();
                q.status = PaymentStatus::Confirmed;
                q.failure_reason = None;
                q.updated_at = now;
                self.payments.set(i, q);
            }
        }
    }

    /// The failure core: fails the live batch at `j` and cascades to its
    /// members, in one step.
    fn fail_batch_at(&mut self, j: usize, error_message: &String, now: u64)
        requires
            old(self).wf(),
            j < old(self).batches@.len(),
            !batch_terminal(old(self).batches@[j as int].status),
        ensures
            final(self).wf(),
            batch_failed_step(*old(self), *final(self), j as int, error_message@, now),
            payments_progress(old(self).payments@, final(self).payments@),
            batches_progress(old(self).batches@, final(self).batches@),
    {
        let bid = self.batches[j].id.clone();
        let upd = PaymentBatchUpdate {
            status: Some(PaymentBatchStatus::Failed),
            unsigned_tx_json: None,
            signed_tx_json: None,
            error_message: Some(error_message.clone()),
            mined_height: None,
            mined_header_hash: None,
            mined_timestamp: None,
        };
        let ghost pre = *self;
        self.apply_batch_update(j, upd, false, now);
        self.cascade_members_failed(&bid, error_message, now);
        proof {
            assert(batch_failed_step(pre, *self, j as int, error_message@, now));
            lemma_wf_after_fail(pre, *self, j as int, error_message@, now);
            assert forall|i: int| 0 <= i < pre.payments@.len() implies payment_progress(
                (#[trigger] pre.payments@[i]).status,
                self.payments@[i].status,
            ) && self.payments@[i].id@ == pre.payments@[i].id@ by {
                if pre.payments@[i].is_member_of(pre.batches@[j as int].id@) {
                    assert(member_status_ok(pre.payments@[i], pre.batches@[j as int]));
                    assert(payment_failed_to(
                        pre.payments@[i],
                        self.payments@[i],
                        error_message@,
                        now,
                    ));
                }
            };
        }
    }

    /// Fails a live batch: sets it `FAILED` with `error_message` and, in
    /// the same step, sets all its member payments `FAILED` with the
    /// same reason. `Ok` iff the batch exists and is not yet terminal.
    pub fn update_to_failed(&mut self, batch_id: &String, error_message: String, now: u64) -> (r:
        Result<(), StoreError>)
        requires
            old(self).wf(),
        ensures
            final(self).wf(),
            r is Ok <==> has_live_batch(old(self).batches@, batch_id@),
            r == Err::<(), StoreError>(StoreError::NotFound) <==> !has_batch(
                old(self).batches@,
                batch_id@,
            ),
            r is Err ==> *final(self) == *old(self),
            r is Ok ==> exists|j: int|
                0 <= j < old(self).batches@.len() && (#[trigger] old(self).batches@[j]).id@
                    == batch_id@ && !batch_terminal(old(self).batches@[j].status)
                    && batch_failed_step(*old(self), *final(self), j, error_message@, now),
            payments_progress(old(self).payments@, final(self).payments@),
            batches_progress(old(self).batches@, final(self).batches@),
    {
        let j = match self.batch_index(batch_id) {
            None => {
                return Err(StoreError::NotFound);
            },
            Some(j) => j,
        };
        if batch_terminal_exec(self.batches[j].status) {
            proof {
                assert forall|k: int|
                    0 <= k < self.batches@.len() && (#[trigger] self.batches@[k]).id@
                        == batch_id@ implies batch_terminal(self.batches@[k].status) by {
                    if k != j as int {
                        assert(self.batches@[k].id@ == self.batches@[j as int].id@);
                        assert(false);
                    }
                };
            }
            return Err(StoreError::Conflict);
        }
        self.fail_batch_at(j, &error_message, now);
        Ok(())
    }

    /// Increments the retry counter of a live batch; when the counter
    /// would reach the bound, fails the batch (with cascade) instead,
    /// leaving the counter untouched. `Ok` iff the batch exists and is
    /// not yet terminal.
    pub fn increment_retry_count(&mut self, batch_id: &String, error_message: String, now: u64) -> (r:
        Result<(), StoreError>)
        requires
            old(self).wf(),
        ensures
            final(self).wf(),
            r is Ok <==> has_live_batch(old(self).batches@, batch_id@),
            r == Err::<(), StoreError>(StoreError::NotFound) <==> !has_batch(
                old(self).batches@,
                batch_id@,
            ),
            r is Err ==> *final(self) == *old(self),
            r is Ok ==> exists|j: int|
                0 <= j < old(self).batches@.len() && (#[trigger] old(self).batches@[j]).id@
                    == batch_id@ && !batch_terminal(old(self).batches@[j].status) && (if old(
                    self,
                ).batches@[j].retry_count + 1 >= MAX_RETRIES {
                    batch_failed_step(*old(self), *final(self), j, error_message@, now)
                } else {
                    final(self).payments@ == old(self).payments@ && final(self).batches@ == old(
                        self,
                    ).batches@.update(
                        j,
                        batch_updated(
                            old(self).batches@[j],
                            (PaymentBatchUpdate {
                                status: None,
                                unsigned_tx_json: None,
                                signed_tx_json: None,
                                error_message: None,
                                mined_height: None,
                                mined_header_hash: None,
                                mined_timestamp: None,
                            }),
                            true,
                            now,
                        ),
                    )
                }),
            payments_progress(old(self).payments@, final(self).payments@),
            batches_progress(old(self).batches@, final(self).batches@),
    {
        let j = match self.batch_index(batch_id) {
            None => {
                return Err(StoreError::NotFound);
            },
            Some(j) => j,
        };
        if batch_terminal_exec(self.batches[j].status) {
            proof {
                assert forall|k: int|
                    0 <= k < self.batches@.len() && (#[trigger] self.batches@[k]).id@
                        == batch_id@ implies batch_terminal(self.batches@[k].status) by {
                    if k != j as int {
                        assert(self.batches@[k].id@ == self.batches@[j as int].id@);
                        assert(false);
                    }
                };
            }
            return Err(StoreError::Conflict);
        }
        if self.batches[j].retry_count + 1 >= MAX_RETRIES {
            self.fail_batch_at(j, &error_message, now);
        } else {
            let upd = PaymentBatchUpdate {
                status: None,
                unsigned_tx_json: None,
                signed_tx_json: None,
                error_message: None,
                mined_height: None,
                mined_header_hash: None,
                mined_timestamp: None,
            };
            let ghost pre = *self;
            self.apply_batch_update(j, upd, true, now);
            proof {
                let nb = self.batches@[j as int];
                assert forall|i: int|
                    0 <= i < pre.payments@.len() && (#[trigger] pre.payments@[i]).is_member_of(
                        pre.batches@[j as int].id@,
                    ) implies member_status_ok(pre.payments@[i], nb) by {
                    assert(member_status_ok(pre.payments@[i], pre.batches@[j as int]));
                };
                lemma_wf_batch_only_update(pre, *self, j as int);
            }
        }
        Ok(())
    }

    /// Confirms an `AWAITING_CONFIRMATION` batch with the mining
    /// evidence reported by the base node — the header hash is persisted
    /// hex-encoded — and, in the same step, sets all its member payments
    /// `CONFIRMED`. `Ok` iff the batch exists in `AWAITING_CONFIRMATION`.
    pub fn update_to_confirmed(
        &mut self,
        batch_id: &String,
        mined_height: u64,
        mined_header_hash: Vec<u8>,
        mined_timestamp: u64,
        now: u64,
    ) -> (r: Result<(), StoreError>)
        requires
            old(self).wf(),
        ensures
            final(self).wf(),
            r is Ok <==> has_batch_in(
                old(self).batches@,
                batch_id@,
                PaymentBatchStatus::AwaitingConfirmation,
            ),
            r == Err::<(), StoreError>(StoreError::NotFound) <==> !has_batch(
                old(self).batches@,
                batch_id@,
            ),
            r is Err ==> *final(self) == *old(self),
            r is Ok ==> exists|j: int|
                0 <= j < old(self).batches@.len() && (#[trigger] old(self).batches@[j]).id@
                    == batch_id@ && old(self).batches@[j].status
                    == PaymentBatchStatus::AwaitingConfirmation && batch_confirmed_step(
                    *old(self),
                    *final(self),
                    j,
                    mined_height,
                    spec_hex_encode(mined_header_hash@),
                    mined_timestamp,
                    now,
                ),
            payments_progress(old(self).payments@, final(self).payments@),
            batches_progress(old(self).batches@, final(self).batches@),
    {
        let j = match self.batch_index(batch_id) {
            None => {
                return Err(StoreError::NotFound);
            },
            Some(j) => j,
        };
        if !(self.batches[j].status == PaymentBatchStatus::AwaitingConfirmation) {
            proof {
                assert forall|k: int|
                    0 <= k < self.batches@.len() && (#[trigger] self.batches@[k]).id@
                        == batch_id@ implies self.batches@[k].status
                    != PaymentBatchStatus::AwaitingConfirmation by {
                    if k != j as int {
                        assert(self.batches@[k].id@ == self.batches@[j as int].id@);
                        assert(false);
                    }
                };
            }
            return Err(StoreError::Conflict);
        }
        let bid = self.batches[j].id.clone();
        let hex_hash = hex_encode(&mined_header_hash);
        let upd = PaymentBatchUpdate {
            status: Some(PaymentBatchStatus::Confirmed),
            unsigned_tx_json: None,
            signed_tx_json: None,
            error_message: None,
            mined_height: Some(mined_height),
            mined_header_hash: Some(hex_hash),
            mined_timestamp: Some(mined_timestamp),
        };
        let ghost pre = *self;
        self.apply_batch_update(j, upd, false, now);
        self.cascade_members_confirmed(&bid, now);
        proof {
            assert(batch_confirmed_step(
                pre,
                *self,
                j as int,
                mined_height,
                spec_hex_encode(mined_header_hash@),
                mined_timestamp,
                now,
            ));
            lemma_wf_after_confirm(
                pre,
                *self,
                j as int,
                mined_height,
                spec_hex_encode(mined_header_hash@),
                mined_timestamp,
                now,
            );
            assert forall|i: int| 0 <= i < pre.payments@.len() implies payment_progress(
                (#[trigger] pre.payments@[i]).status,
                self.payments@[i].status,
            ) && self.payments@[i].id@ == pre.payments@[i].id@ by {
                if pre.payments@[i].is_member_of(pre.batches@[j as int].id@) {
                    assert(member_status_ok(pre.payments@[i], pre.batches@[j as int]));
                    assert(payment_confirmed_to(pre.payments@[i], self.payments@[i], now));
                }
            };
        }
        Ok(())
    }
}

/// Some payment row carries `id`, is `RECEIVED`, and belongs to
/// `account`.
pub open spec fn receivable_with_account(ps: Seq<Payment>, id: Seq<char>, account: Seq<char>) -> bool {
    exists|i: int|
        0 <= i < ps.len() && (#[trigger] ps[i]).id@ == id && ps[i].status
            == PaymentStatus::Received && ps[i].account_name@ == account
}

/// `id` reads like one of the listed ids.
pub open spec fn id_in_list(id: Seq<char>, ids: Seq<String>) -> bool {
    exists|k: int| 0 <= k < ids.len() && (#[trigger] ids[k])@ == id
}

/// `q` is `p` claimed into the batch `batch_id` by the batch creator.
pub open spec fn payment_batched_to(p: Payment, q: Payment, batch_id: Seq<char>, now: u64) -> bool {
    &&& q.core_kept(p)
    &&& q.status == PaymentStatus::Batched
    &&& q.payment_batch_id is Some
    &&& q.payment_batch_id.unwrap()@ == batch_id
    &&& q.failure_reason is None
    &&& q.updated_at == now
}

/// One new batch `b` was appended and exactly the listed payments were
/// claimed into it, in one step.
pub open spec fn batch_created_step(
    pre: Store,
    post: Store,
    b: PaymentBatch,
    ids: Seq<String>,
    now: u64,
) -> bool {
    &&& post.batches@ == pre.batches@.push(b)
    &&& post.payments@.len() == pre.payments@.len()
    &&& forall|i: int|
        0 <= i < pre.payments@.len() && id_in_list((#[trigger] pre.payments@[i]).id@, ids)
            ==> payment_batched_to(pre.payments@[i], post.payments@[i], b.id@, now)
    &&& forall|i: int|
        0 <= i < pre.payments@.len() && !id_in_list((#[trigger] pre.payments@[i]).id@, ids)
            ==> post.payments@[i] == pre.payments@[i]
}

impl Store {
    /// Whether `id` occurs in the given id list.
    fn id_in_list_exec(ids: &Vec<String>, id: &String) -> (r: bool)
        ensures
            r == id_in_list(id@, ids@),
    {
        let n: usize = ids.len();
        for k in 0..n
            invariant
                n == ids@.len(),
                forall|a: int| 0 <= a < k ==> (#[trigger] ids@[a])@ != id@,
        {
            if ids[k] == *id {
                return true;
            }
        }
        false
    }

    /// Creates a new `PENDING_BATCHING` batch and, in the same step,
    /// claims every listed payment into it. Succeeds iff the list is
    /// non-empty and duplicate-free, the batch id is fresh, and every
    /// listed id names a `RECEIVED` payment of the given account;
    /// otherwise nothing changes.
    pub fn create_batch_with_payments(
        &mut self,
        batch_id: String,
        account_name: &String,
        pr_idempotency_key: String,
        payment_ids: &Vec<String>,
        now: u64,
    ) -> (r: Result<PaymentBatch, StoreError>)
        requires
            old(self).wf(),
        ensures
            final(self).wf(),
            r is Ok <==> (payment_ids@.len() > 0 && !has_batch(old(self).batches@, batch_id@) && (
            forall|k: int|
                0 <= k < payment_ids@.len() ==> receivable_with_account(
                    old(self).payments@,
                    (#[trigger] payment_ids@[k])@,
                    account_name@,
                )) && (forall|k: int, l: int|
                0 <= k < l < payment_ids@.len() ==> (#[trigger] payment_ids@[k])@
                    != (#[trigger] payment_ids@[l])@)),
            r is Ok ==> ({
                let b = r.unwrap();
                &&& b.id@ == batch_id@
                &&& b.account_name@ == account_name@
                &&& b.status == PaymentBatchStatus::PendingBatching
                &&& b.pr_idempotency_key@ == pr_idempotency_key@
                &&& b.retry_count == 0
                &&& b.unsigned_tx_json is None
                &&& b.signed_tx_json is None
                &&& b.error_message is None
                &&& b.mined_height is None
                &&& b.mined_header_hash is None
                &&& b.mined_timestamp is None
                &&& b.created_at == now
                &&& b.updated_at == now
                &&& batch_created_step(*old(self), *final(self), b, payment_ids@, now)
            }),
            r is Err ==> *final(self) == *old(self) && r == Err::<PaymentBatch, StoreError>(
                StoreError::Conflict,
            ),
            payments_progress(old(self).payments@, final(self).payments@),
            batches_progress(old(self).batches@, final(self).batches@),
    {
        if payment_ids.len() == 0 {
            return Err(StoreError::Conflict);
        }
        if self.batch_index(&batch_id).is_some() {
            return Err(StoreError::Conflict);
        }
        let m: usize = payment_ids.len();
        for k in 0..m
            invariant
                m == payment_ids@.len(),
                self.wf(),
                forall|a: int|
                    0 <= a < k ==> receivable_with_account(
                        self.payments@,
                        (#[trigger] payment_ids@[a])@,
                        account_name@,
                    ),
        {
            match self.payment_index(&payment_ids[k]) {
                None => {
                    return Err(StoreError::Conflict);
                },
                Some(i) => {
                    if !(self.payments[i].status == PaymentStatus::Received)
                        || !(self.payments[i].account_name == *account_name) {
                        proof {
                            assert forall|i2: int|
                                0 <= i2 < self.payments@.len()
                                    && (#[trigger] self.payments@[i2]).id@
                                    == payment_ids@[k as int]@ implies !(self.payments@[i2].status
                                == PaymentStatus::Received && self.payments@[i2].account_name@
                                == account_name@) by {
                                if i2 != i as int {
                                    assert(self.payments@[i2].id@ == self.payments@[i as int].id@);
                                    assert(false);
                                }
                            };
                        }
                        return Err(StoreError::Conflict);
                    }
                },
            }
        }
        for k in 0..m
            invariant
                m == payment_ids@.len(),
                self.wf(),
                forall|a: int, b: int|
                    0 <= a < b < m && a < k ==> (#[trigger] payment_ids@[a])@
                        != (#[trigger] payment_ids@[b])@,
        {
            for l in (k + 1)..m
                invariant
                    m == payment_ids@.len(),
                    self.wf(),
                    k < m,
                    forall|a: int, b: int|
                        0 <= a < b < m && a < k ==> (#[trigger] payment_ids@[a])@
                            != (#[trigger] payment_ids@[b])@,
                    forall|b: int| k < b < l ==> (#[trigger] payment_ids@[b])@
                        != payment_ids@[k as int]@,
            {
                if payment_ids[k] == payment_ids[l] {
                    return Err(StoreError::Conflict);
                }
            }
        }
        let b = PaymentBatch {
            id: batch_id.clone(),
            account_name: account_name.clone(),
            status: PaymentBatchStatus::PendingBatching,
            pr_idempotency_key,
            unsigned_tx_json: None,
            signed_tx_json: None,
            error_message: None,
            retry_count: 0,
            mined_height: None,
            mined_header_hash: None,
            mined_timestamp: None,
            created_at: now,
            updated_at: now,
        };
        let ghost pre = *self;
        self.batches.push(b.duplicate());
        let n: usize = self.payments.len();
        for i in 0..n
            invariant
                n == self.payments@.len(),
                self.batches@ == pre.batches@.push(b),
                b.id@ == batch_id@,
                forall|a: int|
                    0 <= a < i && id_in_list((#[trigger] pre.payments@[a]).id@, payment_ids@)
                        ==> payment_batched_to(pre.payments@[a], self.payments@[a], b.id@, now),
                forall|a: int|
                    0 <= a < i && !id_in_list((#[trigger] pre.payments@[a]).id@, payment_ids@)
                        ==> self.payments@[a] == pre.payments@[a],
                forall|a: int| i <= a < n ==> #[trigger] self.payments@[a] == pre.payments@[a],
        {
            if Self::id_in_list_exec(payment_ids, &self.payments[i].id) {
                let mut q = self.payments[i].duplicate();
                q.status = PaymentStatus::Batched;
                q.payment_batch_id = Some(batch_id.clone());
                q.failure_reason = None;
                q.updated_at = now;
                self.payments.set(i, q);
            }
        }
        proof {
            lemma_wf_after_batch_created(pre, *self, b, payment_ids@, account_name@, now);
            assert forall|i: int| 0 <= i < pre.payments@.len() implies payment_progress(
                (#[trigger] pre.payments@[i]).status,
                self.payments@[i].status,
            ) && self.payments@[i].id@ == pre.payments@[i].id@ by {
                if id_in_list(pre.payments@[i].id@, payment_ids@) {
                    let k = choose|k: int|
                        0 <= k < payment_ids@.len() && (#[trigger] payment_ids@[k])@
                            == pre.payments@[i].id@;
                    assert(receivable_with_account(pre.payments@, payment_ids@[k]@, account_name@));
                    let i2 = choose|i2: int|
                        0 <= i2 < pre.payments@.len() && (#[trigger] pre.payments@[i2]).id@
                            == payment_ids@[k]@ && pre.payments@[i2].status
                            == PaymentStatus::Received && pre.payments@[i2].account_name@
                            == account_name@;
                    if i2 != i {
                        assert(pre.payments@[i2].id@ == pre.payments@[i].id@);
                        assert(false);
                    }
                }
            };
            assert forall|j: int| 0 <= j < pre.batches@.len() implies batch_progress(
                (#[trigger] pre.batches@[j]).status,
                self.batches@[j].status,
            ) && self.batches@[j].id@ == pre.batches@[j].id@ by {
                assert(self.batches@[j] == pre.batches@[j]);
            };
        }
        Ok(b)
    }
}

/// Appending one fresh `PENDING_BATCHING` batch while claiming exactly
/// the listed `RECEIVED` payments of its account keeps the store
/// well-formed.
proof fn lemma_wf_after_batch_created(
    pre: Store,
    post: Store,
    b: PaymentBatch,
    ids: Seq<String>,
    account: Seq<char>,
    now: u64,
)
    requires
        pre.wf(),
        ids.len() > 0,
        !has_batch(pre.batches@, b.id@),
        forall|k: int|
            0 <= k < ids.len() ==> receivable_with_account(
                pre.payments@,
                (#[trigger] ids[k])@,
                account,
            ),
        b.account_name@ == account,
        b.status == PaymentBatchStatus::PendingBatching,
        b.retry_count == 0,
        b.unsigned_tx_json is None,
        b.signed_tx_json is None,
        b.error_message is None,
        b.mined_height is None,
        b.mined_header_hash is None,
        b.mined_timestamp is None,
        batch_created_step(pre, post, b, ids, now),
    ensures
        post.wf(),
{
    let ps0 = pre.payments@;
    let ps1 = post.payments@;
    let bs0 = pre.batches@;
    let bs1 = post.batches@;
    let jn = bs0.len() as int;
    assert forall|i: int| 0 <= i < ps1.len() implies (#[trigger] ps1[i]).id@ == ps0[i].id@
        && ps1[i].client_id@ == ps0[i].client_id@ && ps1[i].account_name@ == ps0[i].account_name@
        && ps1[i].amount == ps0[i].amount by {
        if id_in_list(ps0[i].id@, ids) {
            assert(payment_batched_to(ps0[i], ps1[i], b.id@, now));
        }
    };
    assert forall|i: int| 0 <= i < ps1.len() implies payment_ok(#[trigger] ps1[i]) by {
        assert(payment_ok(ps0[i]));
        if id_in_list(ps0[i].id@, ids) {
            assert(payment_batched_to(ps0[i], ps1[i], b.id@, now));
        }
    };
    assert forall|k: int| 0 <= k < bs1.len() implies batch_ok(#[trigger] bs1[k]) by {
        if k < jn {
            assert(bs1[k] == bs0[k]);
            assert(batch_ok(bs0[k]));
        }
    };
    assert forall|i: int, k: int| 0 <= i < k < bs1.len() implies bs1[i].id@ != bs1[k].id@ by {
        if k < jn {
            assert(bs1[i] == bs0[i] && bs1[k] == bs0[k]);
        } else {
            assert(bs1[k] == b);
            if i < jn {
                assert(bs1[i] == bs0[i]);
                assert(!has_batch(bs0, b.id@));
            }
        }
    };
    assert forall|i: int|
        0 <= i < ps1.len() && (#[trigger] ps1[i]).payment_batch_id is Some implies has_batch(
        bs1,
        ps1[i].payment_batch_id.unwrap()@,
    ) by {
        if id_in_list(ps0[i].id@, ids) {
            assert(payment_batched_to(ps0[i], ps1[i], b.id@, now));
            assert(bs1[jn].id@ == b.id@);
        } else {
            assert(ps1[i] == ps0[i]);
            let id = ps0[i].payment_batch_id.unwrap()@;
            let k = choose|k: int| 0 <= k < bs0.len() && (#[trigger] bs0[k]).id@ == id;
            assert(bs1[k].id@ == id);
        }
    };
    assert forall|i: int, k: int|
        0 <= i < ps1.len() && 0 <= k < bs1.len() && (#[trigger] ps1[i]).is_member_of(
            (#[trigger] bs1[k]).id@,
        ) implies member_status_ok(ps1[i], bs1[k]) by {
        if id_in_list(ps0[i].id@, ids) {
            assert(payment_batched_to(ps0[i], ps1[i], b.id@, now));
            let kk = choose|kk: int|
                0 <= kk < ids.len() && (#[trigger] ids[kk])@ == ps0[i].id@;
            assert(receivable_with_account(ps0, ids[kk]@, account));
            let i2 = choose|i2: int|
                0 <= i2 < ps0.len() && (#[trigger] ps0[i2]).id@ == ids[kk]@ && ps0[i2].status
                    == PaymentStatus::Received && ps0[i2].account_name@ == account;
            if i2 != i {
                assert(ps0[i2].id@ == ps0[i].id@);
                assert(false);
            }
            assert(ps0[i].account_name@ == account);
            if k < jn {
                assert(bs1[k] == bs0[k]);
                assert(bs0[k].id@ != b.id@);
                assert(false);
            } else {
                assert(bs1[k] == b);
            }
        } else {
            assert(ps1[i] == ps0[i]);
            if k < jn {
                assert(bs1[k] == bs0[k]);
                assert(member_status_ok(ps0[i], bs0[k]));
            } else {
                assert(bs1[k] == b);
                assert(ps0[i].payment_batch_id is Some && ps0[i].payment_batch_id.unwrap()@
                    == b.id@);
                assert(has_batch(bs0, b.id@));
                assert(false);
            }
        }
    };
    assert forall|k: int|
        0 <= k < bs1.len() && !batch_terminal((#[trigger] bs1[k]).status) implies exists|i: int|
        0 <= i < ps1.len() && (#[trigger] ps1[i]).is_member_of(bs1[k].id@) by {
        if k < jn {
            assert(bs1[k] == bs0[k]);
            let i0 = choose|i: int|
                0 <= i < ps0.len() && (#[trigger] ps0[i]).is_member_of(bs0[k].id@);
            assert(!id_in_list(ps0[i0].id@, ids)) by {
                if id_in_list(ps0[i0].id@, ids) {
                    let kk = choose|kk: int|
                        0 <= kk < ids.len() && (#[trigger] ids[kk])@ == ps0[i0].id@;
                    assert(receivable_with_account(ps0, ids[kk]@, account));
                    let i2 = choose|i2: int|
                        0 <= i2 < ps0.len() && (#[trigger] ps0[i2]).id@ == ids[kk]@
                            && ps0[i2].status == PaymentStatus::Received && ps0[i2].account_name@
                            == account;
                    if i2 != i0 {
                        assert(ps0[i2].id@ == ps0[i0].id@);
                        assert(false);
                    }
                    assert(payment_ok(ps0[i0]));
                    assert(false);
                }
            };
            assert(ps1[i0].is_member_of(bs1[k].id@));
        } else {
            assert(bs1[k] == b);
            assert(receivable_with_account(ps0, ids[0]@, account));
            let i0 = choose|i: int|
                0 <= i < ps0.len() && (#[trigger] ps0[i]).id@ == ids[0]@ && ps0[i].status
                    == PaymentStatus::Received && ps0[i].account_name@ == account;
            assert(id_in_list(ps0[i0].id@, ids));
            assert(payment_batched_to(ps0[i0], ps1[i0], b.id@, now));
            assert(ps1[i0].is_member_of(bs1[k].id@));
        }
    };
}

/// The first `limit` `RECEIVED` payments, in store order.
pub open spec fn received_list(ps: Seq<Payment>, limit: nat) -> Seq<Payment>
    decreases ps.len(),
{
    if ps.len() == 0 {
        Seq::empty()
    } else {
        let pre = received_list(ps.drop_last(), limit);
        if ps.last().status == PaymentStatus::Received && pre.len() < limit {
            pre.push(ps.last())
        } else {
            pre
        }
    }
}

/// All batches in the given status, in store order.
pub open spec fn batches_with_status(bs: Seq<PaymentBatch>, status: PaymentBatchStatus) -> Seq<
    PaymentBatch,
>
    decreases bs.len(),
{
    if bs.len() == 0 {
        Seq::empty()
    } else {
        let pre = batches_with_status(bs.drop_last(), status);
        if bs.last().status == status {
            pre.push(bs.last())
        } else {
            pre
        }
    }
}

/// All payments assigned to the batch `batch_id`, in store order.
pub open spec fn members_of(ps: Seq<Payment>, batch_id: Seq<char>) -> Seq<Payment>
    decreases ps.len(),
{
    if ps.len() == 0 {
        Seq::empty()
    } else {
        let pre = members_of(ps.drop_last(), batch_id);
        if ps.last().is_member_of(batch_id) {
            pre.push(ps.last())
        } else {
            pre
        }
    }
}

/// Every entry of `received_list` is a `RECEIVED` row of the store.
pub proof fn lemma_received_list_elems(ps: Seq<Payment>, limit: nat)
    ensures
        forall|k: int|
            0 <= k < received_list(ps, limit).len() ==> (exists|i: int|
                0 <= i < ps.len() && #[trigger] ps[i] == received_list(ps, limit)[k])
                && received_list(ps, limit)[k].status == PaymentStatus::Received,
    decreases ps.len(),
{
    if ps.len() == 0 {
    } else {
        lemma_received_list_elems(ps.drop_last(), limit);
        let rl = received_list(ps, limit);
        let pre = received_list(ps.drop_last(), limit);
        assert forall|k: int| 0 <= k < rl.len() implies (exists|i: int|
            0 <= i < ps.len() && #[trigger] ps[i] == rl[k]) && rl[k].status
            == PaymentStatus::Received by {
            if k < pre.len() {
                assert(rl[k] == pre[k]);
                let i = choose|i: int|
                    0 <= i < ps.drop_last().len() && #[trigger] ps.drop_last()[i] == pre[k];
                assert(ps[i] == pre[k]);
            } else {
                assert(rl[k] == ps.last());
                assert(ps[ps.len() - 1] == ps.last());
            }
        };
    }
}

/// When the store's payment ids are unique, the entries of
/// `received_list` carry pairwise distinct ids.
pub proof fn lemma_received_list_distinct(ps: Seq<Payment>, limit: nat)
    requires
        payment_ids_unique(ps),
    ensures
        forall|a: int, b: int|
            0 <= a < b < received_list(ps, limit).len() ==> received_list(ps, limit)[a].id@
                != received_list(ps, limit)[b].id@,
    decreases ps.len(),
{
    if ps.len() == 0 {
    } else {
        assert(payment_ids_unique(ps.drop_last())) by {
            assert forall|i: int, j: int|
                0 <= i < j < ps.drop_last().len() implies ps.drop_last()[i].id@
                != ps.drop_last()[j].id@ by {
                assert(ps.drop_last()[i] == ps[i]);
                assert(ps.drop_last()[j] == ps[j]);
            };
        };
        lemma_received_list_distinct(ps.drop_last(), limit);
        lemma_received_list_elems(ps.drop_last(), limit);
        let rl = received_list(ps, limit);
        let pre = received_list(ps.drop_last(), limit);
        assert forall|a: int, b: int| 0 <= a < b < rl.len() implies rl[a].id@ != rl[b].id@ by {
            if b < pre.len() {
                assert(rl[a] == pre[a]);
                assert(rl[b] == pre[b]);
            } else {
                assert(rl[b] == ps.last());
                assert(rl[a] == pre[a]);
                let i = choose|i: int|
                    0 <= i < ps.drop_last().len() && #[trigger] ps.drop_last()[i] == pre[a];
                assert(ps[i] == pre[a]);
                assert(ps[i].id@ != ps[ps.len() - 1].id@);
            }
        };
    }
}

impl Store {
    /// The payments eligible for batching: all `RECEIVED` rows, bounded
    /// by `limit`, in store order.
    pub fn find_receivable_payments(&self, limit: usize) -> (r: Vec<Payment>)
        ensures
            r@ == received_list(self.payments@, limit as nat),
    {
        let mut r: Vec<Payment> = Vec::new();
        let n: usize = self.payments.len();
        for i in 0..n
            invariant
                n == self.payments@.len(),
                r@ == received_list(self.payments@.take(i as int), limit as nat),
                r@.len() <= limit,
        {
            proof {
                assert(self.payments@.take(i + 1).drop_last() =~= self.payments@.take(i as int));
                assert(self.payments@.take(i + 1).last() == self.payments@[i as int]);
            }
            if self.payments[i].status == PaymentStatus::Received && r.len() < limit {
                r.push(self.payments[i].duplicate());
            }
        }
        proof {
            assert(self.payments@.take(n as int) =~= self.payments@);
        }
        r
    }

    /// All batches currently in `status`, in store order.
    pub fn find_by_status(&self, status: PaymentBatchStatus) -> (r: Vec<PaymentBatch>)
        ensures
            r@ == batches_with_status(self.batches@, status),
    {
        let mut r: Vec<PaymentBatch> = Vec::new();
        let n: usize = self.batches.len();
        for j in 0..n
            invariant
                n == self.batches@.len(),
                r@ == batches_with_status(self.batches@.take(j as int), status),
        {
            proof {
                assert(self.batches@.take(j + 1).drop_last() =~= self.batches@.take(j as int));
                assert(self.batches@.take(j + 1).last() == self.batches@[j as int]);
            }
            if self.batches[j].status == status {
                r.push(self.batches[j].duplicate());
            }
        }
        proof {
            assert(self.batches@.take(n as int) =~= self.batches@);
        }
        r
    }

    /// All member payments of the batch `batch_id`, in store order.
    pub fn find_by_batch_id(&self, batch_id: &String) -> (r: Vec<Payment>)
        ensures
            r@ == members_of(self.payments@, batch_id@),
    {
        let mut r: Vec<Payment> = Vec::new();
        let n: usize = self.payments.len();
        for i in 0..n
            invariant
                n == self.payments@.len(),
                r@ == members_of(self.payments@.take(i as int), batch_id@),
        {
            proof {
                assert(self.payments@.take(i + 1).drop_last() =~= self.payments@.take(i as int));
                assert(self.payments@.take(i + 1).last() == self.payments@[i as int]);
            }
            let is_mem = match &self.payments[i].payment_batch_id {
                Some(b) => *b == *batch_id,
                None => false,
            };
            if is_mem {
                r.push(self.payments[i].duplicate());
            }
        }
        proof {
            assert(self.payments@.take(n as int) =~= self.payments@);
        }
        r
    }

    /// Retrieves a payment together with its batch, when it has one: the
    /// read model behind the client-facing status endpoint.
    pub fn get_by_id_with_batch_info(&self, id: &String) -> (r: Option<
        (Payment, Option<PaymentBatch>),
    >)
        requires
            self.wf(),
        ensures
            match r {
                None => !has_payment(self.payments@, id@),
                Some((p, ob)) => {
                    &&& exists|i: int|
                        0 <= i < self.payments@.len() && #[trigger] self.payments@[i] == p
                    &&& p.id@ == id@
                    &&& match ob {
                        None => p.payment_batch_id is None,
                        Some(b) => p.payment_batch_id is Some && b.id@
                            == p.payment_batch_id.unwrap()@ && exists|j: int|
                            0 <= j < self.batches@.len() && #[trigger] self.batches@[j] == b,
                    }
                },
            },
    {
        let i = match self.payment_index(id) {
            None => {
                return None;
            },
            Some(i) => i,
        };
        let p = self.payments[i].duplicate();
        match &self.payments[i].payment_batch_id {
            None => Some((p, None)),
            Some(bid) => {
                match self.batch_index(bid) {
                    Some(j) => {
                        let b = self.batches[j].duplicate();
                        Some((p, Some(b)))
                    },
                    None => {
                        proof {
                            assert(false);
                        }
                        None
                    },
                }
            },
        }
    }
}

} // verus!
