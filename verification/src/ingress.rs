//! The client-facing ingress: idempotent payment submission.

use vstd::prelude::*;
use crate::ext::fresh_uuid;
use crate::model::Payment;
use crate::store::{
    has_client_key, has_payment, payments_progress, Store, StoreError,
};
use crate::status::PaymentStatus;

verus! {

#[derive(Clone, Copy, Debug, PartialEq, Eq, Structural)]
pub enum SubmitError {
    /// The submission failed validation: negative amount or an empty
    /// `client_id`, `account_name` or `recipient_address`.
    BadRequest,
    /// The store refused the insert (a freshly drawn id collided).
    Storage(StoreError),
}

/// A submission the ingress accepts: non-negative amount and non-empty
/// client id, account name and recipient address.
pub open spec fn valid_submission(
    client_id: Seq<char>,
    account_name: Seq<char>,
    recipient_address: Seq<char>,
    amount: i64,
) -> bool {
    amount >= 0 && client_id.len() > 0 && account_name.len() > 0 && recipient_address.len() > 0
}

/// Accepts one payment submission. Validation failures change nothing
/// and report `BadRequest`. When a payment with the same client key
/// `(client_id, account_name)` already exists, it is returned unchanged,
/// whatever its status, and nothing changes. Otherwise a new `RECEIVED`
/// payment is created under a fresh id; only a collision of that random
/// id makes this fail.
pub fn submit_payment(
    store: &mut Store,
    client_id: &String,
    account_name: &String,
    recipient_address: &String,
    amount: i64,
    payment_id: Option<String>,
    now: u64,
) -> (r: Result<Payment, SubmitError>)
    requires
        old(store).wf(),
    ensures
        final(store).wf(),
        final(store).batches@ == old(store).batches@,
        payments_progress(old(store).payments@, final(store).payments@),
        r == Err::<Payment, SubmitError>(SubmitError::BadRequest) <==> !valid_submission(
            client_id@,
            account_name@,
            recipient_address@,
            amount,
        ),
        r is Err ==> *final(store) == *old(store),
        valid_submission(client_id@, account_name@, recipient_address@, amount) && has_client_key(
            old(store).payments@,
            client_id@,
            account_name@,
        ) ==> r is Ok && *final(store) == *old(store) && (exists|i: int|
            0 <= i < old(store).payments@.len() && #[trigger] old(store).payments@[i]
                == r.unwrap()) && r.unwrap().client_id@ == client_id@ && r.unwrap().account_name@
            == account_name@,
        valid_submission(client_id@, account_name@, recipient_address@, amount) && !has_client_key(
            old(store).payments@,
            client_id@,
            account_name@,
        ) ==> match r {
            Ok(p) => {
                &&& p.client_id@ == client_id@
                &&& p.account_name@ == account_name@
                &&& p.status == PaymentStatus::Received
                &&& p.payment_batch_id is None
                &&& p.recipient_address@ == recipient_address@
                &&& p.amount == amount
                &&& p.payment_id == payment_id
                &&& p.failure_reason is None
                &&& p.created_at == now
                &&& p.updated_at == now
                &&& !has_payment(old(store).payments@, p.id@)
                &&& final(store).payments@ == old(store).payments@.push(p)
            },
            Err(e) => e == SubmitError::Storage(StoreError::Conflict),
        },
{
    if amount < 0 || client_id.as_str().is_empty() || account_name.as_str().is_empty()
        || recipient_address.as_str().is_empty() {
        return Err(SubmitError::BadRequest);
    }
    match store.get_payment_by_client_key(client_id, account_name) {
        Some(p) => Ok(p.duplicate()),
        None => {
            let id = fresh_uuid();
            match store.create_payment(
                id,
                client_id,
                account_name,
                recipient_address,
                amount,
                payment_id,
                now,
            ) {
                Ok(p) => Ok(p),
                Err(e) => Err(SubmitError::Storage(e)),
            }
        },
    }
}

} // verus!
