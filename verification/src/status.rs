//! The two status state machines: one per payment, one per batch.
//!
//! The persistent form of each status is an uppercase-underscore string;
//! in memory they are closed enums. `progress` relations capture the
//! allowed forward movement: payment statuses are monotone along
//! `Received < Batched < Confirmed` with `Failed` absorbing, and batch
//! statuses follow the linear pipeline with `Failed` reachable from any
//! non-terminal state.

use vstd::prelude::*;

verus! {

#[derive(Clone, Copy, Debug, PartialEq, Eq, Structural)]
pub enum PaymentStatus {
    Received,
    Batched,
    Confirmed,
    Failed,
}

#[derive(Clone, Copy, Debug, PartialEq, Eq, Structural)]
pub enum PaymentBatchStatus {
    PendingBatching,
    AwaitingSignature,
    SigningInProgress,
    AwaitingBroadcast,
    Broadcasting,
    AwaitingConfirmation,
    Confirmed,
    Failed,
}

pub open spec fn payment_terminal(s: PaymentStatus) -> bool {
    s == PaymentStatus::Confirmed || s == PaymentStatus::Failed
}

pub open spec fn batch_terminal(s: PaymentBatchStatus) -> bool {
    s == PaymentBatchStatus::Confirmed || s == PaymentBatchStatus::Failed
}

pub fn batch_terminal_exec(s: PaymentBatchStatus) -> (r: bool)
    ensures
        r == batch_terminal(s),
{
    s == PaymentBatchStatus::Confirmed || s == PaymentBatchStatus::Failed
}

/// Position of a batch status along the forward pipeline.
pub open spec fn batch_rank(s: PaymentBatchStatus) -> int {
    match s {
        PaymentBatchStatus::PendingBatching => 0,
        PaymentBatchStatus::AwaitingSignature => 1,
        PaymentBatchStatus::SigningInProgress => 2,
        PaymentBatchStatus::AwaitingBroadcast => 3,
        PaymentBatchStatus::Broadcasting => 4,
        PaymentBatchStatus::AwaitingConfirmation => 5,
        PaymentBatchStatus::Confirmed => 6,
        PaymentBatchStatus::Failed => 7,
    }
}

/// `b` is reachable from `a` in the payment state machine: statuses are
/// monotone along `Received < Batched < Confirmed`, and `Failed` is an
/// absorbing state reachable from any non-terminal status.
pub open spec fn payment_progress(a: PaymentStatus, b: PaymentStatus) -> bool {
    ||| a == b
    ||| (!payment_terminal(a) && b == PaymentStatus::Failed)
    ||| (a == PaymentStatus::Received && (b == PaymentStatus::Batched || b
        == PaymentStatus::Confirmed))
    ||| (a == PaymentStatus::Batched && b == PaymentStatus::Confirmed)
}

/// `b` is reachable from `a` in the batch state machine: strictly forward
/// along the pipeline, with `Failed` reachable from any non-terminal
/// status and both `Confirmed` and `Failed` terminal.
pub open spec fn batch_progress(a: PaymentBatchStatus, b: PaymentBatchStatus) -> bool {
    ||| a == b
    ||| (!batch_terminal(a) && (b == PaymentBatchStatus::Failed || batch_rank(a) < batch_rank(b)))
}

impl PaymentStatus {
    /// The uppercase-underscore string stored at the persistence boundary.
    pub open spec fn spec_db_str(self) -> Seq<char> {
        match self {
            PaymentStatus::Received => "RECEIVED"@,
            PaymentStatus::Batched => "BATCHED"@,
            PaymentStatus::Confirmed => "CONFIRMED"@,
            PaymentStatus::Failed => "FAILED"@,
        }
    }

    pub fn as_db_str(&self) -> (r: String)
        ensures
            r@ == self.spec_db_str(),
    {
        match self {
            PaymentStatus::Received => "RECEIVED".to_owned(),
            PaymentStatus::Batched => "BATCHED".to_owned(),
            PaymentStatus::Confirmed => "CONFIRMED".to_owned(),
            PaymentStatus::Failed => "FAILED".to_owned(),
        }
    }

    /// Parses the persistent form; an unrecognised string yields `None`
    /// rather than aborting, so a corrupt row surfaces as a typed error.
    pub fn parse(s: &String) -> (r: Option<PaymentStatus>)
        ensures
            match r {
                Some(st) => s@ == st.spec_db_str(),
                None => forall|st: PaymentStatus| s@ != st.spec_db_str(),
            },
    {
        if *s == "RECEIVED".to_owned() {
            Some(PaymentStatus::Received)
        } else if *s == "BATCHED".to_owned() {
            Some(PaymentStatus::Batched)
        } else if *s == "CONFIRMED".to_owned() {
            Some(PaymentStatus::Confirmed)
        } else if *s == "FAILED".to_owned() {
            Some(PaymentStatus::Failed)
        } else {
            None
        }
    }
}

impl PaymentBatchStatus {
    /// The uppercase-underscore string stored at the persistence boundary.
    pub open spec fn spec_db_str(self) -> Seq<char> {
        match self {
            PaymentBatchStatus::PendingBatching => "PENDING_BATCHING"@,
            PaymentBatchStatus::AwaitingSignature => "AWAITING_SIGNATURE"@,
            PaymentBatchStatus::SigningInProgress => "SIGNING_IN_PROGRESS"@,
            PaymentBatchStatus::AwaitingBroadcast => "AWAITING_BROADCAST"@,
            PaymentBatchStatus::Broadcasting => "BROADCASTING"@,
            PaymentBatchStatus::AwaitingConfirmation => "AWAITING_CONFIRMATION"@,
            PaymentBatchStatus::Confirmed => "CONFIRMED"@,
            PaymentBatchStatus::Failed => "FAILED"@,
        }
    }

    pub fn as_db_str(&self) -> (r: String)
        ensures
            r@ == self.spec_db_str(),
    {
        match self {
            PaymentBatchStatus::PendingBatching => "PENDING_BATCHING".to_owned(),
            PaymentBatchStatus::AwaitingSignature => "AWAITING_SIGNATURE".to_owned(),
            PaymentBatchStatus::SigningInProgress => "SIGNING_IN_PROGRESS".to_owned(),
            PaymentBatchStatus::AwaitingBroadcast => "AWAITING_BROADCAST".to_owned(),
            PaymentBatchStatus::Broadcasting => "BROADCASTING".to_owned(),
            PaymentBatchStatus::AwaitingConfirmation => "AWAITING_CONFIRMATION".to_owned(),
            PaymentBatchStatus::Confirmed => "CONFIRMED".to_owned(),
            PaymentBatchStatus::Failed => "FAILED".to_owned(),
        }
    }

    /// Parses the persistent form; an unrecognised string yields `None`
    /// rather than aborting, so a corrupt row surfaces as a typed error.
    pub fn parse(s: &String) -> (r: Option<PaymentBatchStatus>)
        ensures
            match r {
                Some(st) => s@ == st.spec_db_str(),
                None => forall|st: PaymentBatchStatus| s@ != st.spec_db_str(),
            },
    {
        if *s == "PENDING_BATCHING".to_owned() {
            Some(PaymentBatchStatus::PendingBatching)
        } else if *s == "AWAITING_SIGNATURE".to_owned() {
            Some(PaymentBatchStatus::AwaitingSignature)
        } else if *s == "SIGNING_IN_PROGRESS".to_owned() {
            Some(PaymentBatchStatus::SigningInProgress)
        } else if *s == "AWAITING_BROADCAST".to_owned() {
            Some(PaymentBatchStatus::AwaitingBroadcast)
        } else if *s == "BROADCASTING".to_owned() {
            Some(PaymentBatchStatus::Broadcasting)
        } else if *s == "AWAITING_CONFIRMATION".to_owned() {
            Some(PaymentBatchStatus::AwaitingConfirmation)
        } else if *s == "CONFIRMED".to_owned() {
            Some(PaymentBatchStatus::Confirmed)
        } else if *s == "FAILED".to_owned() {
            Some(PaymentBatchStatus::Failed)
        } else {
            None
        }
    }
}

/// The payment `progress` relation is transitive, so any chain of
/// observed statuses whose consecutive pairs are valid single advances
/// forms a valid path of the payment state machine.
pub proof fn lemma_payment_progress_transitive(
    a: PaymentStatus,
    b: PaymentStatus,
    c: PaymentStatus,
)
    requires
        payment_progress(a, b),
        payment_progress(b, c),
    ensures
        payment_progress(a, c),
{
}

/// The batch `progress` relation is transitive, so a batch observed
/// across any history traces a valid forward path of the pipeline.
pub proof fn lemma_batch_progress_transitive(
    a: PaymentBatchStatus,
    b: PaymentBatchStatus,
    c: PaymentBatchStatus,
)
    requires
        batch_progress(a, b),
        batch_progress(b, c),
    ensures
        batch_progress(a, c),
{
}

} // verus!
