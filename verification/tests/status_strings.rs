use payment_processor::status::{PaymentBatchStatus, PaymentStatus};

#[test]
fn payment_status_round_trips_through_db_strings() {
    let all = [
        (PaymentStatus::Received, "RECEIVED"),
        (PaymentStatus::Batched, "BATCHED"),
        (PaymentStatus::Confirmed, "CONFIRMED"),
        (PaymentStatus::Failed, "FAILED"),
    ];
    for (status, text) in all {
        assert_eq!(status.as_db_str(), text);
        assert_eq!(PaymentStatus::parse(&text.to_string()), Some(status));
    }
    assert_eq!(PaymentStatus::parse(&"PENDING".to_string()), None);
    assert_eq!(PaymentStatus::parse(&"received".to_string()), None);
}

#[test]
fn batch_status_round_trips_through_db_strings() {
    let all = [
        (PaymentBatchStatus::PendingBatching, "PENDING_BATCHING"),
        (PaymentBatchStatus::AwaitingSignature, "AWAITING_SIGNATURE"),
        (PaymentBatchStatus::SigningInProgress, "SIGNING_IN_PROGRESS"),
        (PaymentBatchStatus::AwaitingBroadcast, "AWAITING_BROADCAST"),
        (PaymentBatchStatus::Broadcasting, "BROADCASTING"),
        (PaymentBatchStatus::AwaitingConfirmation, "AWAITING_CONFIRMATION"),
        (PaymentBatchStatus::Confirmed, "CONFIRMED"),
        (PaymentBatchStatus::Failed, "FAILED"),
    ];
    for (status, text) in all {
        assert_eq!(status.as_db_str(), text);
        assert_eq!(PaymentBatchStatus::parse(&text.to_string()), Some(status));
    }
    assert_eq!(PaymentBatchStatus::parse(&"MINED".to_string()), None);
}
