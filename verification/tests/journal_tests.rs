//! The journal: sequence assignment, deduplication, replay.

use payment::envelope::{DeduplicationKey, EventMetadata};
use payment::event::{Deposited, Disputed, TransactionTypeEvent, Withdrawn};
use payment::journal::InMemoryJournal;

/// A monetary amount in ten-thousandths, from a plain decimal value.
fn raw(x: f64) -> i64 {
    (x * 10000.0).round() as i64
}

fn deposited(client_id: u16, tx_id: u32, amount: f64) -> TransactionTypeEvent {
    TransactionTypeEvent::Deposited(Deposited { client_id, tx_id, amount: raw(amount) })
}

fn metadata(client_id: u16, tx_id: u32, key: &str) -> EventMetadata {
    EventMetadata {
        client_id,
        tx_id,
        deduplication_key: DeduplicationKey::new(String::from(key)),
        timestamp: 0,
    }
}

#[test]
fn test_duplicate_deduplication_key_returns_existing_event() {
    let mut journal = InMemoryJournal::new();

    let envelope1 = journal
        .append(deposited(1, 1, 100.0), metadata(1, 1, "deposit:1:1"))
        .unwrap();

    // Different amount, but the original envelope must come back.
    let envelope2 = journal
        .append(deposited(1, 1, 200.0), metadata(1, 1, "deposit:1:1"))
        .unwrap();

    assert_eq!(envelope1.sequence_nr, envelope2.sequence_nr);
    assert_eq!(envelope1.tx_id, envelope2.tx_id);

    match (&envelope1.event, &envelope2.event) {
        (TransactionTypeEvent::Deposited(d1), TransactionTypeEvent::Deposited(d2)) => {
            assert_eq!(d1.amount, raw(100.0));
            assert_eq!(d2.amount, raw(100.0));
        }
        _ => panic!("Expected Deposited events"),
    }

    let events = journal.replay(None).unwrap();
    assert_eq!(events.len(), 1);
}

#[test]
fn test_different_transaction_types_with_same_tx_id() {
    let mut journal = InMemoryJournal::new();

    journal
        .append(deposited(1, 1, 100.0), metadata(1, 1, "deposit:1:1"))
        .unwrap();

    let result = journal.append(
        TransactionTypeEvent::Disputed(Disputed { client_id: 1, tx_id: 1, amount: raw(100.0) }),
        metadata(1, 1, "dispute:1:1"),
    );

    assert!(result.is_ok(), "Should allow different transaction types with same tx_id");

    let events = journal.replay(None).unwrap();
    assert_eq!(events.len(), 2);
}

#[test]
fn test_concurrent_appends_with_different_keys() {
    let mut journal = InMemoryJournal::new();

    for i in 1..=10u32 {
        let key = format!("deposit:1:{}", i);
        journal
            .append(deposited(1, i, 10.0), metadata(1, i, key.as_str()))
            .unwrap();
    }

    let events = journal.replay(None).unwrap();
    assert_eq!(events.len(), 10);

    let mut seq_numbers: Vec<u64> = events.iter().map(|e| e.sequence_nr).collect();
    seq_numbers.sort();
    assert_eq!(seq_numbers, vec![1, 2, 3, 4, 5, 6, 7, 8, 9, 10]);
}

#[test]
fn test_idempotency_across_transaction_types() {
    let mut journal = InMemoryJournal::new();

    let envelope1 = journal
        .append(deposited(1, 1, 100.0), metadata(1, 1, "deposit:1:1"))
        .unwrap();

    let envelope2 = journal
        .append(deposited(1, 1, 100.0), metadata(1, 1, "deposit:1:1"))
        .unwrap();

    assert_eq!(envelope1.sequence_nr, envelope2.sequence_nr);

    let events = journal.replay(None).unwrap();
    assert_eq!(events.len(), 1);
}

#[test]
fn test_events_applied_in_sequence_order() {
    let mut journal = InMemoryJournal::new();

    let envelope1 = journal
        .append(deposited(1, 1, 100.0), metadata(1, 1, "deposit:1:1"))
        .unwrap();
    let envelope2 = journal
        .append(deposited(1, 2, 50.0), metadata(1, 2, "deposit:1:2"))
        .unwrap();
    let envelope3 = journal
        .append(
            TransactionTypeEvent::Withdrawn(Withdrawn {
                client_id: 1,
                tx_id: 3,
                amount: raw(30.0),
            }),
            metadata(1, 3, "withdraw:1:3"),
        )
        .unwrap();

    assert_eq!(envelope1.sequence_nr, 1);
    assert_eq!(envelope2.sequence_nr, 2);
    assert_eq!(envelope3.sequence_nr, 3);

    let events = journal.replay(None).unwrap();
    assert_eq!(events.len(), 3);
    assert_eq!(events[0].sequence_nr, 1);
    assert_eq!(events[1].sequence_nr, 2);
    assert_eq!(events[2].sequence_nr, 3);
}

#[test]
fn test_replay_from_specific_sequence() {
    let mut journal = InMemoryJournal::new();

    for i in 1..=5u32 {
        let key = format!("deposit:1:{}", i);
        journal
            .append(deposited(1, i, 10.0), metadata(1, i, key.as_str()))
            .unwrap();
    }

    let events = journal.replay(Some(3)).unwrap();

    assert_eq!(events.len(), 3);
    assert_eq!(events[0].sequence_nr, 3);
    assert_eq!(events[1].sequence_nr, 4);
    assert_eq!(events[2].sequence_nr, 5);
}

#[test]
fn test_highest_sequence_tracking() {
    let mut journal = InMemoryJournal::new();

    let highest = journal.highest_sequence().unwrap();
    assert_eq!(highest, None);

    journal
        .append(deposited(1, 1, 100.0), metadata(1, 1, "deposit:1:1"))
        .unwrap();

    let highest = journal.highest_sequence().unwrap();
    assert_eq!(highest, Some(1));

    for i in 2..=10u32 {
        let key = format!("deposit:1:{}", i);
        journal
            .append(deposited(1, i, 10.0), metadata(1, i, key.as_str()))
            .unwrap();
    }

    let highest = journal.highest_sequence().unwrap();
    assert_eq!(highest, Some(10));
}

#[test]
fn test_find_by_tx_id_preserves_append_order() {
    let mut journal = InMemoryJournal::new();

    journal
        .append(deposited(1, 7, 100.0), metadata(1, 7, "deposit:1:7"))
        .unwrap();
    journal
        .append(deposited(1, 8, 20.0), metadata(1, 8, "deposit:1:8"))
        .unwrap();
    journal
        .append(
            TransactionTypeEvent::Disputed(Disputed {
                client_id: 1,
                tx_id: 7,
                amount: raw(100.0),
            }),
            metadata(1, 7, "dispute:1:7"),
        )
        .unwrap();

    let events = journal.find_by_tx_id(7).unwrap();
    assert_eq!(events.len(), 2);
    assert_eq!(events[0].sequence_nr, 1);
    assert_eq!(events[1].sequence_nr, 3);
    assert!(matches!(events[0].event, TransactionTypeEvent::Deposited(_)));
    assert!(matches!(events[1].event, TransactionTypeEvent::Disputed(_)));

    let none = journal.find_by_tx_id(99).unwrap();
    assert_eq!(none.len(), 0);
}
