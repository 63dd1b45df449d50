//! The correlation table on its own: registration, resolution, marking,
//! and teardown.

use wasmworker::webworker::correlate::{CorrelationTable, SinkState};

#[test]
fn entries_are_registered_and_resolved_once() {
    let mut table = CorrelationTable::new();
    assert_eq!(table.len(), 0);
    table.register(7);
    table.register(9);
    assert_eq!(table.len(), 2);
    assert!(table.contains(7));
    assert!(!table.contains(8));

    assert_eq!(table.resolve(7), Some(SinkState::Waiting));
    assert_eq!(table.len(), 1);
    // Resolving the same id again finds nothing.
    assert_eq!(table.resolve(7), None);
    assert_eq!(table.resolve(9), Some(SinkState::Waiting));
    assert_eq!(table.len(), 0);
}

#[test]
fn registering_an_id_twice_keeps_one_entry() {
    let mut table = CorrelationTable::new();
    table.register(5);
    table.register(5);
    assert_eq!(table.len(), 1);
    assert_eq!(table.resolve(5), Some(SinkState::Waiting));
    assert_eq!(table.len(), 0);
}

#[test]
fn abandoned_entries_stay_until_resolved() {
    let mut table = CorrelationTable::new();
    table.register(1);
    table.register(2);
    table.abandon(1);
    // Marking does not remove: the id is still in flight.
    assert_eq!(table.len(), 2);
    assert_eq!(table.resolve(1), Some(SinkState::Abandoned));
    assert_eq!(table.resolve(2), Some(SinkState::Waiting));
    // Abandoning an unknown id is a no-op.
    table.abandon(42);
    assert_eq!(table.len(), 0);
}

#[test]
fn drain_returns_only_the_waiting_ids() {
    let mut table = CorrelationTable::new();
    table.register(1);
    table.register(2);
    table.register(3);
    table.abandon(2);
    let mut waiting = table.drain();
    waiting.sort();
    assert_eq!(waiting, vec![1, 3]);
    assert_eq!(table.len(), 0);
}
