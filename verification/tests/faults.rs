use rustems::comms::faults::{
    EventKind, EventQueue, FaultStore, Severity, BATTERY_LOW, MAX_EVENTS, MAX_FAULTS, OVERREV,
    OVER_TEMP,
};

#[test]
fn raise_and_count() {
    let mut store = FaultStore::new();
    assert!(store.raise(OVER_TEMP, Severity::Critical, 0, 100));
    // Second raise of an already-active fault: no new event
    assert!(!store.raise(OVER_TEMP, Severity::Critical, 0, 200));
    let rec = store.records()[0];
    assert_eq!(rec.count, 2);
    assert_eq!(rec.first_ts_ms, 100);
    assert_eq!(rec.last_ts_ms, 200);
}

#[test]
fn resolve_then_reraise_signals_event() {
    let mut store = FaultStore::new();
    assert!(store.raise(BATTERY_LOW, Severity::Warn, 0, 0));
    assert!(store.resolve(BATTERY_LOW));
    assert!(!store.resolve(BATTERY_LOW));
    assert!(store.raise(BATTERY_LOW, Severity::Warn, 0, 10));
}

#[test]
fn clear_mask_keeps_active() {
    let mut store = FaultStore::new();
    store.raise(OVERREV, Severity::Warn, 0, 0);
    store.raise(BATTERY_LOW, Severity::Warn, 0, 0);
    store.resolve(OVERREV); // index 0 inactive
    let cleared = store.clear_mask(0b11);
    assert_eq!(cleared, 1);
    assert_eq!(store.len(), 1);
    assert_eq!(store.records()[0].code, BATTERY_LOW);
}

#[test]
fn event_queue_drops_oldest() {
    let mut q = EventQueue::new();
    for i in 0..(MAX_EVENTS as i32 + 2) {
        q.push(EventKind::Knock, i as u32, i, 0);
    }
    assert_eq!(q.len(), MAX_EVENTS);
    assert_eq!(q.pop().unwrap().a, 2); // 0 and 1 dropped
}

#[test]
fn store_full_rejects_new_codes_but_updates_known_ones() {
    let mut store = FaultStore::default();
    assert!(store.is_empty());
    for code in 0..MAX_FAULTS as u16 {
        assert!(store.raise(code, Severity::Info, code, 1));
    }
    assert_eq!(store.len(), MAX_FAULTS);
    assert!(!store.raise(100, Severity::Critical, 0, 2));
    assert_eq!(store.len(), MAX_FAULTS);
    assert!(store.resolve(3));
    assert!(store.raise(3, Severity::Critical, 9, 5));
    let rec = store.records()[3];
    assert_eq!((rec.code, rec.count, rec.detail, rec.last_ts_ms), (3, 2, 9, 5));
    assert_eq!(rec.severity, Severity::Critical);
}

#[test]
fn count_saturates() {
    let mut store = FaultStore::new();
    store.raise(7, Severity::Warn, 0, 0);
    for _ in 0..70_000u32 {
        store.raise(7, Severity::Warn, 0, 0);
    }
    assert_eq!(store.records()[0].count, u16::MAX);
}

#[test]
fn clear_mask_by_index_bits() {
    let mut store = FaultStore::new();
    for code in 0..4u16 {
        store.raise(code, Severity::Warn, 0, 0);
        store.resolve(code);
    }
    assert_eq!(store.clear_mask(0b0101), 2);
    let codes: Vec<u16> = store.records().iter().map(|r| r.code).collect();
    assert_eq!(codes, vec![1, 3]);
    assert_eq!(store.clear_mask(0), 0);
}

#[test]
fn event_queue_fifo_order() {
    let mut q = EventQueue::default();
    assert!(q.is_empty());
    assert!(q.pop().is_none());
    q.push(EventKind::FaultSet, 1, 10, 0);
    q.push(EventKind::FaultCleared, 2, 20, 0);
    let first = q.pop().unwrap();
    assert_eq!((first.kind, first.a), (EventKind::FaultSet, 10));
    assert_eq!(q.pop().unwrap().kind, EventKind::FaultCleared);
    assert!(q.is_empty());
}
