//! Structured fault (DTC) store and asynchronous event queue.
//!
//! Faults come from engine protection and sensor validation; they are served
//! by the diagnostics requests and pushed as event frames. Both containers
//! have a fixed capacity.
use vstd::prelude::*;

verus! {

/// Maximum number of distinct fault records retained.
pub const MAX_FAULTS: usize = 16;

/// Maximum queued (not yet pushed) events.
pub const MAX_EVENTS: usize = 8;

/// CLT sensor short / out-of-range low.
pub const SENSOR_CLT: u16 = 0x0001;

/// IAT sensor short / out-of-range.
pub const SENSOR_IAT: u16 = 0x0002;

/// MAP reading implausible.
pub const MAP_IMPLAUSIBLE: u16 = 0x0003;

/// Engine over-rev.
pub const OVERREV: u16 = 0x0010;

/// Overboost.
pub const OVERBOOST: u16 = 0x0011;

/// Low oil pressure.
pub const LOW_OIL_PRESSURE: u16 = 0x0012;

/// Coolant over-temperature.
pub const OVER_TEMP: u16 = 0x0013;

/// Trigger synchronisation lost.
pub const TRIGGER_SYNC_LOSS: u16 = 0x0020;

/// Lambda reading implausible.
pub const LAMBDA_IMPLAUSIBLE: u16 = 0x0021;

/// Battery voltage low.
pub const BATTERY_LOW: u16 = 0x0030;

/// Battery voltage high.
pub const BATTERY_HIGH: u16 = 0x0031;

/// Fault severity (wire values 0, 1, 2 in declaration order).
#[derive(Clone, Copy, Debug, PartialEq, Eq, Structural)]
pub enum Severity {
    /// Informational only.
    Info,
    /// Degraded but driveable.
    Warn,
    /// Protection action taken.
    Critical,
}

/// One stored fault record.
#[derive(Clone, Copy, Debug)]
pub struct FaultRecord {
    /// Unique fault code.
    pub code: u16,
    /// Severity at last occurrence.
    pub severity: Severity,
    /// Still present right now.
    pub active: bool,
    /// Occurrence count.
    pub count: u16,
    /// First occurrence (ms since boot).
    pub first_ts_ms: u32,
    /// Latest occurrence (ms since boot).
    pub last_ts_ms: u32,
    /// Context-dependent detail (sensor id, cylinder, …).
    pub detail: u16,
}

/// Event kinds pushed as event frames (wire values 0–6 in declaration order).
#[derive(Clone, Copy, Debug, PartialEq, Eq, Structural)]
pub enum EventKind {
    /// New fault raised (`a` = code, `b` = detail).
    FaultSet,
    /// Fault resolved (`a` = code).
    FaultCleared,
    /// Knock detected (`a` = cylinder, `b` = retard milli-degrees).
    Knock,
    /// Protection ignition/fuel cut (`a` = reason).
    ProtectionCut,
    /// Limp mode transition (`a` = reason).
    LimpMode,
    /// Trigger sync gained (`a`=1) or lost (`a`=0); `b` = tooth count.
    SyncState,
    /// Config changed by another client (`a` = source).
    ConfigChanged,
}

/// One queued event.
#[derive(Clone, Copy, Debug)]
pub struct EventRecord {
    /// Event kind.
    pub kind: EventKind,
    /// Timestamp (ms since boot).
    pub ts_ms: u32,
    /// Kind-dependent payload A.
    pub a: i32,
    /// Kind-dependent payload B.
    pub b: i32,
}

/// Fixed-capacity storage of fault records (a `heapless::Vec` of capacity
/// [`MAX_FAULTS`]).
#[verifier::external_body]
pub struct FaultRecords {
    inner: heapless::Vec<FaultRecord, MAX_FAULTS>,
}

/// The records held by a [`FaultRecords`], in order.
pub uninterp spec fn fault_records(r: FaultRecords) -> Seq<FaultRecord>;

impl FaultRecords {
    /// `heapless::Vec::new`: an empty vector.
    #[verifier::external_body]
    fn new() -> (r: Self)
        ensures
            fault_records(r) == Seq::<FaultRecord>::empty(),
    {
        FaultRecords { inner: heapless::Vec::new() }
    }

    /// `heapless::Vec::len`, which never exceeds the capacity.
    #[verifier::external_body]
    fn len(&self) -> (n: usize)
        ensures
            n == fault_records(*self).len(),
            n <= MAX_FAULTS,
    {
        self.inner.len()
    }

    /// Indexing through `Deref` to the stored slice.
    #[verifier::external_body]
    fn get(&self, i: usize) -> (rec: FaultRecord)
        requires
            i < fault_records(*self).len(),
        ensures
            rec == fault_records(*self)[i as int],
    {
        self.inner[i]
    }

    /// Assignment through `DerefMut` to the stored slice.
    #[verifier::external_body]
    fn set(&mut self, i: usize, rec: FaultRecord)
        requires
            i < fault_records(*old(self)).len(),
        ensures
            fault_records(*final(self)) == fault_records(*old(self)).update(i as int, rec),
    {
        self.inner[i] = rec;
    }

    /// `heapless::Vec::push`: appends when below capacity, else hands the
    /// item back and changes nothing.
    #[verifier::external_body]
    fn push(&mut self, rec: FaultRecord) -> (r: Result<(), FaultRecord>)
        ensures
            r is Ok <==> fault_records(*old(self)).len() < MAX_FAULTS,
            r matches Err(back) ==> back == rec,
            r is Ok ==> fault_records(*final(self)) == fault_records(*old(self)).push(rec),
            r is Err ==> fault_records(*final(self)) == fault_records(*old(self)),
    {
        self.inner.push(rec)
    }

    /// `heapless::Vec::remove`: takes out the item at `i`, shifting the rest
    /// down.
    #[verifier::external_body]
    fn remove(&mut self, i: usize) -> (rec: FaultRecord)
        requires
            i < fault_records(*old(self)).len(),
        ensures
            rec == fault_records(*old(self))[i as int],
            fault_records(*final(self)) == fault_records(*old(self)).remove(i as int),
    {
        self.inner.remove(i)
    }
}

/// Index of the first record with fault code `code`.
pub open spec fn find_code(s: Seq<FaultRecord>, code: u16) -> Option<int>
    decreases s.len(),
{
    if s.len() == 0 {
        None
    } else if s[0].code == code {
        Some(0)
    } else {
        match find_code(s.drop_first(), code) {
            Some(i) => Some(i + 1),
            None => None,
        }
    }
}

proof fn lemma_find_code(s: Seq<FaultRecord>, code: u16, i: int)
    requires
        0 <= i <= s.len(),
        forall|k: int| 0 <= k < i ==> #[trigger] s[k].code != code,
    ensures
        i < s.len() && s[i].code == code ==> find_code(s, code) == Some(i),
        i == s.len() ==> find_code(s, code) is None,
    decreases i,
{
    if i > 0 {
        let t = s.drop_first();
        assert forall|k: int| 0 <= k < i - 1 implies #[trigger] t[k].code != code by {
            assert(t[k] == s[k + 1]);
        }
        if i < s.len() {
            assert(t[i - 1] == s[i]);
        }
        lemma_find_code(t, code, i - 1);
    }
}

/// No fault code is stored twice.
pub open spec fn codes_unique(s: Seq<FaultRecord>) -> bool {
    forall|i: int, j: int| 0 <= i < j < s.len() ==> #[trigger] s[i].code != #[trigger] s[j].code
}

/// The record after another occurrence of its fault.
pub open spec fn reraised(r: FaultRecord, severity: Severity, detail: u16, now_ms: u32) -> FaultRecord {
    FaultRecord {
        active: true,
        severity,
        count: if r.count == u16::MAX {
            u16::MAX
        } else {
            (r.count + 1) as u16
        },
        last_ts_ms: now_ms,
        detail,
        ..r
    }
}

/// The record of a first occurrence.
pub open spec fn first_record(code: u16, severity: Severity, detail: u16, now_ms: u32) -> FaultRecord {
    FaultRecord {
        code,
        severity,
        active: true,
        count: 1,
        first_ts_ms: now_ms,
        last_ts_ms: now_ms,
        detail,
    }
}

/// Whether `clear_mask(mask)` keeps the record `r` found at index `idx`:
/// active records always, others when their bit (`min(idx, 31)`) is clear.
pub open spec fn kept_by_mask(r: FaultRecord, mask: u32, idx: int) -> bool {
    r.active || mask & (1u32 << (if idx < 31 {
        idx
    } else {
        31
    }) as u32) == 0
}

/// The records `clear_mask(mask)` keeps, in order.
pub open spec fn retained(s: Seq<FaultRecord>, mask: u32) -> Seq<FaultRecord>
    decreases s.len(),
{
    if s.len() == 0 {
        s
    } else {
        let prev = retained(s.drop_last(), mask);
        if kept_by_mask(s.last(), mask, s.len() - 1) {
            prev.push(s.last())
        } else {
            prev
        }
    }
}

/// Fixed-capacity fault store.
pub struct FaultStore {
    records: FaultRecords,
}

impl View for FaultStore {
    type V = Seq<FaultRecord>;

    closed spec fn view(&self) -> Seq<FaultRecord> {
        fault_records(self.records)
    }
}

impl FaultStore {
    #[verifier::type_invariant]
    closed spec fn wf(&self) -> bool {
        codes_unique(fault_records(self.records))
    }

    /// Create an empty store.
    pub fn new() -> (r: Self)
        ensures
            r@ == Seq::<FaultRecord>::empty(),
    {
        FaultStore { records: FaultRecords::new() }
    }

    /// Position of the first record satisfying the lookup, scanning in order.
    fn position(&self, code: u16, only_active: bool) -> (r: Option<usize>)
        ensures
            !only_active ==> r == (match find_code(self@, code) {
                Some(i) => Some(i as usize),
                None => None::<usize>,
            }),
            only_active ==> (r is Some <==> (find_code(self@, code) matches Some(i)
                && self@[i].active)),
            only_active ==> (r matches Some(i) ==> find_code(self@, code) == Some(i as int)),
            r matches Some(i) ==> i < self@.len() && self@[i as int].code == code,
    {
        proof {
            use_type_invariant(self);
        }
        let n = self.records.len();
        let mut i: usize = 0;
        while i < n
            invariant
                n == self@.len(),
                i <= n,
                codes_unique(self@),
                forall|k: int| 0 <= k < i ==> #[trigger] self@[k].code != code || (only_active
                    && !self@[k].active),
            decreases n - i,
        {
            let rec = self.records.get(i);
            if rec.code == code && (!only_active || rec.active) {
                proof {
                    assert forall|k: int| 0 <= k < i implies #[trigger] self@[k].code != code by {
                        if self@[k].code == code {
                            assert(self@[k].code != self@[i as int].code);
                        }
                    }
                    lemma_find_code(self@, code, i as int);
                }
                return Some(i);
            }
            i += 1;
        }
        proof {
            if only_active {
                if let Some(j) = find_code(self@, code) {
                    lemma_find_code_found(self@, code);
                }
            } else {
                lemma_find_code(self@, code, n as int);
            }
        }
        None
    }

    /// Record a fault occurrence. Returns `true` when this is a new (or
    /// re-activated) fault, for which the caller emits a `FaultSet` event.
    /// A new fault that finds the store full is not recorded (`false`).
    pub fn raise(&mut self, code: u16, severity: Severity, detail: u16, now_ms: u32) -> (r: bool)
        ensures
            match find_code(old(self)@, code) {
                Some(i) => r == !old(self)@[i].active && final(self)@ == old(self)@.update(
                    i,
                    reraised(old(self)@[i], severity, detail, now_ms),
                ),
                None => if old(self)@.len() < MAX_FAULTS {
                    r && final(self)@ == old(self)@.push(
                        first_record(code, severity, detail, now_ms),
                    )
                } else {
                    !r && final(self)@ == old(self)@
                },
            },
    {
        proof {
            use_type_invariant(&*self);
            lemma_find_code_found(self@, code);
        }
        match self.position(code, false) {
            Some(i) => {
                let mut rec = self.records.get(i);
                let newly_active = !rec.active;
                rec.active = true;
                rec.severity = severity;
                rec.count = rec.count.saturating_add(1);
                rec.last_ts_ms = now_ms;
                rec.detail = detail;
                proof {
                    let t = self@.update(i as int, rec);
                    assert forall|a: int, b: int| 0 <= a < b < t.len() implies #[trigger] t[a].code
                        != #[trigger] t[b].code by {
                        assert(self@[a].code != self@[b].code);
                    }
                }
                let mut records = FaultRecords::new();
                std::mem::swap(&mut records, &mut self.records);
                records.set(i, rec);
                self.records = records;
                newly_active
            },
            None => {
                let rec = FaultRecord {
                    code,
                    severity,
                    active: true,
                    count: 1,
                    first_ts_ms: now_ms,
                    last_ts_ms: now_ms,
                    detail,
                };
                proof {
                    let t = self@.push(rec);
                    lemma_find_code_absent(self@, code);
                    assert forall|a: int, b: int| 0 <= a < b < t.len() implies #[trigger] t[a].code
                        != #[trigger] t[b].code by {
                        if b < self@.len() {
                            assert(self@[a].code != self@[b].code);
                        }
                    }
                }
                let mut records = FaultRecords::new();
                std::mem::swap(&mut records, &mut self.records);
                let pushed = records.push(rec);
                self.records = records;
                pushed.is_ok()
            },
        }
    }

    /// Mark a fault as no longer present (kept for history). Returns `true`
    /// if the fault was active, for which the caller emits `FaultCleared`.
    pub fn resolve(&mut self, code: u16) -> (r: bool)
        ensures
            match find_code(old(self)@, code) {
                Some(i) => r == old(self)@[i].active && final(self)@ == old(self)@.update(
                    i,
                    FaultRecord { active: false, ..old(self)@[i] },
                ),
                None => !r && final(self)@ == old(self)@,
            },
    {
        proof {
            use_type_invariant(&*self);
        }
        match self.position(code, true) {
            Some(i) => {
                let mut rec = self.records.get(i);
                rec.active = false;
                proof {
                    let t = self@.update(i as int, rec);
                    assert forall|a: int, b: int| 0 <= a < b < t.len() implies #[trigger] t[a].code
                        != #[trigger] t[b].code by {
                        assert(self@[a].code != self@[b].code);
                    }
                }
                let mut records = FaultRecords::new();
                std::mem::swap(&mut records, &mut self.records);
                records.set(i, rec);
                self.records = records;
                true
            },
            None => {
                proof {
                    lemma_find_code_found(self@, code);
                    if let Some(j) = find_code(self@, code) {
                        assert(!self@[j].active);
                        assert(self@.update(j, FaultRecord { active: false, ..self@[j] }) =~= self@);
                    }
                }
                false
            },
        }
    }

    /// Clear stored faults by index bitmask (bit `i` clears the record at
    /// index `i`; indices from 31 on share bit 31). Active faults are
    /// retained. Returns the number of records removed.
    pub fn clear_mask(&mut self, mask: u32) -> (r: u16)
        ensures
            final(self)@ == retained(old(self)@, mask),
            r == old(self)@.len() - final(self)@.len(),
    {
        proof {
            use_type_invariant(&*self);
        }
        let ghost orig = self@;
        let mut records = FaultRecords::new();
        std::mem::swap(&mut records, &mut self.records);
        let n = records.len();
        let mut cleared: u16 = 0;
        let mut i: usize = 0;
        let mut j: usize = 0;
        assert(retained(orig.take(0), mask) =~= Seq::<FaultRecord>::empty());
        assert(orig.skip(0) =~= orig);
        while i < n
            invariant
                n == orig.len(),
                n <= MAX_FAULTS,
                i <= n,
                j <= i,
                cleared == i - j,
                codes_unique(orig),
                j == retained(orig.take(i as int), mask).len(),
                fault_records(records) == retained(orig.take(i as int), mask) + orig.skip(i as int),
            decreases n - i,
        {
            let ghost cur = fault_records(records);
            let ghost pre = retained(orig.take(i as int), mask);
            assert(orig.take(i + 1).drop_last() =~= orig.take(i as int));
            assert(cur[j as int] == orig[i as int]);
            let rec = records.get(j);
            if rec.active || mask & (1u32 << (if i < 31 {
                i as u32
            } else {
                31u32
            })) == 0 {
                proof {
                    assert(retained(orig.take(i + 1), mask) =~= pre.push(orig[i as int]));
                    assert(fault_records(records) =~= pre.push(orig[i as int]) + orig.skip(i + 1));
                }
                j += 1;
            } else {
                records.remove(j);
                proof {
                    assert(retained(orig.take(i + 1), mask) =~= pre);
                    assert(fault_records(records) =~= pre + orig.skip(i + 1));
                }
                cleared += 1;
            }
            i += 1;
        }
        assert(orig.take(n as int) =~= orig);
        assert(fault_records(records) =~= retained(orig, mask));
        proof {
            lemma_retained(orig, mask);
        }
        self.records = records;
        cleared
    }

    /// The stored records, in order.
    pub fn records(&self) -> (r: Vec<FaultRecord>)
        ensures
            r@ == self@,
    {
        let n = self.records.len();
        let mut r: Vec<FaultRecord> = Vec::new();
        let mut i: usize = 0;
        while i < n
            invariant
                n == self@.len(),
                i <= n,
                r@ == self@.take(i as int),
            decreases n - i,
        {
            r.push(self.records.get(i));
            assert(r@ =~= self@.take(i + 1));
            i += 1;
        }
        assert(r@ =~= self@);
        r
    }

    /// Number of stored records.
    pub fn len(&self) -> (r: usize)
        ensures
            r == self@.len(),
            r <= MAX_FAULTS,
    {
        self.records.len()
    }

    /// True when no faults are stored.
    pub fn is_empty(&self) -> (r: bool)
        ensures
            r == (self@.len() == 0),
    {
        self.records.len() == 0
    }
}

proof fn lemma_find_code_found(s: Seq<FaultRecord>, code: u16)
    ensures
        find_code(s, code) matches Some(i) ==> 0 <= i < s.len() && s[i].code == code && forall|
            k: int,
        | 0 <= k < i ==> #[trigger] s[k].code != code,
    decreases s.len(),
{
    if s.len() > 0 && s[0].code != code {
        let t = s.drop_first();
        lemma_find_code_found(t, code);
        if let Some(i) = find_code(t, code) {
            assert forall|k: int| 0 <= k < i + 1 implies #[trigger] s[k].code != code by {
                if k > 0 {
                    assert(s[k] == t[k - 1]);
                }
            }
        }
    }
}

proof fn lemma_find_code_absent(s: Seq<FaultRecord>, code: u16)
    ensures
        find_code(s, code) is None ==> forall|k: int| 0 <= k < s.len() ==> #[trigger] s[k].code
            != code,
    decreases s.len(),
{
    if s.len() > 0 && s[0].code != code {
        let t = s.drop_first();
        lemma_find_code_absent(t, code);
        if find_code(s, code) is None {
            assert forall|k: int| 0 <= k < s.len() implies #[trigger] s[k].code != code by {
                if k > 0 {
                    assert(s[k] == t[k - 1]);
                }
            }
        }
    }
}

proof fn lemma_retained(s: Seq<FaultRecord>, mask: u32)
    ensures
        retained(s, mask).len() <= s.len(),
        forall|a: int| 0 <= a < retained(s, mask).len() ==> s.contains(#[trigger] retained(s, mask)[a]),
        codes_unique(s) ==> codes_unique(retained(s, mask)),
    decreases s.len(),
{
    if s.len() > 0 {
        let d = s.drop_last();
        lemma_retained(d, mask);
        let prev = retained(d, mask);
        let r = retained(s, mask);
        assert forall|a: int| 0 <= a < r.len() implies s.contains(#[trigger] r[a]) by {
            if a < prev.len() {
                assert(r[a] == prev[a]);
                assert(d.contains(prev[a]));
                let k = choose|k: int| 0 <= k < d.len() && d[k] == prev[a];
                assert(s[k] == d[k]);
            } else {
                assert(r[a] == s[s.len() - 1]);
            }
        }
        if codes_unique(s) {
            assert(codes_unique(d)) by {
                assert forall|x: int, y: int| 0 <= x < y < d.len() implies #[trigger] d[x].code
                    != #[trigger] d[y].code by {
                    assert(s[x].code != s[y].code);
                }
            }
            assert forall|x: int, y: int| 0 <= x < y < r.len() implies #[trigger] r[x].code
                != #[trigger] r[y].code by {
                if y < prev.len() {
                    assert(r[x] == prev[x]);
                    assert(r[y] == prev[y]);
                } else {
                    assert(r[x] == prev[x]);
                    assert(d.contains(prev[x]));
                    let k = choose|k: int| 0 <= k < d.len() && d[k] == prev[x];
                    assert(s[k].code != s[s.len() - 1].code);
                }
            }
        }
    }
}

impl Default for FaultStore {
    fn default() -> (r: Self)
        ensures
            r@ == Seq::<FaultRecord>::empty(),
    {
        FaultStore::new()
    }
}

/// Fixed-capacity FIFO storage of events (a `heapless::Deque` of capacity
/// [`MAX_EVENTS`]).
#[verifier::external_body]
pub struct EventRing {
    inner: heapless::Deque<EventRecord, MAX_EVENTS>,
}

/// The events held by an [`EventRing`], oldest first.
pub uninterp spec fn ring_events(r: EventRing) -> Seq<EventRecord>;

impl EventRing {
    /// `heapless::Deque::new`: an empty deque.
    #[verifier::external_body]
    fn new() -> (r: Self)
        ensures
            ring_events(r) == Seq::<EventRecord>::empty(),
    {
        EventRing { inner: heapless::Deque::new() }
    }

    /// `heapless::Deque::len`, which never exceeds the capacity.
    #[verifier::external_body]
    fn len(&self) -> (n: usize)
        ensures
            n == ring_events(*self).len(),
            n <= MAX_EVENTS,
    {
        self.inner.len()
    }

    /// `heapless::Deque::push_back`: appends when not full, else hands the
    /// item back and changes nothing.
    #[verifier::external_body]
    fn push_back(&mut self, rec: EventRecord) -> (r: Result<(), EventRecord>)
        ensures
            r is Ok <==> ring_events(*old(self)).len() < MAX_EVENTS,
            r matches Err(back) ==> back == rec,
            r is Ok ==> ring_events(*final(self)) == ring_events(*old(self)).push(rec),
            r is Err ==> ring_events(*final(self)) == ring_events(*old(self)),
    {
        self.inner.push_back(rec)
    }

    /// `heapless::Deque::pop_front`: takes the oldest item, `None` when
    /// empty.
    #[verifier::external_body]
    fn pop_front(&mut self) -> (r: Option<EventRecord>)
        ensures
            ring_events(*old(self)).len() == 0 ==> r is None && ring_events(*final(self))
                == ring_events(*old(self)),
            ring_events(*old(self)).len() > 0 ==> r == Some(ring_events(*old(self))[0])
                && ring_events(*final(self)) == ring_events(*old(self)).drop_first(),
    {
        self.inner.pop_front()
    }
}

/// The queue after pushing `rec` onto `q`: the newest [`MAX_EVENTS`] of
/// `q` followed by `rec`.
pub open spec fn pushed_events(q: Seq<EventRecord>, rec: EventRecord) -> Seq<EventRecord> {
    let all = q.push(rec);
    if all.len() > MAX_EVENTS {
        all.skip(all.len() - MAX_EVENTS)
    } else {
        all
    }
}

/// FIFO queue of pending push events; the oldest events are dropped on
/// overflow.
pub struct EventQueue {
    queue: EventRing,
}

impl View for EventQueue {
    type V = Seq<EventRecord>;

    closed spec fn view(&self) -> Seq<EventRecord> {
        ring_events(self.queue)
    }
}

impl EventQueue {
    /// Create an empty queue.
    pub fn new() -> (r: Self)
        ensures
            r@ == Seq::<EventRecord>::empty(),
    {
        EventQueue { queue: EventRing::new() }
    }

    /// Queue an event, dropping the oldest entry when full.
    pub fn push(&mut self, kind: EventKind, ts_ms: u32, a: i32, b: i32)
        ensures
            final(self)@ == pushed_events(old(self)@, EventRecord { kind, ts_ms, a, b }),
    {
        let rec = EventRecord { kind, ts_ms, a, b };
        let held = self.queue.len();
        assert(held <= MAX_EVENTS);
        if self.queue.push_back(rec).is_err() {
            let _ = self.queue.pop_front();
            let _ = self.queue.push_back(rec);
            proof {
                assert(self@ =~= pushed_events(old(self)@, rec));
            }
        }
    }

    /// Take the next pending event (the oldest).
    pub fn pop(&mut self) -> (r: Option<EventRecord>)
        ensures
            old(self)@.len() == 0 ==> r is None && final(self)@ == old(self)@,
            old(self)@.len() > 0 ==> r == Some(old(self)@[0]) && final(self)@ == old(
                self,
            )@.drop_first(),
    {
        self.queue.pop_front()
    }

    /// Number of queued events.
    pub fn len(&self) -> (r: usize)
        ensures
            r == self@.len(),
            r <= MAX_EVENTS,
    {
        self.queue.len()
    }

    /// True when no events are queued.
    pub fn is_empty(&self) -> (r: bool)
        ensures
            r == (self@.len() == 0),
    {
        self.queue.len() == 0
    }
}

impl Default for EventQueue {
    fn default() -> (r: Self)
        ensures
            r@ == Seq::<EventRecord>::empty(),
    {
        EventQueue::new()
    }
}

/// `clear_mask` never removes an active fault, nor a record whose mask bit
/// is clear.
pub proof fn lemma_clear_mask_keeps_active(s: Seq<FaultRecord>, mask: u32, i: int)
    requires
        0 <= i < s.len(),
        kept_by_mask(s[i], mask, i),
    ensures
        retained(s, mask).contains(s[i]),
    decreases s.len(),
{
    let d = s.drop_last();
    let prev = retained(d, mask);
    if i == s.len() - 1 {
        assert(retained(s, mask).last() == s[i]);
    } else {
        assert(d[i] == s[i]);
        lemma_clear_mask_keeps_active(d, mask, i);
        let k = choose|k: int| 0 <= k < prev.len() && prev[k] == s[i];
        assert(retained(s, mask)[k] == s[i]);
    }
}

/// Pushing onto the event queue keeps at most [`MAX_EVENTS`] events: the
/// newest ones, in arrival order, ending with the event just pushed; only
/// the oldest is dropped when the queue was full.
pub proof fn lemma_push_drops_oldest(q: Seq<EventRecord>, rec: EventRecord)
    requires
        q.len() <= MAX_EVENTS,
    ensures
        pushed_events(q, rec).len() == if q.len() < MAX_EVENTS {
            q.len() + 1
        } else {
            MAX_EVENTS as nat
        },
        pushed_events(q, rec).last() == rec,
        q.len() < MAX_EVENTS ==> pushed_events(q, rec) == q.push(rec),
        q.len() == MAX_EVENTS ==> pushed_events(q, rec) == q.drop_first().push(rec),
{
    if q.len() == MAX_EVENTS {
        assert(pushed_events(q, rec) =~= q.drop_first().push(rec));
    }
}

} // verus!
