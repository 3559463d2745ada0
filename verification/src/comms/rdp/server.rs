//! The device-side RDP request dispatcher: the opcode dispatch, the config
//! transaction (Save / Discard / ResetDefaults / Status) and the stream,
//! override, bench-test and fault operations.
//!
//! The caller decodes the request body (CBOR) into an [`RdpRequest`], hands
//! in what the server reads of the engine ([`RdpInputs`]), encodes the
//! [`RdpReply`] and performs the [`RdpActions`]. Where a reply carries
//! measured values (one-shot reads, calibration results) the reply names
//! what to read and the caller reads it. The operations on the engine
//! configuration parameters and tables (with Hello and the schema info,
//! which describe them) come back as [`RdpReply::Forward`]: the caller,
//! which holds that configuration, answers them.
use vstd::prelude::*;

use crate::cbor::{
    BenchTestRequest, ClearFaultsRequest, ClearOverrideRequest, ConfigResetDefaultsRequest,
    EnterBootloaderRequest, GetCatalogRequest, PingRequest, UnsubscribeRequest,
};
use crate::comms::control::{
    clamp_timeout, BenchTarget, BenchTestSpec, CalibrateRoutine, OverrideSlot, OverrideTarget,
    Overrides, OVERRIDE_TARGETS,
};
use crate::comms::faults::{
    find_code, first_record, pushed_events, reraised, retained, EventKind, EventQueue,
    EventRecord, FaultRecord, FaultStore, Severity, MAX_FAULTS,
};
use crate::comms::rdp::{DeviceIdentity, RdpActions, BOOTLOADER_CONFIRM, RESET_DEFAULTS_CONFIRM};
use crate::comms::telemetry::{
    catalog_total_pages, channel_wire, clamp_rate, first_bad_channel, first_free, no_streams,
    StreamModel, SubscribeError, TelemetryStreams, MAX_STREAMS, MAX_STREAM_CHANNELS,
};
use crate::message::op;
use crate::message::{ErrorCode, Kind, MessageHeader};

verus! {

/// A request body, decoded by the caller according to the opcode.
pub enum RdpRequest {
    /// No body was decoded: the opcode takes none, or it did not decode as
    /// the opcode's request.
    Undecoded,
    /// `Ping`.
    Ping(PingRequest),
    /// `EnterBootloader`.
    EnterBootloader(EnterBootloaderRequest),
    /// `ConfigResetDefaults`.
    ConfigResetDefaults(ConfigResetDefaultsRequest),
    /// `TelemSubscribe`: channel IDs and requested rate.
    Subscribe { channels: Vec<u16>, rate_hz: u16 },
    /// `TelemUnsubscribe`.
    Unsubscribe(UnsubscribeRequest),
    /// `BenchTest`.
    BenchTest(BenchTestRequest),
    /// `SetOverride`: target, value (as `f32` bits) and timeout.
    SetOverride { target: u8, value: u32, timeout_ms: u16 },
    /// `ClearOverride`.
    ClearOverride(ClearOverrideRequest),
    /// `ClearFaults`.
    ClearFaults(ClearFaultsRequest),
    /// `GetTelemetryCatalog`.
    TelemetryCatalog(GetCatalogRequest),
    /// `ReadOnce`: the channels to read.
    ReadOnce { channels: Vec<u16> },
    /// `Calibrate`: the routine to run.
    Calibrate { routine: u8 },
}

/// What the server reads of the engine for one request.
#[derive(Clone, Copy, Debug, PartialEq, Eq, Structural)]
pub struct RdpInputs {
    /// True while the engine is rotating (gates stopped-only operations).
    pub engine_running: bool,
    /// Milliseconds since boot.
    pub now_ms: u32,
    /// CRC of the live (RAM) configuration.
    pub ram_crc: u32,
    /// Size in bytes of the configuration that a save persists.
    pub config_bytes: u32,
}

/// The response the caller encodes (`KIND=Response`, same opcode).
#[derive(Clone, Copy, Debug, PartialEq, Eq, Structural)]
pub enum RdpReply {
    /// No response: the message was not a request.
    Silent,
    /// A status response with its code and detail.
    Status(ErrorCode, u16),
    /// `PingResponse`.
    Pong { nonce: u32, uptime_ms: u32 },
    /// `ConfigSaveResponse`.
    Saved { saved_bytes: u32, crc: u32 },
    /// `ConfigStatusResponse`.
    ConfigStatus { dirty: bool, ram_crc: u32, flash_crc: u32 },
    /// `SubscribeResponse` (its layout is the requested channel list).
    Subscribed { stream_id: u8, rate_hz: u16 },
    /// `ClearFaultsResponse`.
    FaultsCleared(u16),
    /// `GetFaultsResponse` listing the server's fault records.
    FaultList,
    /// `GetTelemetryCatalogResponse` for `page` of `total_pages`, listing the
    /// channels [`crate::comms::telemetry::telemetry_catalog_page`] gives.
    TelemetryCatalog { page: u16, total_pages: u16 },
    /// `ReadOnceResponse` with the current values of the requested channels,
    /// all of which exist, in request order.
    ReadOnce,
    /// `CalibrateResponse` for the routine: the caller learns the measured
    /// value (throttle position for the throttle routines, manifold pressure
    /// for the barometric one) and answers it; clearing adaptive learning
    /// answers no value.
    Calibrated(CalibrateRoutine),
    /// An operation on data the caller holds (identity and schema, catalogs,
    /// parameters and tables, live values, calibrations): the caller answers.
    Forward,
}

/// Abstract state of an [`RdpServer`].
pub struct RdpServerModel {
    /// Telemetry subscriptions.
    pub streams: Seq<Option<StreamModel>>,
    /// Fault records.
    pub faults: Seq<FaultRecord>,
    /// Pending push events, oldest first.
    pub events: Seq<EventRecord>,
    /// Active overrides, by target.
    pub overrides: Seq<Option<OverrideSlot>>,
    /// Bench test queued for the control loop.
    pub pending_bench: Option<BenchTestSpec>,
    /// RAM config has unsaved edits.
    pub dirty: bool,
    /// CRC of the persisted configuration.
    pub flash_crc: u32,
    /// Adaptive learning is to be cleared.
    pub clear_adaptive: bool,
}

/// No side effect.
pub open spec fn no_actions() -> RdpActions {
    RdpActions {
        save: false,
        reboot: false,
        enter_bootloader: false,
        restore_flash: false,
        restore_defaults: false,
    }
}

/// The status reply with code `c` and detail 0.
pub open spec fn status(c: ErrorCode) -> RdpReply {
    RdpReply::Status(c, 0)
}

/// The bench target with wire value `v` (0..=5).
pub open spec fn bench_target_of(v: u8) -> BenchTarget {
    if v == 0 {
        BenchTarget::Injector
    } else if v == 1 {
        BenchTarget::IgnitionCoil
    } else if v == 2 {
        BenchTarget::FuelPump
    } else if v == 3 {
        BenchTarget::Fan
    } else if v == 4 {
        BenchTarget::Idle
    } else {
        BenchTarget::Tachometer
    }
}

/// The calibration routine with wire value `v` (0..=3).
pub open spec fn calibrate_routine_of(v: u8) -> CalibrateRoutine {
    if v == 0 {
        CalibrateRoutine::TpsClosed
    } else if v == 1 {
        CalibrateRoutine::TpsOpen
    } else if v == 2 {
        CalibrateRoutine::MapBaro
    } else {
        CalibrateRoutine::ClearAdaptive
    }
}

/// The opcodes the caller answers (see [`RdpReply::Forward`]): those on the
/// engine configuration parameters and tables.
pub open spec fn forwarded(opcode: u16) -> bool {
    opcode == op::HELLO || opcode == op::GET_SCHEMA_INFO || opcode == op::GET_PARAM_CATALOG
        || opcode == op::GET_TABLE_CATALOG || opcode == op::PARAM_GET || opcode == op::PARAM_SET
        || opcode == op::TABLE_GET || opcode == op::TABLE_SET_CELL || opcode == op::TABLE_SET_AXIS
}

/// A subscription on stream table `s`: the new table and the outcome, as
/// [`TelemetryStreams::subscribe`] states it.
pub open spec fn subscribe_outcome(s: Seq<Option<StreamModel>>, channels: Seq<u16>, rate_hz: u16, now_ms: u32) -> (
    Seq<Option<StreamModel>>,
    Result<(u8, u16), SubscribeError>,
) {
    if channels.len() > MAX_STREAM_CHANNELS {
        (s, Err(SubscribeError::TooManyChannels))
    } else {
        match first_bad_channel(channels) {
            Some(k) => (s, Err(SubscribeError::BadChannel(channels[k]))),
            None => match first_free(s) {
                None => (s, Err(SubscribeError::NoFreeStream)),
                Some(i) => (
                    s.update(
                        i,
                        Some(
                            StreamModel {
                                channels,
                                interval_ms: (1000int / clamp_rate(rate_hz) as int) as u32,
                                next_due_ms: now_ms,
                                seq: 0,
                            },
                        ),
                    ),
                    Ok(((i + 1) as u8, clamp_rate(rate_hz))),
                ),
            },
        }
    }
}

/// The reply to a subscription outcome.
pub open spec fn subscribe_reply(r: Result<(u8, u16), SubscribeError>) -> RdpReply {
    match r {
        Ok((id, rate)) => RdpReply::Subscribed { stream_id: id, rate_hz: rate },
        Err(SubscribeError::BadChannel(ch)) => RdpReply::Status(ErrorCode::NotFound, ch),
        Err(SubscribeError::NoFreeStream) => status(ErrorCode::Busy),
        Err(SubscribeError::TooManyChannels) => status(ErrorCode::BadRequest),
    }
}

/// One request on server state `m`: the next state, the reply and the side
/// effects.
pub open spec fn spec_rdp_step(m: RdpServerModel, h: MessageHeader, req: RdpRequest, inp: RdpInputs) -> (
    RdpServerModel,
    (RdpReply, RdpActions),
) {
    let none = no_actions();
    let ok = status(ErrorCode::Success);
    let bad = status(ErrorCode::BadRequest);
    if h.kind != Kind::Request {
        (m, (RdpReply::Silent, none))
    } else if h.op == op::PING {
        let nonce = match req {
            RdpRequest::Ping(p) => p.nonce,
            _ => 0u32,
        };
        (m, (RdpReply::Pong { nonce, uptime_ms: inp.now_ms }, none))
    } else if h.op == op::REBOOT {
        (m, (ok, RdpActions { reboot: true, ..none }))
    } else if h.op == op::ENTER_BOOTLOADER {
        if req matches RdpRequest::EnterBootloader(r) && r.confirm == BOOTLOADER_CONFIRM {
            (m, (ok, RdpActions { enter_bootloader: true, ..none }))
        } else {
            (m, (bad, none))
        }
    } else if h.op == op::CONFIG_SAVE {
        (
            RdpServerModel { dirty: false, flash_crc: inp.ram_crc, ..m },
            (RdpReply::Saved { saved_bytes: inp.config_bytes, crc: inp.ram_crc }, RdpActions {
                save: true,
                ..none
            }),
        )
    } else if h.op == op::CONFIG_DISCARD {
        (RdpServerModel { dirty: false, ..m }, (ok, RdpActions { restore_flash: true, ..none }))
    } else if h.op == op::CONFIG_RESET_DEFAULTS {
        if req matches RdpRequest::ConfigResetDefaults(r) && r.confirm == RESET_DEFAULTS_CONFIRM {
            if inp.engine_running {
                (m, (status(ErrorCode::Busy), none))
            } else {
                (
                    RdpServerModel { dirty: true, ..m },
                    (ok, RdpActions { restore_defaults: true, ..none }),
                )
            }
        } else {
            (m, (bad, none))
        }
    } else if h.op == op::CONFIG_STATUS {
        (
            m,
            (RdpReply::ConfigStatus { dirty: m.dirty, ram_crc: inp.ram_crc, flash_crc: m.flash_crc }, none),
        )
    } else if h.op == op::TELEM_SUBSCRIBE {
        match req {
            RdpRequest::Subscribe { channels, rate_hz } => {
                let (s2, res) = subscribe_outcome(m.streams, channels@, rate_hz, inp.now_ms);
                (RdpServerModel { streams: s2, ..m }, (subscribe_reply(res), none))
            },
            _ => (m, (bad, none)),
        }
    } else if h.op == op::TELEM_UNSUBSCRIBE {
        match req {
            RdpRequest::Unsubscribe(r) => if 1 <= r.stream_id <= MAX_STREAMS && m.streams[r.stream_id
                - 1] is Some {
                (RdpServerModel { streams: m.streams.update(r.stream_id - 1, None), ..m }, (ok, none))
            } else {
                (m, (RdpReply::Status(ErrorCode::NotFound, r.stream_id as u16), none))
            },
            _ => (m, (bad, none)),
        }
    } else if h.op == op::BENCH_TEST {
        match req {
            RdpRequest::BenchTest(r) => if inp.engine_running {
                (m, (status(ErrorCode::Busy), none))
            } else if r.target > 5 {
                (m, (RdpReply::Status(ErrorCode::NotFound, r.target as u16), none))
            } else {
                (
                    RdpServerModel {
                        pending_bench: Some(
                            BenchTestSpec {
                                target: bench_target_of(r.target),
                                index: r.index,
                                on_ms: r.on_ms,
                                off_ms: r.off_ms,
                                count: r.count,
                            },
                        ),
                        ..m
                    },
                    (ok, none),
                )
            },
            _ => (m, (bad, none)),
        }
    } else if h.op == op::SET_OVERRIDE {
        match req {
            RdpRequest::SetOverride { target, value, timeout_ms } => if target < OVERRIDE_TARGETS {
                (
                    RdpServerModel {
                        overrides: m.overrides.update(
                            target as int,
                            Some(
                                OverrideSlot {
                                    value,
                                    expires_ms: vstd::wrapping::u32_specs::wrapping_add(
                                        inp.now_ms,
                                        clamp_timeout(timeout_ms),
                                    ),
                                },
                            ),
                        ),
                        ..m
                    },
                    (ok, none),
                )
            } else {
                (m, (RdpReply::Status(ErrorCode::NotFound, target as u16), none))
            },
            _ => (m, (bad, none)),
        }
    } else if h.op == op::CLEAR_OVERRIDE {
        match req {
            RdpRequest::ClearOverride(r) => if r.target < OVERRIDE_TARGETS {
                (RdpServerModel { overrides: m.overrides.update(r.target as int, None), ..m }, (ok, none))
            } else {
                (m, (RdpReply::Status(ErrorCode::NotFound, r.target as u16), none))
            },
            _ => (m, (bad, none)),
        }
    } else if h.op == op::GET_FAULTS {
        (m, (RdpReply::FaultList, none))
    } else if h.op == op::CLEAR_FAULTS {
        match req {
            RdpRequest::ClearFaults(r) => {
                let kept = retained(m.faults, r.mask);
                (
                    RdpServerModel { faults: kept, ..m },
                    (RdpReply::FaultsCleared((m.faults.len() - kept.len()) as u16), none),
                )
            },
            _ => (m, (bad, none)),
        }
    } else if h.op == op::GET_TELEMETRY_CATALOG {
        let page = match req {
            RdpRequest::TelemetryCatalog(r) => r.page,
            _ => 0u16,
        };
        if page >= catalog_total_pages() {
            (m, (RdpReply::Status(ErrorCode::NotFound, page), none))
        } else {
            (m, (RdpReply::TelemetryCatalog { page, total_pages: catalog_total_pages() as u16 }, none))
        }
    } else if h.op == op::TELEM_READ_ONCE {
        match req {
            RdpRequest::ReadOnce { channels } => match first_bad_channel(channels@) {
                Some(k) => (m, (RdpReply::Status(ErrorCode::NotFound, channels@[k]), none)),
                None => (m, (RdpReply::ReadOnce, none)),
            },
            _ => (m, (bad, none)),
        }
    } else if h.op == op::CALIBRATE {
        match req {
            RdpRequest::Calibrate { routine } => if routine > 3 {
                (m, (RdpReply::Status(ErrorCode::NotFound, routine as u16), none))
            } else if routine == 2 && inp.engine_running {
                (m, (status(ErrorCode::Busy), none))
            } else {
                (
                    RdpServerModel { clear_adaptive: m.clear_adaptive || routine == 3, ..m },
                    (RdpReply::Calibrated(calibrate_routine_of(routine)), none),
                )
            },
            _ => (m, (bad, none)),
        }
    } else if forwarded(h.op) {
        (m, (RdpReply::Forward, none))
    } else {
        (m, (status(ErrorCode::UnknownOp), none))
    }
}

/// Device-side RDP server state.
pub struct RdpServer {
    identity: DeviceIdentity,
    /// Telemetry subscriptions.
    pub streams: TelemetryStreams,
    /// Structured fault store.
    pub faults: FaultStore,
    /// Pending push events.
    pub events: EventQueue,
    /// Active control overrides.
    pub overrides: Overrides,
    /// Bench test queued for the control loop.
    pending_bench: Option<BenchTestSpec>,
    dirty: bool,
    flash_crc: u32,
    clear_adaptive: bool,
}

impl View for RdpServer {
    type V = RdpServerModel;

    closed spec fn view(&self) -> RdpServerModel {
        RdpServerModel {
            streams: self.streams@,
            faults: self.faults@,
            events: self.events@,
            overrides: self.overrides@,
            pending_bench: self.pending_bench,
            dirty: self.dirty,
            flash_crc: self.flash_crc,
            clear_adaptive: self.clear_adaptive,
        }
    }
}

impl RdpServer {
    /// The device identity the server advertises.
    pub closed spec fn spec_identity(&self) -> DeviceIdentity {
        self.identity
    }

    /// Create a server for a device identity; `flash_crc` is the CRC of the
    /// currently persisted configuration.
    pub fn new(identity: DeviceIdentity, flash_crc: u32) -> (r: Self)
        ensures
            r.spec_identity() == identity,
            r@.streams == no_streams(),
            r@.faults == Seq::<FaultRecord>::empty(),
            r@.events == Seq::<EventRecord>::empty(),
            r@.overrides == Seq::new(OVERRIDE_TARGETS as nat, |_i: int| None::<OverrideSlot>),
            r@.pending_bench is None,
            !r@.dirty,
            r@.flash_crc == flash_crc,
            !r@.clear_adaptive,
    {
        RdpServer {
            identity,
            streams: TelemetryStreams::new(),
            faults: FaultStore::new(),
            events: EventQueue::new(),
            overrides: Overrides::new(),
            pending_bench: None,
            dirty: false,
            flash_crc,
            clear_adaptive: false,
        }
    }

    /// The device identity.
    pub fn identity(&self) -> (r: DeviceIdentity)
        ensures
            r == self.spec_identity(),
    {
        self.identity
    }

    /// True when the RAM config has unsaved edits.
    pub fn is_dirty(&self) -> (r: bool)
        ensures
            r == self@.dirty,
    {
        self.dirty
    }

    /// Take a queued bench-test request (called by the control loop).
    pub fn take_bench_test(&mut self) -> (r: Option<BenchTestSpec>)
        ensures
            r == old(self)@.pending_bench,
            final(self)@ == (RdpServerModel { pending_bench: None, ..old(self)@ }),
            final(self).spec_identity() == old(self).spec_identity(),
    {
        let r = self.pending_bench;
        self.pending_bench = None;
        r
    }

    /// Take the request to clear adaptive learning (called by the control
    /// loop, which clears it).
    pub fn take_clear_adaptive(&mut self) -> (r: bool)
        ensures
            r == old(self)@.clear_adaptive,
            final(self)@ == (RdpServerModel { clear_adaptive: false, ..old(self)@ }),
            final(self).spec_identity() == old(self).spec_identity(),
    {
        let r = self.clear_adaptive;
        self.clear_adaptive = false;
        r
    }

    /// Fail-safe on transport disconnect: drop overrides, subscriptions and
    /// any queued bench test.
    pub fn on_disconnect(&mut self)
        ensures
            final(self)@ == (RdpServerModel {
                overrides: Seq::new(OVERRIDE_TARGETS as nat, |_i: int| None::<OverrideSlot>),
                streams: no_streams(),
                pending_bench: None,
                ..old(self)@
            }),
            final(self).spec_identity() == old(self).spec_identity(),
    {
        self.overrides.clear_all();
        self.streams.clear();
        self.pending_bench = None;
    }

    /// Raise a fault and queue a `FaultSet` event when it is newly active.
    pub fn note_fault(&mut self, code: u16, severity: Severity, detail: u16, now_ms: u32)
        ensures
            ({
                let (f2, newly) = raise_outcome(old(self)@.faults, code, severity, detail, now_ms);
                final(self)@ == (RdpServerModel {
                    faults: f2,
                    events: if newly {
                        pushed_events(
                            old(self)@.events,
                            EventRecord {
                                kind: EventKind::FaultSet,
                                ts_ms: now_ms,
                                a: code as i32,
                                b: detail as i32,
                            },
                        )
                    } else {
                        old(self)@.events
                    },
                    ..old(self)@
                })
            }),
            final(self).spec_identity() == old(self).spec_identity(),
    {
        if self.faults.raise(code, severity, detail, now_ms) {
            self.events.push(EventKind::FaultSet, now_ms, code as i32, detail as i32);
        }
    }

    /// Resolve a fault and queue a `FaultCleared` event when it was active.
    pub fn note_fault_cleared(&mut self, code: u16, now_ms: u32)
        ensures
            ({
                let (f2, was) = resolve_outcome(old(self)@.faults, code);
                final(self)@ == (RdpServerModel {
                    faults: f2,
                    events: if was {
                        pushed_events(
                            old(self)@.events,
                            EventRecord { kind: EventKind::FaultCleared, ts_ms: now_ms, a: code as i32, b: 0 },
                        )
                    } else {
                        old(self)@.events
                    },
                    ..old(self)@
                })
            }),
            final(self).spec_identity() == old(self).spec_identity(),
    {
        if self.faults.resolve(code) {
            self.events.push(EventKind::FaultCleared, now_ms, code as i32, 0);
        }
    }

    /// Queue an event of `kind` with arguments `a` and `b`.
    fn queue_event(&mut self, kind: EventKind, now_ms: u32, a: i32, b: i32)
        ensures
            final(self)@ == (RdpServerModel {
                events: pushed_events(old(self)@.events, EventRecord { kind, ts_ms: now_ms, a, b }),
                ..old(self)@
            }),
            final(self).spec_identity() == old(self).spec_identity(),
    {
        self.events.push(kind, now_ms, a, b);
    }

    /// Queue a knock event (`retard` in milli-degrees).
    pub fn note_knock(&mut self, cylinder: u8, retard_milli_deg: i32, now_ms: u32)
        ensures
            final(self)@ == (RdpServerModel {
                events: pushed_events(
                    old(self)@.events,
                    EventRecord { kind: EventKind::Knock, ts_ms: now_ms, a: cylinder as i32, b: retard_milli_deg },
                ),
                ..old(self)@
            }),
            final(self).spec_identity() == old(self).spec_identity(),
    {
        self.queue_event(EventKind::Knock, now_ms, cylinder as i32, retard_milli_deg);
    }

    /// Queue a trigger sync transition event (`a` = 1 when gained).
    pub fn note_sync(&mut self, gained: bool, teeth: u32, now_ms: u32)
        ensures
            final(self)@ == (RdpServerModel {
                events: pushed_events(
                    old(self)@.events,
                    EventRecord {
                        kind: EventKind::SyncState,
                        ts_ms: now_ms,
                        a: if gained { 1i32 } else { 0i32 },
                        b: teeth as i32,
                    },
                ),
                ..old(self)@
            }),
            final(self).spec_identity() == old(self).spec_identity(),
    {
        let a: i32 = if gained {
            1
        } else {
            0
        };
        self.queue_event(EventKind::SyncState, now_ms, a, teeth as i32);
    }

    /// Queue a protection-cut event.
    pub fn note_protection_cut(&mut self, reason: u16, now_ms: u32)
        ensures
            final(self)@ == (RdpServerModel {
                events: pushed_events(
                    old(self)@.events,
                    EventRecord { kind: EventKind::ProtectionCut, ts_ms: now_ms, a: reason as i32, b: 0 },
                ),
                ..old(self)@
            }),
            final(self).spec_identity() == old(self).spec_identity(),
    {
        self.queue_event(EventKind::ProtectionCut, now_ms, reason as i32, 0);
    }

    /// Queue a limp-mode transition event.
    pub fn note_limp(&mut self, reason: u16, now_ms: u32)
        ensures
            final(self)@ == (RdpServerModel {
                events: pushed_events(
                    old(self)@.events,
                    EventRecord { kind: EventKind::LimpMode, ts_ms: now_ms, a: reason as i32, b: 0 },
                ),
                ..old(self)@
            }),
            final(self).spec_identity() == old(self).spec_identity(),
    {
        self.queue_event(EventKind::LimpMode, now_ms, reason as i32, 0);
    }

    /// Take the next pending event (the oldest) for the caller to push
    /// (`KIND=Event OP=0x06F0`).
    pub fn poll_event(&mut self) -> (r: Option<EventRecord>)
        ensures
            old(self)@.events.len() == 0 ==> r is None && final(self)@ == old(self)@,
            old(self)@.events.len() > 0 ==> r == Some(old(self)@.events[0]) && final(self)@ == (
            RdpServerModel { events: old(self)@.events.drop_first(), ..old(self)@ }),
            final(self).spec_identity() == old(self).spec_identity(),
    {
        self.events.pop()
    }

    /// Handle one request: the reply to send, the side effects the caller
    /// performs, and the server's new state.
    #[verifier::rlimit(100)]
    #[verifier::spinoff_prover]
    pub fn step(&mut self, header: MessageHeader, req: &RdpRequest, inp: RdpInputs) -> (r: (RdpReply, RdpActions))
        ensures
            (final(self)@, r) == spec_rdp_step(old(self)@, header, *req, inp),
            final(self).spec_identity() == old(self).spec_identity(),
    {
        let none = RdpActions {
            save: false,
            reboot: false,
            enter_bootloader: false,
            restore_flash: false,
            restore_defaults: false,
        };
        let ok = RdpReply::Status(ErrorCode::Success, 0);
        let bad = RdpReply::Status(ErrorCode::BadRequest, 0);
        if !matches!(header.kind, Kind::Request) {
            return (RdpReply::Silent, none);
        }
        let opcode = header.op;
        if opcode == op::PING {
            let nonce = match req {
                RdpRequest::Ping(p) => p.nonce,
                _ => 0,
            };
            (RdpReply::Pong { nonce, uptime_ms: inp.now_ms }, none)
        } else if opcode == op::REBOOT {
            (ok, RdpActions { reboot: true, ..none })
        } else if opcode == op::ENTER_BOOTLOADER {
            match req {
                RdpRequest::EnterBootloader(r) => if r.confirm == BOOTLOADER_CONFIRM {
                    (ok, RdpActions { enter_bootloader: true, ..none })
                } else {
                    (bad, none)
                },
                _ => (bad, none),
            }
        } else if opcode == op::CONFIG_SAVE {
            self.dirty = false;
            self.flash_crc = inp.ram_crc;
            (
                RdpReply::Saved { saved_bytes: inp.config_bytes, crc: inp.ram_crc },
                RdpActions { save: true, ..none },
            )
        } else if opcode == op::CONFIG_DISCARD {
            self.dirty = false;
            (ok, RdpActions { restore_flash: true, ..none })
        } else if opcode == op::CONFIG_RESET_DEFAULTS {
            match req {
                RdpRequest::ConfigResetDefaults(r) => if r.confirm == RESET_DEFAULTS_CONFIRM {
                    if inp.engine_running {
                        (RdpReply::Status(ErrorCode::Busy, 0), none)
                    } else {
                        self.dirty = true;
                        (ok, RdpActions { restore_defaults: true, ..none })
                    }
                } else {
                    (bad, none)
                },
                _ => (bad, none),
            }
        } else if opcode == op::CONFIG_STATUS {
            (
                RdpReply::ConfigStatus {
                    dirty: self.dirty,
                    ram_crc: inp.ram_crc,
                    flash_crc: self.flash_crc,
                },
                none,
            )
        } else if opcode == op::TELEM_SUBSCRIBE {
            match req {
                RdpRequest::Subscribe { channels, rate_hz } => {
                    let res = self.streams.subscribe(channels.as_slice(), *rate_hz, inp.now_ms);
                    let reply = match res {
                        Ok((id, rate)) => RdpReply::Subscribed { stream_id: id, rate_hz: rate },
                        Err(SubscribeError::BadChannel(ch)) => RdpReply::Status(
                            ErrorCode::NotFound,
                            ch,
                        ),
                        Err(SubscribeError::NoFreeStream) => RdpReply::Status(ErrorCode::Busy, 0),
                        Err(SubscribeError::TooManyChannels) => bad,
                    };
                    (reply, none)
                },
                _ => (bad, none),
            }
        } else if opcode == op::TELEM_UNSUBSCRIBE {
            match req {
                RdpRequest::Unsubscribe(r) => if self.streams.unsubscribe(r.stream_id) {
                    (ok, none)
                } else {
                    (RdpReply::Status(ErrorCode::NotFound, r.stream_id as u16), none)
                },
                _ => (bad, none),
            }
        } else if opcode == op::BENCH_TEST {
            match req {
                RdpRequest::BenchTest(r) => if inp.engine_running {
                    (RdpReply::Status(ErrorCode::Busy, 0), none)
                } else {
                    match BenchTarget::from_u8(r.target) {
                        None => (RdpReply::Status(ErrorCode::NotFound, r.target as u16), none),
                        Some(target) => {
                            proof {
                                crate::comms::control::lemma_control_codes_injective();
                                assert(bench_target_of(r.target).code() == r.target);
                            }
                            self.pending_bench = Some(
                                BenchTestSpec {
                                    target,
                                    index: r.index,
                                    on_ms: r.on_ms,
                                    off_ms: r.off_ms,
                                    count: r.count,
                                },
                            );
                            (ok, none)
                        },
                    }
                },
                _ => (bad, none),
            }
        } else if opcode == op::SET_OVERRIDE {
            match req {
                RdpRequest::SetOverride { target, value, timeout_ms } => match OverrideTarget::from_u8(
                    *target,
                ) {
                    Some(t) => {
                        self.overrides.set(t, *value, *timeout_ms, inp.now_ms);
                        (ok, none)
                    },
                    None => (RdpReply::Status(ErrorCode::NotFound, *target as u16), none),
                },
                _ => (bad, none),
            }
        } else if opcode == op::CLEAR_OVERRIDE {
            match req {
                RdpRequest::ClearOverride(r) => match OverrideTarget::from_u8(r.target) {
                    Some(t) => {
                        let _ = self.overrides.clear(t);
                        (ok, none)
                    },
                    None => (RdpReply::Status(ErrorCode::NotFound, r.target as u16), none),
                },
                _ => (bad, none),
            }
        } else if opcode == op::GET_FAULTS {
            (RdpReply::FaultList, none)
        } else if opcode == op::CLEAR_FAULTS {
            match req {
                RdpRequest::ClearFaults(r) => {
                    let cleared = self.faults.clear_mask(r.mask);
                    (RdpReply::FaultsCleared(cleared), none)
                },
                _ => (bad, none),
            }
        } else if opcode == op::GET_TELEMETRY_CATALOG {
            let page = match req {
                RdpRequest::TelemetryCatalog(r) => r.page,
                _ => 0,
            };
            let total: u16 = 3;
            assert(catalog_total_pages() == 3);
            if page >= total {
                (RdpReply::Status(ErrorCode::NotFound, page), none)
            } else {
                (RdpReply::TelemetryCatalog { page, total_pages: total }, none)
            }
        } else if opcode == op::TELEM_READ_ONCE {
            match req {
                RdpRequest::ReadOnce { channels } => match first_unknown_channel(channels.as_slice()) {
                    Some(ch) => (RdpReply::Status(ErrorCode::NotFound, ch), none),
                    None => (RdpReply::ReadOnce, none),
                },
                _ => (bad, none),
            }
        } else if opcode == op::CALIBRATE {
            match req {
                RdpRequest::Calibrate { routine } => match CalibrateRoutine::from_u8(*routine) {
                    None => (RdpReply::Status(ErrorCode::NotFound, *routine as u16), none),
                    Some(r) => {
                        proof {
                            crate::comms::control::lemma_control_codes_injective();
                            assert(calibrate_routine_of(*routine).code() == *routine);
                        }
                        if *routine == 2 && inp.engine_running {
                            (RdpReply::Status(ErrorCode::Busy, 0), none)
                        } else {
                            if *routine == 3 {
                                self.clear_adaptive = true;
                            }
                            (RdpReply::Calibrated(r), none)
                        }
                    },
                },
                _ => (bad, none),
            }
        } else if opcode == op::HELLO || opcode == op::GET_SCHEMA_INFO || opcode
            == op::GET_PARAM_CATALOG || opcode == op::GET_TABLE_CATALOG || opcode == op::PARAM_GET
            || opcode == op::PARAM_SET || opcode == op::TABLE_GET || opcode == op::TABLE_SET_CELL
            || opcode == op::TABLE_SET_AXIS {
            (RdpReply::Forward, none)
        } else {
            (RdpReply::Status(ErrorCode::UnknownOp, 0), none)
        }
    }
}

/// The first channel of `channels` without a wire encoding, if any.
fn first_unknown_channel(channels: &[u16]) -> (r: Option<u16>)
    ensures
        r == (match first_bad_channel(channels@) {
            Some(k) => Some(channels@[k]),
            None => None::<u16>,
        }),
{
    let mut k: usize = 0;
    while k < channels.len()
        invariant
            k <= channels@.len(),
            forall|j: int| 0 <= j < k ==> crate::comms::telemetry::spec_channel_wire(
                #[trigger] channels@[j],
            ) is Some,
        decreases channels@.len() - k,
    {
        if channel_wire(channels[k]).is_none() {
            proof {
                crate::comms::telemetry::lemma_first_bad_channel(channels@, k as int);
            }
            return Some(channels[k]);
        }
        k += 1;
    }
    proof {
        crate::comms::telemetry::lemma_first_bad_channel(channels@, channels@.len() as int);
    }
    None
}

/// A fault raised on store `f`: the new store and whether the fault became
/// active, as [`FaultStore::raise`] states it.
pub open spec fn raise_outcome(f: Seq<FaultRecord>, code: u16, severity: Severity, detail: u16, now_ms: u32) -> (
    Seq<FaultRecord>,
    bool,
) {
    match find_code(f, code) {
        Some(i) => (f.update(i, reraised(f[i], severity, detail, now_ms)), !f[i].active),
        None => if f.len() < MAX_FAULTS {
            (f.push(first_record(code, severity, detail, now_ms)), true)
        } else {
            (f, false)
        },
    }
}

/// A fault resolved on store `f`: the new store and whether it was active,
/// as [`FaultStore::resolve`] states it.
pub open spec fn resolve_outcome(f: Seq<FaultRecord>, code: u16) -> (Seq<FaultRecord>, bool) {
    match find_code(f, code) {
        Some(i) => (f.update(i, FaultRecord { active: false, ..f[i] }), f[i].active),
        None => (f, false),
    }
}

/// The config transaction: after a save, or after a discard once the
/// caller has restored the persisted configuration, a status request
/// reports a clean configuration whose RAM and flash CRCs agree. A save
/// asks the caller to persist, a discard to restore the persisted copy, and
/// neither does anything else.
pub proof fn lemma_config_transaction(
    m: RdpServerModel,
    op_first: u16,
    req1: RdpRequest,
    inp1: RdpInputs,
    req2: RdpRequest,
    inp2: RdpInputs,
)
    requires
        op_first == op::CONFIG_SAVE || op_first == op::CONFIG_DISCARD,
        op_first == op::CONFIG_SAVE ==> inp2.ram_crc == inp1.ram_crc,
        op_first == op::CONFIG_DISCARD ==> inp2.ram_crc == m.flash_crc,
    ensures
        ({
            let (m1, (r1, a1)) = spec_rdp_step(
                m,
                MessageHeader { kind: Kind::Request, op: op_first },
                req1,
                inp1,
            );
            let (m2, (r2, a2)) = spec_rdp_step(
                m1,
                MessageHeader { kind: Kind::Request, op: op::CONFIG_STATUS },
                req2,
                inp2,
            );
            &&& !m1.dirty
            &&& op_first == op::CONFIG_SAVE ==> a1 == RdpActions { save: true, ..no_actions() }
                && r1 == RdpReply::Saved { saved_bytes: inp1.config_bytes, crc: inp1.ram_crc }
            &&& op_first == op::CONFIG_DISCARD ==> a1 == RdpActions {
                restore_flash: true,
                ..no_actions()
            } && r1 == status(ErrorCode::Success)
            &&& r2 == RdpReply::ConfigStatus {
                dirty: false,
                ram_crc: inp2.ram_crc,
                flash_crc: inp2.ram_crc,
            }
            &&& a2 == no_actions()
            &&& m2 == m1
        }),
{
}

} // verus!
