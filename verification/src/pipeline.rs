//! The UDP ingestion pipeline: socket lifecycle, per-datagram decode,
//! time-windowed batching, and throughput accounting.
//!
//! The pipeline is a state machine stepped by the runtime, which owns the
//! socket and the clock: every bind, join, receive and sleep happens
//! outside, and its outcome comes back in as an event. Decisions — what the
//! next phase is, whether a datagram joins the batch, when the window
//! closes and what is published — are made and proved here.

use vstd::prelude::*;
use crate::rate::DataRateCounter;
use crate::rate::RateSample;
use crate::rate::DEFAULT_WINDOW_MICROS;
use crate::rate::update_next;
use crate::rate::update_report;
use crate::wire::DecodeFailure;
use crate::wire::RECORD_BYTES;
use crate::wire::batch_json;
use crate::wire::decode_measurement;
use crate::wire::decoded_of;
use crate::wire::serialize_batch;
use crate::wire::wire_ok;

verus! {

/// Whether the socket listens on a plain address or joins a multicast
/// group after binding.
#[derive(Clone, Copy, Debug, PartialEq, Eq, Structural)]
pub enum SocketMode {
    Unicast,
    Multicast,
}

/// Where the socket lifecycle stands. The runtime performs the phase's one
/// action and reports what happened.
#[derive(Clone, Copy, Debug, PartialEq, Eq, Structural)]
pub enum SocketPhase {
    /// No socket; the next action is a bind attempt.
    Unbound,
    /// Multicast only: bound, with address reuse and the group join still
    /// to do.
    JoiningGroup,
    /// Bound (and joined); the receive loop races datagrams against the
    /// batch timer.
    Receiving,
    /// Something failed; the next action is the fixed one-second delay.
    ErrorBackoff,
}

/// What the runtime observed while performing the current phase's action.
#[derive(Clone, Copy, Debug, PartialEq, Eq, Structural)]
pub enum SocketEvent {
    /// The bind succeeded.
    BindOk,
    /// The bind failed.
    BindFailed,
    /// Setting address reuse failed.
    ReuseFailed,
    /// The multicast group join succeeded.
    JoinOk,
    /// The multicast group join failed.
    JoinFailed,
    /// A transport-level receive error; this socket instance is abandoned.
    RecvError,
    /// The backoff delay elapsed.
    BackoffElapsed,
}

/// The socket lifecycle: binds retry through the backoff, a receive error
/// abandons the socket instance through the backoff, and a multicast bind
/// passes through the group join. An event that does not fit the phase
/// changes nothing.
pub open spec fn next_phase(mode: SocketMode, phase: SocketPhase, event: SocketEvent) -> SocketPhase {
    match (phase, event) {
        (SocketPhase::Unbound, SocketEvent::BindOk) => if mode is Multicast {
            SocketPhase::JoiningGroup
        } else {
            SocketPhase::Receiving
        },
        (SocketPhase::Unbound, SocketEvent::BindFailed) => SocketPhase::ErrorBackoff,
        (SocketPhase::JoiningGroup, SocketEvent::JoinOk) => SocketPhase::Receiving,
        (SocketPhase::JoiningGroup, SocketEvent::ReuseFailed) => SocketPhase::ErrorBackoff,
        (SocketPhase::JoiningGroup, SocketEvent::JoinFailed) => SocketPhase::ErrorBackoff,
        (SocketPhase::Receiving, SocketEvent::RecvError) => SocketPhase::ErrorBackoff,
        (SocketPhase::ErrorBackoff, SocketEvent::BackoffElapsed) => SocketPhase::Unbound,
        _ => phase,
    }
}

/// What one receive-loop step asks of the runtime.
#[derive(Debug)]
pub enum BatchOutcome {
    /// Nothing due: keep receiving.
    Continue,
    /// The window closed with records: broadcast this payload to the
    /// global pool, then keep receiving.
    Publish(String),
    /// The window closed empty and the idle-rebind policy is on: tear the
    /// socket down and rebind.
    Idle,
}

/// Everything one datagram arrival produced.
#[derive(Debug)]
pub struct DatagramOutcome {
    /// A closed estimator window to log, if this arrival crossed one.
    pub rate_report: Option<RateSample>,
    /// Why the datagram was dropped, if the codec rejected it.
    pub drop_reason: Option<DecodeFailure>,
    /// What the batch window asks of the runtime.
    pub batch: BatchOutcome,
}

/// One ingestion pipeline: its lifecycle phase, the batch the current
/// window has accumulated, and the throughput counter.
pub struct IngestPipeline {
    pub mode: SocketMode,
    pub phase: SocketPhase,
    /// Records decoded since the window started, in arrival order.
    pub batch: Vec<kiwi_measurements::SingleMeasurement>,
    /// When the current batch window started, in microseconds.
    pub window_start: u64,
    /// The batch window length in microseconds.
    pub batch_window_micros: u64,
    /// The idle-rebind policy: whether a window that closes empty tears
    /// the socket down as a liveness measure.
    pub idle_rebind: bool,
    /// The diagnostic throughput counter.
    pub rate: DataRateCounter,
}

/// The batch window length the relay uses: 100 milliseconds.
pub const DEFAULT_BATCH_WINDOW_MICROS: u64 = 100000;

impl IngestPipeline {
    /// Both windows were configured.
    pub open spec fn wf(self) -> bool {
        self.batch_window_micros > 0 && self.rate.wf()
    }

    /// An unbound pipeline whose windows start at `now_micros`.
    pub fn new(mode: SocketMode, batch_window_micros: u64, idle_rebind: bool, now_micros: u64) -> (r:
        IngestPipeline)
        requires
            batch_window_micros > 0,
        ensures
            r.wf(),
            r.mode == mode,
            r.phase is Unbound,
            r.batch@.len() == 0,
            r.window_start == now_micros,
            r.batch_window_micros == batch_window_micros,
            r.idle_rebind == idle_rebind,
            r.rate.count == 0,
            r.rate.window_start == now_micros,
            r.rate.window_micros == DEFAULT_WINDOW_MICROS,
    {
        IngestPipeline {
            mode,
            phase: SocketPhase::Unbound,
            batch: Vec::new(),
            window_start: now_micros,
            batch_window_micros,
            idle_rebind,
            rate: DataRateCounter::new(DEFAULT_WINDOW_MICROS, now_micros),
        }
    }

    /// Applies one lifecycle event. The phase moves by `next_phase`;
    /// entering `Receiving` starts a fresh window with an empty batch, and
    /// abandoning the socket on a receive error drops whatever the window
    /// had gathered, as the socket instance it came through is gone.
    pub fn on_socket_event(&mut self, event: SocketEvent, now_micros: u64)
        requires
            old(self).wf(),
        ensures
            final(self).wf(),
            final(self).mode == old(self).mode,
            final(self).batch_window_micros == old(self).batch_window_micros,
            final(self).idle_rebind == old(self).idle_rebind,
            final(self).rate == old(self).rate,
            final(self).phase == next_phase(old(self).mode, old(self).phase, event),
            final(self).phase is Receiving && !(old(self).phase is Receiving)
                ==> final(self).batch@.len() == 0 && final(self).window_start == now_micros,
            old(self).phase is Receiving && event is RecvError ==> final(self).batch@.len() == 0,
            final(self).phase == old(self).phase
                ==> final(self).batch == old(self).batch && final(self).window_start == old(self).window_start,
    {
        let entering_receiving = match (self.mode, self.phase, event) {
            (SocketMode::Unicast, SocketPhase::Unbound, SocketEvent::BindOk) => true,
            (_, SocketPhase::JoiningGroup, SocketEvent::JoinOk) => true,
            _ => false,
        };
        let next = match (self.phase, event) {
            (SocketPhase::Unbound, SocketEvent::BindOk) => {
                if entering_receiving {
                    SocketPhase::Receiving
                } else {
                    SocketPhase::JoiningGroup
                }
            },
            (SocketPhase::Unbound, SocketEvent::BindFailed) => SocketPhase::ErrorBackoff,
            (SocketPhase::JoiningGroup, SocketEvent::JoinOk) => SocketPhase::Receiving,
            (SocketPhase::JoiningGroup, SocketEvent::ReuseFailed) => SocketPhase::ErrorBackoff,
            (SocketPhase::JoiningGroup, SocketEvent::JoinFailed) => SocketPhase::ErrorBackoff,
            (SocketPhase::Receiving, SocketEvent::RecvError) => SocketPhase::ErrorBackoff,
            (SocketPhase::ErrorBackoff, SocketEvent::BackoffElapsed) => SocketPhase::Unbound,
            _ => self.phase,
        };
        if entering_receiving {
            self.batch = Vec::new();
            self.window_start = now_micros;
        }
        if matches!(self.phase, SocketPhase::Receiving) && matches!(event, SocketEvent::RecvError) {
            self.batch = Vec::new();
        }
        self.phase = next;
    }

    /// Closes the current batch window at `now_micros`. A window that
    /// gathered records publishes them, in arrival order, as one JSON
    /// array, and restarts; one that gathered nothing is the idle signal:
    /// under the idle-rebind policy the socket is torn down for a rebind,
    /// otherwise the window merely restarts.
    pub fn on_timer(&mut self, now_micros: u64) -> (r: BatchOutcome)
        requires
            old(self).wf(),
            old(self).phase is Receiving,
        ensures
            final(self).wf(),
            final(self).mode == old(self).mode,
            final(self).batch_window_micros == old(self).batch_window_micros,
            final(self).idle_rebind == old(self).idle_rebind,
            final(self).rate == old(self).rate,
            final(self).batch@.len() == 0,
            ({
                if old(self).batch@.len() > 0 {
                    &&& final(self).phase is Receiving
                    &&& final(self).window_start == now_micros
                    &&& (r matches BatchOutcome::Publish(p) && p@ == batch_json(old(self).batch@))
                } else if old(self).idle_rebind {
                    &&& final(self).phase is Unbound
                    &&& final(self).window_start == old(self).window_start
                    &&& r is Idle
                } else {
                    &&& final(self).phase is Receiving
                    &&& final(self).window_start == now_micros
                    &&& r is Continue
                }
            }),
    {
        if self.batch.len() > 0 {
            let mut records: Vec<kiwi_measurements::SingleMeasurement> = Vec::new();
            core::mem::swap(&mut records, &mut self.batch);
            let payload = serialize_batch(&records);
            self.window_start = now_micros;
            BatchOutcome::Publish(payload)
        } else if self.idle_rebind {
            self.phase = SocketPhase::Unbound;
            BatchOutcome::Idle
        } else {
            self.window_start = now_micros;
            BatchOutcome::Continue
        }
    }

    /// One datagram arrived: its length feeds the throughput counter, the
    /// codec either yields a record — appended to the batch in arrival
    /// order — or a drop reason for this one datagram and nothing else,
    /// and a window that has already run its length closes as `on_timer`
    /// would close it, the new record included.
    pub fn on_datagram(&mut self, buf: &[u8], now_micros: u64) -> (r: DatagramOutcome)
        requires
            old(self).wf(),
            old(self).phase is Receiving,
            old(self).window_start <= now_micros,
            old(self).rate.window_start <= now_micros,
            old(self).rate.count + buf@.len() <= u64::MAX,
        ensures
            final(self).wf(),
            final(self).mode == old(self).mode,
            final(self).batch_window_micros == old(self).batch_window_micros,
            final(self).idle_rebind == old(self).idle_rebind,
            final(self).rate == update_next(old(self).rate, buf@.len() as int, now_micros as int),
            r.rate_report == update_report(old(self).rate, buf@.len() as int, now_micros as int),
            r.drop_reason is None <==> wire_ok(buf@),
            buf@.len() != RECORD_BYTES ==> r.drop_reason == Some(DecodeFailure::Length),
            buf@.len() == RECORD_BYTES && !crate::wire::crc_matches(buf@) ==> r.drop_reason == Some(DecodeFailure::Crc),
            buf@.len() == RECORD_BYTES && crate::wire::crc_matches(buf@) && !crate::wire::known_code(crate::wire::u16_le(buf@, 0)) ==> r.drop_reason == Some(DecodeFailure::Tag),
            ({
                let appended = if wire_ok(buf@) {
                    old(self).batch@.push(decoded_of(buf@))
                } else {
                    old(self).batch@
                };
                if now_micros - old(self).window_start < old(self).batch_window_micros {
                    &&& final(self).phase is Receiving
                    &&& final(self).batch@ == appended
                    &&& final(self).window_start == old(self).window_start
                    &&& r.batch is Continue
                } else if appended.len() > 0 {
                    &&& final(self).phase is Receiving
                    &&& final(self).batch@.len() == 0
                    &&& final(self).window_start == now_micros
                    &&& (r.batch matches BatchOutcome::Publish(p) && p@ == batch_json(appended))
                } else {
                    &&& final(self).batch@.len() == 0
                    &&& (old(self).idle_rebind ==> final(self).phase is Unbound && r.batch is Idle)
                    &&& (!old(self).idle_rebind ==> final(self).phase is Receiving && r.batch
                        is Continue)
                }
            }),
    {
        let rate_report = self.rate.update(buf.len() as u64, now_micros);
        let mut drop_reason: Option<DecodeFailure> = None;
        match decode_measurement(buf) {
            Ok(m) => {
                self.batch.push(m);
            },
            Err(e) => {
                drop_reason = Some(e);
            },
        }
        let batch = if now_micros - self.window_start >= self.batch_window_micros {
            self.on_timer(now_micros)
        } else {
            BatchOutcome::Continue
        };
        DatagramOutcome { rate_report, drop_reason, batch }
    }
}

/// A bind failure, the backoff after it, and a successful rebind bring the
/// pipeline back on its feet: through `BindFailed`, `BackoffElapsed` and
/// `BindOk` a unicast pipeline reaches `Receiving`, and a multicast one
/// reaches it with the group join that follows — the retry loop never
/// leaves the state machine, so no bind failure is fatal.
pub proof fn lemma_bind_retry_reaches_receiving(mode: SocketMode)
    ensures
        ({
            let after_retry = next_phase(
                mode,
                next_phase(
                    mode,
                    next_phase(mode, SocketPhase::Unbound, SocketEvent::BindFailed),
                    SocketEvent::BackoffElapsed,
                ),
                SocketEvent::BindOk,
            );
            mode is Unicast ==> after_retry is Receiving
        }),
        ({
            let after_retry = next_phase(
                mode,
                next_phase(
                    mode,
                    next_phase(mode, SocketPhase::Unbound, SocketEvent::BindFailed),
                    SocketEvent::BackoffElapsed,
                ),
                SocketEvent::BindOk,
            );
            mode is Multicast ==> next_phase(mode, after_retry, SocketEvent::JoinOk) is Receiving
        }),
{
}

} // verus!
