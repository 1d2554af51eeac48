//! The three stages' per-message decisions, the sink retry protocol, and the
//! lag-gauge throttle. Each function here is pure with respect to transport:
//! the surrounding process reads frames, messages and clock values, hands
//! them in as plain values, and performs the returned action.

use vstd::prelude::*;
use crate::tick::{normalize, spec_normalize};
use crate::json::{
    parse_raw_tick, spec_parse_raw_tick, parse_norm_tick, spec_parse_norm_tick, encode_norm_tick,
    spec_encode_norm_tick,
};
use crate::ilp::{encode_ilp_frame, spec_ilp_line};
use crate::num::{i64_to_bytes, spec_idigits, spec_parse_i64, parse_i64};

verus! {

/// The per-stage counters behind the `produced_total`, `consumed_total` and
/// `dropped_total` metrics.
#[derive(Clone, Copy, Debug, PartialEq, Eq, Structural)]
pub struct Counters {
    pub produced: u64,
    pub consumed: u64,
    pub dropped: u64,
}

impl Counters {
    pub fn new() -> (r: Counters)
        ensures
            r == (Counters { produced: 0, consumed: 0, dropped: 0 }),
    {
        Counters { produced: 0, consumed: 0, dropped: 0 }
    }
}

pub open spec fn spec_opt_bytes(o: Option<Vec<u8>>) -> Option<Seq<u8>> {
    match o {
        Some(v) => Some(v@),
        None => None,
    }
}

/// One frame from the feed connection, as the ingestion stage sees it.
pub enum Frame {
    Text(Vec<u8>),
    Binary(Vec<u8>),
    Control,
}

/// A message ready for the raw topic: payload plus the lineage headers that
/// every downstream stage must carry unchanged.
pub struct Envelope {
    pub msg_id: Vec<u8>,
    pub ts_produce_ns: i64,
    pub payload: Vec<u8>,
}

/// The ingestion decision for one feed frame: a text frame becomes an
/// envelope with the freshly drawn message id and the current wall-clock
/// nanoseconds, and the produced counter moves; any other frame is discarded
/// without effect.
pub fn ingest_frame(frame: Frame, fresh_msg_id: Vec<u8>, now_ns: i64, c: &mut Counters) -> (r:
    Option<Envelope>)
    requires
        old(c).produced < u64::MAX,
    ensures
        final(c).consumed == old(c).consumed,
        final(c).dropped == old(c).dropped,
        frame matches Frame::Text(p) ==> r matches Some(e) && e.payload@ == p@ && e.msg_id@
            == fresh_msg_id@ && e.ts_produce_ns == now_ns && final(c).produced == old(c).produced
            + 1,
        !(frame is Text) ==> r is None && final(c).produced == old(c).produced,
{
    match frame {
        Frame::Text(p) => {
            c.produced = c.produced + 1;
            Some(Envelope { msg_id: fresh_msg_id, ts_produce_ns: now_ns, payload: p })
        },
        Frame::Binary(_) => None,
        Frame::Control => None,
    }
}

/// The normalization decision for one consumed message.
pub enum NormOutcome {
    /// No payload, or a payload that is not text: skipped with a warning and
    /// not counted as a parse failure.
    SkippedInvalid,
    /// A payload outside the raw tick grammar: dropped and counted.
    Dropped,
    /// The re-encoded tick, keyed by its symbol, with the lineage headers to
    /// attach.
    Publish { payload: Vec<u8>, key: Vec<u8>, msg_id: Vec<u8>, ts_produce_ns: Vec<u8> },
}

/// Handles one message from the raw topic: counts it, decodes the raw tick,
/// canonicalizes it, and re-encodes it for the norm topic with the original
/// lineage headers (fresh ones only where a header is absent). The dropped
/// counter moves exactly when the payload is present but outside the
/// grammar.
pub fn normalize_step(
    payload: Option<Vec<u8>>,
    hdr_msg_id: Option<Vec<u8>>,
    hdr_ts_ns: Option<Vec<u8>>,
    fresh_msg_id: Vec<u8>,
    now_ns: i64,
    c: &mut Counters,
) -> (r: NormOutcome)
    requires
        old(c).consumed < u64::MAX,
        old(c).dropped < u64::MAX,
        old(c).produced < u64::MAX,
    ensures
        final(c).consumed == old(c).consumed + 1,
        payload is None ==> r is SkippedInvalid && final(c).dropped == old(c).dropped && final(c).produced == old(c).produced,
        payload matches Some(p) ==> (spec_parse_raw_tick(p@) is None ==> r is Dropped && final(c).dropped == old(c).dropped + 1 && final(c).produced == old(c).produced),
        payload matches Some(p) ==> (spec_parse_raw_tick(p@) matches Some(rt) ==> final(c).dropped == old(c).dropped && final(c).produced == old(c).produced + 1 && (r matches
        NormOutcome::Publish { payload: out, key, msg_id, ts_produce_ns } && out@
            == spec_encode_norm_tick(spec_normalize(rt)) && key@ == rt.symbol && msg_id@ == (
        match spec_opt_bytes(hdr_msg_id) {
            Some(h) => h,
            None => fresh_msg_id@,
        }) && ts_produce_ns@ == (match spec_opt_bytes(hdr_ts_ns) {
            Some(h) => h,
            None => spec_idigits(now_ns as int),
        }))),
{
    c.consumed = c.consumed + 1;
    let p = match payload {
        Some(p) => p,
        None => {
            return NormOutcome::SkippedInvalid;
        },
    };
    let rt = match parse_raw_tick(p.as_slice()) {
        Some(t) => t,
        None => {
            c.dropped = c.dropped + 1;
            return NormOutcome::Dropped;
        },
    };
    let t = normalize(rt);
    let out = encode_norm_tick(&t);
    let key = t.symbol;
    let msg_id = match hdr_msg_id {
        Some(h) => h,
        None => fresh_msg_id,
    };
    let ts_produce_ns = match hdr_ts_ns {
        Some(h) => h,
        None => i64_to_bytes(now_ns),
    };
    c.produced = c.produced + 1;
    NormOutcome::Publish { payload: out, key, msg_id, ts_produce_ns }
}

/// The end-to-end latency reading for one message: now minus the produce
/// timestamp carried in the lineage header, and zero where the header is
/// absent or unreadable (the fallback reading).
pub open spec fn spec_e2e_ns(now_ns: i64, hdr_ts_ns: Option<Seq<u8>>) -> int {
    match hdr_ts_ns {
        Some(h) => match spec_parse_i64(h) {
            Some(v) => now_ns - v,
            None => 0,
        },
        None => 0,
    }
}

/// A produce timestamp that ingestion wrote into the lineage header is
/// read back as exactly the value written, so the end-to-end latency
/// reading for a message that kept its headers is exactly the clock
/// difference.
pub proof fn law_lineage_latency_exact(ts_produce_ns: i64, now_ns: i64)
    ensures
        spec_e2e_ns(now_ns, Some(spec_idigits(ts_produce_ns as int))) == now_ns - ts_produce_ns,
{
    crate::num::law_timestamp_header_round_trip(ts_produce_ns);
}

/// The persistence decision for one consumed message.
pub enum PersistPrep {
    /// No payload, or a payload that is not text: skipped with a warning,
    /// nothing counted.
    SkippedInvalid,
    /// A payload outside the normalized tick grammar: dropped and counted;
    /// the latency reading was already taken.
    Dropped { e2e_ns: i128 },
    /// The newline-terminated line to write to the sink.
    Write { frame: Vec<u8>, e2e_ns: i128 },
}

/// Handles one message from the norm topic up to the sink write: takes the
/// latency reading, decodes the normalized tick, and encodes the sink line
/// with the lineage message id (empty where the header is absent). The
/// dropped counter moves exactly when the payload is present but outside the
/// grammar.
pub fn persist_prepare(
    payload: Option<Vec<u8>>,
    hdr_msg_id: Option<Vec<u8>>,
    hdr_ts_ns: Option<Vec<u8>>,
    now_ns: i64,
    c: &mut Counters,
) -> (r: PersistPrep)
    requires
        old(c).consumed < u64::MAX,
        old(c).dropped < u64::MAX,
    ensures
        final(c).produced == old(c).produced,
        payload is None ==> r is SkippedInvalid && *final(c) == *old(c),
        payload matches Some(p) ==> final(c).consumed == old(c).consumed + 1,
        payload matches Some(p) ==> (spec_parse_norm_tick(p@) is None ==> (r matches
            PersistPrep::Dropped { e2e_ns } && e2e_ns as int == spec_e2e_ns(
            now_ns,
            spec_opt_bytes(hdr_ts_ns),
        ) && final(c).dropped == old(c).dropped + 1)),
        payload matches Some(p) ==> (spec_parse_norm_tick(p@) matches Some(nt) ==> final(c).dropped == old(c).dropped && (r matches PersistPrep::Write { frame, e2e_ns } && frame@
            == spec_ilp_line(
            nt,
            match spec_opt_bytes(hdr_msg_id) {
                Some(h) => h,
                None => Seq::<u8>::empty(),
            },
        ) + seq![10u8] && e2e_ns as int == spec_e2e_ns(now_ns, spec_opt_bytes(hdr_ts_ns)))),
{
    let p = match payload {
        Some(p) => p,
        None => {
            return PersistPrep::SkippedInvalid;
        },
    };
    c.consumed = c.consumed + 1;
    let e2e_ns: i128 = match &hdr_ts_ns {
        Some(h) => match parse_i64(h.as_slice()) {
            Some(v) => (now_ns as i128) - (v as i128),
            None => 0,
        },
        None => 0,
    };
    let nt = match parse_norm_tick(p.as_slice()) {
        Some(t) => t,
        None => {
            c.dropped = c.dropped + 1;
            return PersistPrep::Dropped { e2e_ns };
        },
    };
    let msg_id: Vec<u8> = match hdr_msg_id {
        Some(h) => h,
        None => Vec::new(),
    };
    let frame = encode_ilp_frame(&nt, &msg_id);
    PersistPrep::Write { frame, e2e_ns }
}


/// The sink connection's health as the persistence stage tracks it.
#[derive(Clone, Copy, Debug, PartialEq, Eq, Structural)]
pub enum SinkConn {
    Connected,
    Reconnecting,
    Disconnected,
}

/// What the surrounding process reports back about one sink operation.
#[derive(Clone, Copy, Debug, PartialEq, Eq, Structural)]
pub enum SinkEvent {
    WriteOk,
    WriteErr,
    ReconnectOk,
    ReconnectErr,
}

/// Where the single-retry write protocol stands for the current message.
#[derive(Clone, Copy, Debug, PartialEq, Eq, Structural)]
pub enum WritePhase {
    FirstWrite,
    Reconnect,
    RetryWrite,
    Done { persisted: bool },
}

/// The write protocol's state for one message: the phase, the connection
/// health, and how many sink writes were issued and succeeded for this
/// message.
#[derive(Clone, Copy, Debug, PartialEq, Eq, Structural)]
pub struct WriteAttempt {
    pub phase: WritePhase,
    pub conn: SinkConn,
    pub writes_issued: u8,
    pub writes_succeeded: u8,
}

pub open spec fn spec_write_begin() -> WriteAttempt {
    WriteAttempt {
        phase: WritePhase::FirstWrite,
        conn: SinkConn::Connected,
        writes_issued: 0,
        writes_succeeded: 0,
    }
}

/// Which events the protocol can be given in each phase: write outcomes
/// while a write is pending, reconnect outcomes while reconnecting, nothing
/// once done.
pub open spec fn spec_write_valid(st: WriteAttempt, ev: SinkEvent) -> bool {
    match st.phase {
        WritePhase::FirstWrite => ev == SinkEvent::WriteOk || ev == SinkEvent::WriteErr,
        WritePhase::RetryWrite => ev == SinkEvent::WriteOk || ev == SinkEvent::WriteErr,
        WritePhase::Reconnect => ev == SinkEvent::ReconnectOk || ev == SinkEvent::ReconnectErr,
        WritePhase::Done { .. } => false,
    }
}

/// The single-retry policy: a failed write leads to exactly one reconnect,
/// a successful reconnect to exactly one retry of the same write, and any
/// further failure abandons the message.
pub open spec fn spec_write_next(st: WriteAttempt, ev: SinkEvent) -> WriteAttempt {
    match (st.phase, ev) {
        (WritePhase::FirstWrite, SinkEvent::WriteOk) => WriteAttempt {
            phase: WritePhase::Done { persisted: true },
            conn: SinkConn::Connected,
            writes_issued: (st.writes_issued + 1) as u8,
            writes_succeeded: (st.writes_succeeded + 1) as u8,
        },
        (WritePhase::FirstWrite, SinkEvent::WriteErr) => WriteAttempt {
            phase: WritePhase::Reconnect,
            conn: SinkConn::Reconnecting,
            writes_issued: (st.writes_issued + 1) as u8,
            writes_succeeded: st.writes_succeeded,
        },
        (WritePhase::Reconnect, SinkEvent::ReconnectOk) => WriteAttempt {
            phase: WritePhase::RetryWrite,
            conn: SinkConn::Connected,
            writes_issued: st.writes_issued,
            writes_succeeded: st.writes_succeeded,
        },
        (WritePhase::Reconnect, SinkEvent::ReconnectErr) => WriteAttempt {
            phase: WritePhase::Done { persisted: false },
            conn: SinkConn::Disconnected,
            writes_issued: st.writes_issued,
            writes_succeeded: st.writes_succeeded,
        },
        (WritePhase::RetryWrite, SinkEvent::WriteOk) => WriteAttempt {
            phase: WritePhase::Done { persisted: true },
            conn: SinkConn::Connected,
            writes_issued: (st.writes_issued + 1) as u8,
            writes_succeeded: (st.writes_succeeded + 1) as u8,
        },
        (WritePhase::RetryWrite, SinkEvent::WriteErr) => WriteAttempt {
            phase: WritePhase::Done { persisted: false },
            conn: SinkConn::Connected,
            writes_issued: (st.writes_issued + 1) as u8,
            writes_succeeded: st.writes_succeeded,
        },
        _ => st,
    }
}

/// Starts the write protocol for a fresh message.
pub fn write_attempt_begin() -> (r: WriteAttempt)
    ensures
        r == spec_write_begin(),
{
    WriteAttempt {
        phase: WritePhase::FirstWrite,
        conn: SinkConn::Connected,
        writes_issued: 0,
        writes_succeeded: 0,
    }
}

/// Advances the write protocol by one reported outcome.
pub fn write_attempt_next(st: WriteAttempt, ev: SinkEvent) -> (r: WriteAttempt)
    requires
        spec_write_valid(st, ev),
        st.writes_issued < 255,
        st.writes_succeeded < 255,
    ensures
        r == spec_write_next(st, ev),
{
    match (st.phase, ev) {
        (WritePhase::FirstWrite, SinkEvent::WriteOk) => WriteAttempt {
            phase: WritePhase::Done { persisted: true },
            conn: SinkConn::Connected,
            writes_issued: st.writes_issued + 1,
            writes_succeeded: st.writes_succeeded + 1,
        },
        (WritePhase::FirstWrite, SinkEvent::WriteErr) => WriteAttempt {
            phase: WritePhase::Reconnect,
            conn: SinkConn::Reconnecting,
            writes_issued: st.writes_issued + 1,
            writes_succeeded: st.writes_succeeded,
        },
        (WritePhase::Reconnect, SinkEvent::ReconnectOk) => WriteAttempt {
            phase: WritePhase::RetryWrite,
            conn: SinkConn::Connected,
            writes_issued: st.writes_issued,
            writes_succeeded: st.writes_succeeded,
        },
        (WritePhase::Reconnect, SinkEvent::ReconnectErr) => WriteAttempt {
            phase: WritePhase::Done { persisted: false },
            conn: SinkConn::Disconnected,
            writes_issued: st.writes_issued,
            writes_succeeded: st.writes_succeeded,
        },
        (WritePhase::RetryWrite, SinkEvent::WriteOk) => WriteAttempt {
            phase: WritePhase::Done { persisted: true },
            conn: SinkConn::Connected,
            writes_issued: st.writes_issued + 1,
            writes_succeeded: st.writes_succeeded + 1,
        },
        (WritePhase::RetryWrite, SinkEvent::WriteErr) => WriteAttempt {
            phase: WritePhase::Done { persisted: false },
            conn: SinkConn::Connected,
            writes_issued: st.writes_issued + 1,
            writes_succeeded: st.writes_succeeded,
        },
        _ => st,
    }
}

/// What holds of every state the write protocol can reach: never more than
/// one successful write, two issued writes at most, and a message counts as
/// persisted exactly when one write succeeded.
pub open spec fn spec_write_inv(st: WriteAttempt) -> bool {
    match st.phase {
        WritePhase::FirstWrite => st.writes_issued == 0 && st.writes_succeeded == 0,
        WritePhase::Reconnect => st.writes_issued == 1 && st.writes_succeeded == 0,
        WritePhase::RetryWrite => st.writes_issued == 1 && st.writes_succeeded == 0,
        WritePhase::Done { persisted } => st.writes_issued <= 2 && st.writes_succeeded <= 1 && (
        persisted <==> st.writes_succeeded == 1),
    }
}

pub proof fn lemma_write_inv_preserved(st: WriteAttempt, ev: SinkEvent)
    requires
        spec_write_inv(st),
        spec_write_valid(st, ev),
    ensures
        spec_write_inv(spec_write_next(st, ev)),
{
}

/// The protocol state after a sequence of reported outcomes.
pub open spec fn spec_write_run(st: WriteAttempt, evs: Seq<SinkEvent>) -> WriteAttempt
    decreases evs.len(),
{
    if evs.len() == 0 {
        st
    } else {
        spec_write_run(spec_write_next(st, evs[0]), evs.skip(1))
    }
}

pub open spec fn spec_write_trace_valid(st: WriteAttempt, evs: Seq<SinkEvent>) -> bool
    decreases evs.len(),
{
    evs.len() == 0 || (spec_write_valid(st, evs[0]) && spec_write_trace_valid(
        spec_write_next(st, evs[0]),
        evs.skip(1),
    ))
}

pub proof fn lemma_write_run_inv(st: WriteAttempt, evs: Seq<SinkEvent>)
    requires
        spec_write_inv(st),
        spec_write_trace_valid(st, evs),
    ensures
        spec_write_inv(spec_write_run(st, evs)),
    decreases evs.len(),
{
    if evs.len() > 0 {
        lemma_write_inv_preserved(st, evs[0]);
        lemma_write_run_inv(spec_write_next(st, evs[0]), evs.skip(1));
    }
}

/// For any run of the write protocol on one message, at most one sink write
/// succeeds, and the message is persisted exactly when one did: the success
/// path never issues a duplicate write.
pub proof fn law_single_write_success(evs: Seq<SinkEvent>)
    requires
        spec_write_trace_valid(spec_write_begin(), evs),
    ensures
        spec_write_run(spec_write_begin(), evs).writes_succeeded <= 1,
        spec_write_run(spec_write_begin(), evs).phase matches WritePhase::Done { persisted }
            ==> (persisted <==> spec_write_run(spec_write_begin(), evs).writes_succeeded == 1),
{
    lemma_write_run_inv(spec_write_begin(), evs);
    let fin = spec_write_run(spec_write_begin(), evs);
    if fin.phase is Done {
    } else {
    }
}

/// A write that fails once and succeeds after the reconnect persists the
/// message with exactly one successful write out of two issued.
pub proof fn law_retry_then_success()
    ensures
        ({
            let evs = seq![SinkEvent::WriteErr, SinkEvent::ReconnectOk, SinkEvent::WriteOk];
            let fin = spec_write_run(spec_write_begin(), evs);
            fin.phase == (WritePhase::Done { persisted: true }) && fin.writes_succeeded == 1
                && fin.writes_issued == 2
        }),
{
    let evs = seq![SinkEvent::WriteErr, SinkEvent::ReconnectOk, SinkEvent::WriteOk];
    let s0 = spec_write_begin();
    let s1 = spec_write_next(s0, SinkEvent::WriteErr);
    let s2 = spec_write_next(s1, SinkEvent::ReconnectOk);
    let s3 = spec_write_next(s2, SinkEvent::WriteOk);
    assert(evs.skip(1) =~= seq![SinkEvent::ReconnectOk, SinkEvent::WriteOk]);
    assert(evs.skip(1).skip(1) =~= seq![SinkEvent::WriteOk]);
    assert(evs.skip(1).skip(1).skip(1) =~= Seq::<SinkEvent>::empty());
    reveal_with_fuel(spec_write_run, 5);
    assert(spec_write_run(s0, evs) == s3);
}

/// How one clock reading moves the lag gate: a sample is granted, and the
/// window restarted, exactly when the last granted sample lies a full
/// window in the past.
pub open spec fn spec_gate_step(last: int, now: int) -> (bool, int) {
    if now - last >= 5000 {
        (true, now)
    } else {
        (false, last)
    }
}

/// Throttles the lag gauge to at most one reading per five-second window of
/// wall-clock time.
pub struct LagGate {
    pub last_update_ms: u64,
}

impl LagGate {
    pub fn new(now_ms: u64) -> (r: LagGate)
        ensures
            r.last_update_ms == now_ms,
    {
        LagGate { last_update_ms: now_ms }
    }

    /// Asks to publish a lag reading at clock value `now_ms`, on a clock
    /// that never moves backwards.
    pub fn try_sample(&mut self, now_ms: u64) -> (granted: bool)
        requires
            now_ms >= old(self).last_update_ms,
        ensures
            (granted, final(self).last_update_ms as int) == spec_gate_step(
                old(self).last_update_ms as int,
                now_ms as int,
            ),
    {
        if now_ms - self.last_update_ms >= 5000 {
            self.last_update_ms = now_ms;
            true
        } else {
            false
        }
    }
}

/// The grant decisions for a sequence of clock readings, beginning with a
/// window that ended at `last`.
pub open spec fn spec_gate_grants(last: int, times: Seq<int>) -> Seq<bool>
    decreases times.len(),
{
    if times.len() == 0 {
        Seq::<bool>::empty()
    } else {
        let g = spec_gate_step(last, times[0]).0;
        seq![g] + spec_gate_grants(spec_gate_step(last, times[0]).1, times.skip(1))
    }
}

pub proof fn lemma_gate_grants_len(last: int, times: Seq<int>)
    ensures
        spec_gate_grants(last, times).len() == times.len(),
    decreases times.len(),
{
    if times.len() > 0 {
        lemma_gate_grants_len(spec_gate_step(last, times[0]).1, times.skip(1));
    }
}

pub proof fn lemma_gate_grant_after(l0: int, ts: Seq<int>, m: int)
    requires
        0 <= m < ts.len(),
        spec_gate_grants(l0, ts)[m],
    ensures
        ts[m] >= l0 + 5000,
    decreases m,
{
    let g0 = spec_gate_step(l0, ts[0]).0;
    let l1 = spec_gate_step(l0, ts[0]).1;
    lemma_gate_grants_len(l1, ts.skip(1));
    assert(spec_gate_grants(l0, ts) == seq![g0] + spec_gate_grants(l1, ts.skip(1)));
    if m == 0 {
        assert(spec_gate_grants(l0, ts)[0] == (seq![g0] + spec_gate_grants(l1, ts.skip(1)))[0]);
        assert((seq![g0] + spec_gate_grants(l1, ts.skip(1)))[0] == g0);
    } else {
        assert(spec_gate_grants(l0, ts)[m] == (seq![g0] + spec_gate_grants(l1, ts.skip(1)))[m]);
        assert((seq![g0] + spec_gate_grants(l1, ts.skip(1)))[m] == spec_gate_grants(
            l1,
            ts.skip(1),
        )[m - 1]);
        lemma_gate_grant_after(l1, ts.skip(1), m - 1);
        assert(ts.skip(1)[m - 1] == ts[m]);
    }
}

/// Whatever the message throughput, two granted lag readings always lie a
/// full five-second window apart: the gauge moves at most once per window.
pub proof fn law_lag_gate_spacing(last: int, times: Seq<int>, i: int, j: int)
    requires
        0 <= i < j < times.len(),
        spec_gate_grants(last, times)[i],
        spec_gate_grants(last, times)[j],
    ensures
        times[j] - times[i] >= 5000,
    decreases i,
{
    let g0 = spec_gate_step(last, times[0]).0;
    let l1 = spec_gate_step(last, times[0]).1;
    lemma_gate_grants_len(l1, times.skip(1));
    assert(spec_gate_grants(last, times) == seq![g0] + spec_gate_grants(l1, times.skip(1)));
    assert(spec_gate_grants(last, times)[j] == (seq![g0] + spec_gate_grants(
        l1,
        times.skip(1),
    ))[j]);
    assert((seq![g0] + spec_gate_grants(l1, times.skip(1)))[j] == spec_gate_grants(
        l1,
        times.skip(1),
    )[j - 1]);
    if i == 0 {
        assert(spec_gate_grants(last, times)[0] == (seq![g0] + spec_gate_grants(
            l1,
            times.skip(1),
        ))[0]);
        assert(g0);
        assert(l1 == times[0]);
        lemma_gate_grant_after(l1, times.skip(1), j - 1);
        assert(times.skip(1)[j - 1] == times[j]);
    } else {
        assert(spec_gate_grants(last, times)[i] == (seq![g0] + spec_gate_grants(
            l1,
            times.skip(1),
        ))[i]);
        assert((seq![g0] + spec_gate_grants(l1, times.skip(1)))[i] == spec_gate_grants(
            l1,
            times.skip(1),
        )[i - 1]);
        law_lag_gate_spacing(l1, times.skip(1), i - 1, j - 1);
        assert(times.skip(1)[i - 1] == times[i]);
        assert(times.skip(1)[j - 1] == times[j]);
    }
}

/// The consumer's backlog on one partition: the high watermark less the
/// position one past the last consumed offset, floored at zero.
pub fn compute_lag(high_watermark: i64, position: i64) -> (r: i64)
    requires
        0 <= position < i64::MAX,
        0 <= high_watermark,
    ensures
        r == if high_watermark - (position + 1) >= 0 {
            high_watermark - (position + 1)
        } else {
            0
        },
{
    let next = position + 1;
    if high_watermark > next {
        high_watermark - next
    } else {
        0
    }
}

} // verus!
