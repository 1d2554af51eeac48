use tick_pipeline::stage::{
    compute_lag, ingest_frame, normalize_step, persist_prepare, write_attempt_begin,
    write_attempt_next, Counters, Frame, LagGate, NormOutcome, PersistPrep, SinkConn, SinkEvent,
    WritePhase,
};

const RAW: &[u8] =
    br#"{"symbol is ignored":0,"s":"BTCUSDT","t":42,"p":"101.5","q":"0.002","T":1700000000000,"m":false}"#;
const NORM: &[u8] =
    br#"{"ts_ms":1700000000000,"symbol":"BTCUSDT","price":101.5,"qty":0.002,"trade_id":42,"is_bm":false}"#;

#[test]
fn ingest_text_frame_builds_envelope() {
    let mut c = Counters::new();
    let out = ingest_frame(
        Frame::Text(b"payload".to_vec()),
        b"id-1".to_vec(),
        1234,
        &mut c,
    );
    let e = out.expect("text frames are published");
    assert_eq!(e.payload, b"payload".to_vec());
    assert_eq!(e.msg_id, b"id-1".to_vec());
    assert_eq!(e.ts_produce_ns, 1234);
    assert_eq!(c.produced, 1);
}

#[test]
fn ingest_discards_non_text_frames() {
    let mut c = Counters::new();
    assert!(ingest_frame(Frame::Binary(b"x".to_vec()), b"id".to_vec(), 1, &mut c).is_none());
    assert!(ingest_frame(Frame::Control, b"id".to_vec(), 2, &mut c).is_none());
    assert_eq!(c.produced, 0);
}

#[test]
fn normalization_republishes_with_lineage() {
    let mut c = Counters::new();
    let out = normalize_step(
        Some(RAW.to_vec()),
        Some(b"orig-id".to_vec()),
        Some(b"1700000000000000000".to_vec()),
        b"fresh-id".to_vec(),
        9999,
        &mut c,
    );
    match out {
        NormOutcome::Publish { payload, key, msg_id, ts_produce_ns } => {
            assert_eq!(payload, NORM.to_vec());
            assert_eq!(key, b"BTCUSDT".to_vec());
            assert_eq!(msg_id, b"orig-id".to_vec());
            assert_eq!(ts_produce_ns, b"1700000000000000000".to_vec());
        },
        _ => panic!("expected a publish"),
    }
    assert_eq!(c.consumed, 1);
    assert_eq!(c.produced, 1);
    assert_eq!(c.dropped, 0);
}

#[test]
fn normalization_generates_lineage_when_headers_absent() {
    let mut c = Counters::new();
    let out = normalize_step(
        Some(RAW.to_vec()),
        None,
        None,
        b"fresh-id".to_vec(),
        424242,
        &mut c,
    );
    match out {
        NormOutcome::Publish { msg_id, ts_produce_ns, .. } => {
            assert_eq!(msg_id, b"fresh-id".to_vec());
            assert_eq!(ts_produce_ns, b"424242".to_vec());
        },
        _ => panic!("expected a publish"),
    }
}

#[test]
fn normalization_drops_each_malformed_message_once() {
    let mut c = Counters::new();
    for (i, bad) in [&b"{broken"[..], &b"[]"[..], &b"{\"s\":1}"[..]].iter().enumerate() {
        let out = normalize_step(Some(bad.to_vec()), None, None, b"f".to_vec(), 0, &mut c);
        assert!(matches!(out, NormOutcome::Dropped));
        assert_eq!(c.dropped, (i + 1) as u64);
    }
    assert_eq!(c.consumed, 3);
    assert_eq!(c.produced, 0);
}

#[test]
fn normalization_skips_absent_payload_without_counting_a_drop() {
    let mut c = Counters::new();
    let out = normalize_step(None, None, None, b"f".to_vec(), 0, &mut c);
    assert!(matches!(out, NormOutcome::SkippedInvalid));
    assert_eq!(c.consumed, 1);
    assert_eq!(c.dropped, 0);
}

#[test]
fn persistence_encodes_line_and_latency() {
    let mut c = Counters::new();
    let out = persist_prepare(
        Some(NORM.to_vec()),
        Some(b"orig-id".to_vec()),
        Some(b"1700000000000000000".to_vec()),
        // the clock reads 500ns after the envelope was produced
        1_700_000_000_000_000_500,
        &mut c,
    );
    match out {
        PersistPrep::Write { frame, e2e_ns } => {
            assert_eq!(
                frame,
                [
                    &br#"trades,symbol=BTCUSDT price=101.5,qty=0.002,trade_id=42i,is_bm=false,msg_id="orig-id",ts_ms=1700000000000i 1700000000000000000"#[..],
                    b"\n",
                ]
                .concat()
            );
            assert_eq!(e2e_ns, 500);
        },
        _ => panic!("expected a write"),
    }
    assert_eq!(c.consumed, 1);
}

#[test]
fn persistence_latency_falls_back_to_zero() {
    let mut c = Counters::new();
    match persist_prepare(Some(NORM.to_vec()), None, None, 777, &mut c) {
        PersistPrep::Write { e2e_ns, .. } => assert_eq!(e2e_ns, 0),
        _ => panic!("expected a write"),
    }
    let mut c2 = Counters::new();
    match persist_prepare(
        Some(NORM.to_vec()),
        None,
        Some(b"not-a-number".to_vec()),
        777,
        &mut c2,
    ) {
        PersistPrep::Write { e2e_ns, .. } => assert_eq!(e2e_ns, 0),
        _ => panic!("expected a write"),
    }
}

#[test]
fn persistence_drops_each_malformed_message_once() {
    let mut c = Counters::new();
    for (i, bad) in [&b"oops"[..], &b"{}"[..]].iter().enumerate() {
        let out = persist_prepare(Some(bad.to_vec()), None, None, 0, &mut c);
        assert!(matches!(out, PersistPrep::Dropped { .. }));
        assert_eq!(c.dropped, (i + 1) as u64);
    }
    assert_eq!(c.consumed, 2);
}

#[test]
fn persistence_uses_empty_msg_id_when_header_absent() {
    let mut c = Counters::new();
    match persist_prepare(Some(NORM.to_vec()), None, None, 0, &mut c) {
        PersistPrep::Write { frame, .. } => {
            let text = String::from_utf8(frame).unwrap();
            assert!(text.contains(r#"msg_id="""#));
        },
        _ => panic!("expected a write"),
    }
}

#[test]
fn first_write_success_issues_exactly_one_write() {
    let s0 = write_attempt_begin();
    let s1 = write_attempt_next(s0, SinkEvent::WriteOk);
    assert_eq!(s1.phase, WritePhase::Done { persisted: true });
    assert_eq!(s1.writes_issued, 1);
    assert_eq!(s1.writes_succeeded, 1);
    assert_eq!(s1.conn, SinkConn::Connected);
}

#[test]
fn retry_after_reconnect_persists_with_single_success() {
    // the sink refuses the first write and accepts the retry
    let s0 = write_attempt_begin();
    let s1 = write_attempt_next(s0, SinkEvent::WriteErr);
    assert_eq!(s1.phase, WritePhase::Reconnect);
    assert_eq!(s1.conn, SinkConn::Reconnecting);
    let s2 = write_attempt_next(s1, SinkEvent::ReconnectOk);
    assert_eq!(s2.phase, WritePhase::RetryWrite);
    let s3 = write_attempt_next(s2, SinkEvent::WriteOk);
    assert_eq!(s3.phase, WritePhase::Done { persisted: true });
    assert_eq!(s3.writes_issued, 2);
    assert_eq!(s3.writes_succeeded, 1);
}

#[test]
fn failed_reconnect_abandons_the_message() {
    let s0 = write_attempt_begin();
    let s1 = write_attempt_next(s0, SinkEvent::WriteErr);
    let s2 = write_attempt_next(s1, SinkEvent::ReconnectErr);
    assert_eq!(s2.phase, WritePhase::Done { persisted: false });
    assert_eq!(s2.conn, SinkConn::Disconnected);
    assert_eq!(s2.writes_succeeded, 0);
}

#[test]
fn failed_retry_abandons_after_two_writes() {
    let s0 = write_attempt_begin();
    let s1 = write_attempt_next(s0, SinkEvent::WriteErr);
    let s2 = write_attempt_next(s1, SinkEvent::ReconnectOk);
    let s3 = write_attempt_next(s2, SinkEvent::WriteErr);
    assert_eq!(s3.phase, WritePhase::Done { persisted: false });
    assert_eq!(s3.writes_issued, 2);
    assert_eq!(s3.writes_succeeded, 0);
}

#[test]
fn lag_gate_grants_at_most_once_per_window() {
    let mut g = LagGate::new(10_000);
    assert!(!g.try_sample(10_001));
    assert!(!g.try_sample(14_999));
    assert!(g.try_sample(15_000));
    // a burst of messages right after the sample is all throttled
    assert!(!g.try_sample(15_001));
    assert!(!g.try_sample(19_999));
    assert!(g.try_sample(20_100));
    assert!(!g.try_sample(25_000));
    assert!(g.try_sample(25_100));
}

#[test]
fn lag_floors_at_zero() {
    assert_eq!(compute_lag(100, 49), 50);
    assert_eq!(compute_lag(50, 49), 0);
    assert_eq!(compute_lag(10, 49), 0);
    assert_eq!(compute_lag(0, 0), 0);
    assert_eq!(compute_lag(2, 0), 1);
}

#[test]
fn end_to_end_raw_payload_to_sink_line() {
    // ingest: the feed frame carries the raw tick verbatim
    let mut ci = Counters::new();
    let env = ingest_frame(Frame::Text(RAW.to_vec()), b"id-7".to_vec(), 1_700_000_000_000_000_000, &mut ci)
        .expect("text frame");

    // normalize: decode, canonicalize, re-encode with the same lineage
    let mut cn = Counters::new();
    let published = match normalize_step(
        Some(env.payload),
        Some(env.msg_id.clone()),
        Some(b"1700000000000000000".to_vec()),
        b"unused-fresh".to_vec(),
        0,
        &mut cn,
    ) {
        NormOutcome::Publish { payload, msg_id, ts_produce_ns, .. } => {
            assert_eq!(payload, NORM.to_vec());
            assert_eq!(msg_id, b"id-7".to_vec());
            (payload, msg_id, ts_produce_ns)
        },
        _ => panic!("expected a publish"),
    };

    // persist: decode the normalized tick and encode the sink line
    let mut cp = Counters::new();
    match persist_prepare(Some(published.0), Some(published.1), Some(published.2), 0, &mut cp) {
        PersistPrep::Write { frame, .. } => {
            assert_eq!(
                frame,
                [
                    &br#"trades,symbol=BTCUSDT price=101.5,qty=0.002,trade_id=42i,is_bm=false,msg_id="id-7",ts_ms=1700000000000i 1700000000000000000"#[..],
                    b"\n",
                ]
                .concat()
            );
        },
        _ => panic!("expected a write"),
    }
}
