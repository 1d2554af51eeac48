use tick_pipeline::dec::{parse_dec, parse_dec_or_zero, Dec};
use tick_pipeline::ilp::{encode_ilp_frame, encode_ilp_line};
use tick_pipeline::json::{encode_norm_tick, parse_norm_tick, parse_raw_tick};
use tick_pipeline::num::{i64_to_bytes, parse_i64};
use tick_pipeline::tick::{normalize, NormalizedTick, RawTick};

fn dec(neg: bool, mant: u64, scale: u32) -> Dec {
    Dec { neg, mant, scale }
}

fn render_dec(d: &Dec) -> Vec<u8> {
    let mut v = Vec::new();
    d.render(&mut v);
    v
}

#[test]
fn parse_i64_plain_and_signed() {
    assert_eq!(parse_i64(b"0"), Some(0));
    assert_eq!(parse_i64(b"42"), Some(42));
    assert_eq!(parse_i64(b"-7"), Some(-7));
    assert_eq!(parse_i64(b"+7"), Some(7));
    assert_eq!(parse_i64(b"007"), Some(7));
    assert_eq!(parse_i64(b"9223372036854775807"), Some(i64::MAX));
    assert_eq!(parse_i64(b"-9223372036854775808"), Some(i64::MIN));
}

#[test]
fn parse_i64_rejects_junk_and_overflow() {
    assert_eq!(parse_i64(b""), None);
    assert_eq!(parse_i64(b"-"), None);
    assert_eq!(parse_i64(b"+"), None);
    assert_eq!(parse_i64(b"12a"), None);
    assert_eq!(parse_i64(b" 12"), None);
    assert_eq!(parse_i64(b"1.5"), None);
    assert_eq!(parse_i64(b"9223372036854775808"), None);
    assert_eq!(parse_i64(b"-9223372036854775809"), None);
    assert_eq!(parse_i64(b"99999999999999999999999999"), None);
}

#[test]
fn i64_renders_to_decimal_bytes() {
    assert_eq!(i64_to_bytes(0), b"0".to_vec());
    assert_eq!(i64_to_bytes(1700000000000), b"1700000000000".to_vec());
    assert_eq!(i64_to_bytes(-42), b"-42".to_vec());
    assert_eq!(i64_to_bytes(i64::MIN), b"-9223372036854775808".to_vec());
}

#[test]
fn dec_parses_and_normalizes() {
    assert_eq!(parse_dec(b"101.5"), Some(dec(false, 1015, 1)));
    assert_eq!(parse_dec(b"0.002"), Some(dec(false, 2, 3)));
    assert_eq!(parse_dec(b"-3.50"), Some(dec(true, 35, 1)));
    assert_eq!(parse_dec(b"007"), Some(dec(false, 7, 0)));
    assert_eq!(parse_dec(b"101.0"), Some(dec(false, 101, 0)));
    assert_eq!(parse_dec(b"0.000"), Some(dec(false, 0, 0)));
    assert_eq!(parse_dec(b"-0.0"), Some(dec(true, 0, 0)));
    assert_eq!(parse_dec(b"+2.5"), Some(dec(false, 25, 1)));
}

#[test]
fn dec_rejects_outside_grammar() {
    assert_eq!(parse_dec(b""), None);
    assert_eq!(parse_dec(b"."), None);
    assert_eq!(parse_dec(b"1."), None);
    assert_eq!(parse_dec(b".5"), None);
    assert_eq!(parse_dec(b"1e5"), None);
    assert_eq!(parse_dec(b"1.2.3"), None);
    assert_eq!(parse_dec(b"abc"), None);
    assert_eq!(parse_dec(b"12345678901234567890123456789"), None);
}

#[test]
fn dec_default_to_zero_policy() {
    assert_eq!(parse_dec_or_zero(b"abc"), dec(false, 0, 0));
    assert_eq!(parse_dec_or_zero(b""), dec(false, 0, 0));
    assert_eq!(parse_dec_or_zero(b"2.5"), dec(false, 25, 1));
}

#[test]
fn dec_renders_exactly() {
    assert_eq!(render_dec(&dec(false, 1015, 1)), b"101.5".to_vec());
    assert_eq!(render_dec(&dec(false, 2, 3)), b"0.002".to_vec());
    assert_eq!(render_dec(&dec(true, 35, 1)), b"-3.5".to_vec());
    assert_eq!(render_dec(&dec(false, 0, 0)), b"0".to_vec());
    assert_eq!(render_dec(&dec(true, 0, 0)), b"-0".to_vec());
    assert_eq!(render_dec(&dec(false, 7, 0)), b"7".to_vec());
    assert_eq!(render_dec(&dec(false, 5, 2)), b"0.05".to_vec());
}

#[test]
fn raw_tick_parses_in_any_member_order() {
    let t = parse_raw_tick(
        br#"{"T":1700000000000,"m":false,"s":"BTCUSDT","t":42,"p":"101.5","q":"0.002"}"#,
    )
    .expect("well-formed");
    assert_eq!(t.symbol, b"BTCUSDT".to_vec());
    assert_eq!(t.trade_id, 42);
    assert_eq!(t.price, b"101.5".to_vec());
    assert_eq!(t.qty, b"0.002".to_vec());
    assert_eq!(t.trade_time_ms, 1700000000000);
    assert!(!t.is_market_maker);
}

#[test]
fn raw_tick_skips_unknown_members() {
    let t = parse_raw_tick(
        br#"{"e":"trade","E":1700000000123,"s":"ETHUSDT","t":1,"p":"2000","q":"1.0","b":88,"a":99,"T":5,"m":true,"M":true,"x":{"nested":[1,2,{"y":null}]}}"#,
    )
    .expect("well-formed");
    assert_eq!(t.symbol, b"ETHUSDT".to_vec());
    assert_eq!(t.trade_id, 1);
    assert!(t.is_market_maker);
}

#[test]
fn raw_tick_rejects_missing_and_duplicate_members() {
    assert!(parse_raw_tick(br#"{"s":"X","t":1,"p":"1","q":"1","T":5}"#).is_none());
    assert!(
        parse_raw_tick(br#"{"s":"X","s":"Y","t":1,"p":"1","q":"1","T":5,"m":true}"#).is_none()
    );
    assert!(parse_raw_tick(b"{}").is_none());
}

#[test]
fn raw_tick_rejects_malformed_json() {
    assert!(parse_raw_tick(b"").is_none());
    assert!(parse_raw_tick(b"{not json").is_none());
    assert!(parse_raw_tick(b"[1,2,3]").is_none());
    assert!(parse_raw_tick(br#"{"s":"X","t":1,"p":"1","q":"1","T":5,"m":true"#).is_none());
    assert!(parse_raw_tick(br#"{"s":"X","t":1,"p":"1","q":"1","T":5,"m":true} trailing"#).is_none());
    assert!(parse_raw_tick(br#"{"s":"X","t":1.5,"p":"1","q":"1","T":5,"m":true}"#).is_none());
    assert!(parse_raw_tick(br#"{"s":"X","t":1e5,"p":"1","q":"1","T":5,"m":true}"#).is_none());
}

#[test]
fn string_escapes_decode() {
    let t = parse_raw_tick(
        br#"{"s":"A\"B\\C\/D\n","t":1,"p":"1","q":"1","T":5,"m":false}"#,
    )
    .expect("well-formed");
    assert_eq!(t.symbol, b"A\"B\\C/D\n".to_vec());
    let u = parse_raw_tick(
        br#"{"s":"A\u001f","t":1,"p":"1","q":"1","T":5,"m":false}"#,
    )
    .expect("well-formed");
    assert_eq!(u.symbol, vec![0x41, 0x1f]);
}

#[test]
fn norm_tick_round_trips_through_json() {
    let t = NormalizedTick {
        ts_ms: 1700000000000,
        symbol: b"BTCUSDT".to_vec(),
        price: dec(false, 1015, 1),
        qty: dec(false, 2, 3),
        trade_id: 42,
        is_bm: false,
    };
    let encoded = encode_norm_tick(&t);
    assert_eq!(
        encoded,
        br#"{"ts_ms":1700000000000,"symbol":"BTCUSDT","price":101.5,"qty":0.002,"trade_id":42,"is_bm":false}"#
            .to_vec()
    );
    let back = parse_norm_tick(&encoded).expect("own encoding parses");
    assert_eq!(back.ts_ms, t.ts_ms);
    assert_eq!(back.symbol, t.symbol);
    assert_eq!(back.price, t.price);
    assert_eq!(back.qty, t.qty);
    assert_eq!(back.trade_id, t.trade_id);
    assert_eq!(back.is_bm, t.is_bm);
}

#[test]
fn norm_tick_rejects_malformed_json() {
    assert!(parse_norm_tick(b"").is_none());
    assert!(parse_norm_tick(b"garbage").is_none());
    assert!(parse_norm_tick(br#"{"ts_ms":1,"symbol":"X","price":1.0}"#).is_none());
    assert!(parse_norm_tick(br#"{"ts_ms":1,"symbol":"X","price":"1.0","qty":1,"trade_id":1,"is_bm":true}"#).is_none());
}

#[test]
fn normalize_preserves_fields_and_parses_decimals() {
    let raw = RawTick {
        symbol: b"BTCUSDT".to_vec(),
        trade_id: 42,
        price: b"101.5".to_vec(),
        qty: b"0.002".to_vec(),
        trade_time_ms: 1700000000000,
        is_market_maker: false,
    };
    let t = normalize(raw);
    assert_eq!(t.ts_ms, 1700000000000);
    assert_eq!(t.symbol, b"BTCUSDT".to_vec());
    assert_eq!(t.trade_id, 42);
    assert!(!t.is_bm);
    assert_eq!(t.price, dec(false, 1015, 1));
    assert_eq!(t.qty, dec(false, 2, 3));
}

#[test]
fn normalize_defaults_bad_decimals_to_zero() {
    let raw = RawTick {
        symbol: b"X".to_vec(),
        trade_id: 1,
        price: b"not-a-number".to_vec(),
        qty: b"1e5".to_vec(),
        trade_time_ms: 5,
        is_market_maker: true,
    };
    let t = normalize(raw);
    assert_eq!(t.price, dec(false, 0, 0));
    assert_eq!(t.qty, dec(false, 0, 0));
}

#[test]
fn ilp_line_matches_wire_format() {
    let t = NormalizedTick {
        ts_ms: 1700000000000,
        symbol: b"BTCUSDT".to_vec(),
        price: dec(false, 1015, 1),
        qty: dec(false, 2, 3),
        trade_id: 42,
        is_bm: false,
    };
    let line = encode_ilp_line(&t, &b"abc".to_vec());
    assert_eq!(
        line,
        br#"trades,symbol=BTCUSDT price=101.5,qty=0.002,trade_id=42i,is_bm=false,msg_id="abc",ts_ms=1700000000000i 1700000000000000000"#
            .to_vec()
    );
}

#[test]
fn ilp_line_escapes_quotes_in_msg_id() {
    let t = NormalizedTick {
        ts_ms: 1,
        symbol: b"S".to_vec(),
        price: dec(false, 1, 0),
        qty: dec(false, 1, 0),
        trade_id: 1,
        is_bm: true,
    };
    let line = encode_ilp_line(&t, &b"a\"b".to_vec());
    let text = String::from_utf8(line).unwrap();
    assert!(text.contains(r#"msg_id="a\"b""#));
    assert!(text.ends_with("i 1000000"));
}

#[test]
fn ilp_trailing_timestamp_scales_negative_times() {
    let t = NormalizedTick {
        ts_ms: -2,
        symbol: b"S".to_vec(),
        price: dec(false, 1, 0),
        qty: dec(false, 1, 0),
        trade_id: 1,
        is_bm: false,
    };
    let line = encode_ilp_line(&t, &b"m".to_vec());
    let text = String::from_utf8(line).unwrap();
    assert!(text.ends_with(" -2000000"));
}

#[test]
fn whitespace_is_tolerated_between_tokens() {
    let t = parse_raw_tick(
        b" { \"s\" : \"X\" , \"t\" : 1 , \"p\" : \"1.5\" , \"q\" : \"2\" , \"T\" : 5 , \"m\" : true } ",
    )
    .expect("well-formed");
    assert_eq!(t.symbol, b"X".to_vec());
    assert_eq!(t.price, b"1.5".to_vec());
}

#[test]
fn unknown_member_nesting_is_bounded() {
    // a shallow nested unknown member is skipped
    let mut shallow = b"{\"x\":".to_vec();
    for _ in 0..20 {
        shallow.extend_from_slice(b"[");
    }
    for _ in 0..20 {
        shallow.extend_from_slice(b"]");
    }
    shallow.extend_from_slice(br#","s":"X","t":1,"p":"1","q":"1","T":5,"m":true}"#);
    assert!(parse_raw_tick(&shallow).is_some());

    // one nested beyond the depth bound is rejected
    let mut deep = b"{\"x\":".to_vec();
    for _ in 0..200 {
        deep.extend_from_slice(b"[");
    }
    for _ in 0..200 {
        deep.extend_from_slice(b"]");
    }
    deep.extend_from_slice(br#","s":"X","t":1,"p":"1","q":"1","T":5,"m":true}"#);
    assert!(parse_raw_tick(&deep).is_none());
}

#[test]
fn ilp_frame_is_newline_terminated() {
    let t = NormalizedTick {
        ts_ms: 1,
        symbol: b"S".to_vec(),
        price: dec(false, 1, 0),
        qty: dec(false, 1, 0),
        trade_id: 1,
        is_bm: false,
    };
    let frame = encode_ilp_frame(&t, &b"m".to_vec());
    let line = encode_ilp_line(&t, &b"m".to_vec());
    assert_eq!(frame.len(), line.len() + 1);
    assert_eq!(frame.last(), Some(&b'\n'));
    assert_eq!(&frame[..line.len()], &line[..]);
}
