//! The tick data model: the raw trade event as the feed delivers it, and the
//! normalized tick the pipeline republishes and persists.

use vstd::prelude::*;
use crate::dec::{Dec, parse_dec_or_zero, spec_parse_dec_or_zero};

verus! {

/// A trade event as decoded from the raw topic: the decimal price and
/// quantity stay as the byte strings the feed sent.
pub struct RawTick {
    pub symbol: Vec<u8>,
    pub trade_id: i64,
    pub price: Vec<u8>,
    pub qty: Vec<u8>,
    pub trade_time_ms: i64,
    pub is_market_maker: bool,
}

pub struct RawTickV {
    pub symbol: Seq<u8>,
    pub trade_id: i64,
    pub price: Seq<u8>,
    pub qty: Seq<u8>,
    pub trade_time_ms: i64,
    pub is_market_maker: bool,
}

impl View for RawTick {
    type V = RawTickV;

    open spec fn view(&self) -> RawTickV {
        RawTickV {
            symbol: self.symbol@,
            trade_id: self.trade_id,
            price: self.price@,
            qty: self.qty@,
            trade_time_ms: self.trade_time_ms,
            is_market_maker: self.is_market_maker,
        }
    }
}

/// A canonicalized tick: price and quantity read under the default-to-zero
/// policy, every other field carried over verbatim.
pub struct NormalizedTick {
    pub ts_ms: i64,
    pub symbol: Vec<u8>,
    pub price: Dec,
    pub qty: Dec,
    pub trade_id: i64,
    pub is_bm: bool,
}

pub struct NormalizedTickV {
    pub ts_ms: i64,
    pub symbol: Seq<u8>,
    pub price: Dec,
    pub qty: Dec,
    pub trade_id: i64,
    pub is_bm: bool,
}

impl View for NormalizedTick {
    type V = NormalizedTickV;

    open spec fn view(&self) -> NormalizedTickV {
        NormalizedTickV {
            ts_ms: self.ts_ms,
            symbol: self.symbol@,
            price: self.price,
            qty: self.qty,
            trade_id: self.trade_id,
            is_bm: self.is_bm,
        }
    }
}

pub open spec fn spec_normalize(r: RawTickV) -> NormalizedTickV {
    NormalizedTickV {
        ts_ms: r.trade_time_ms,
        symbol: r.symbol,
        price: spec_parse_dec_or_zero(r.price),
        qty: spec_parse_dec_or_zero(r.qty),
        trade_id: r.trade_id,
        is_bm: r.is_market_maker,
    }
}

/// Canonicalizes a raw tick. The identifier, symbol, maker flag and trade
/// time are preserved exactly; price and quantity are the decimal values of
/// the raw byte strings, zero where a string is outside the decimal grammar.
pub fn normalize(r: RawTick) -> (t: NormalizedTick)
    ensures
        t@.ts_ms == r@.trade_time_ms,
        t@.symbol == r@.symbol,
        t@.trade_id == r@.trade_id,
        t@.is_bm == r@.is_market_maker,
        t@.price == spec_parse_dec_or_zero(r@.price),
        t@.qty == spec_parse_dec_or_zero(r@.qty),
        t@ == spec_normalize(r@),
{
    let price = parse_dec_or_zero(r.price.as_slice());
    let qty = parse_dec_or_zero(r.qty.as_slice());
    NormalizedTick {
        ts_ms: r.trade_time_ms,
        symbol: r.symbol,
        price,
        qty,
        trade_id: r.trade_id,
        is_bm: r.is_market_maker,
    }
}

} // verus!
