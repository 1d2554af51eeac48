//! The JSON wire grammar of the pipeline's two payload schemas.
//!
//! The raw topic carries trade events as JSON objects with the feed's short
//! keys (`s`, `t`, `p`, `q`, `T`, `m`); the norm topic carries normalized
//! ticks with the long keys (`ts_ms`, `symbol`, `price`, `qty`, `trade_id`,
//! `is_bm`). Both parsers accept the members in any order, skip unknown
//! members, and reject a duplicated or missing known member. The accepted
//! string escapes are `\" \\ \/ \b \f \n \r \t` and `\u00XX`; numbers are
//! signed decimal digits with an optional fraction and no exponent; nesting
//! inside skipped members is bounded by a fixed depth.

use vstd::prelude::*;
use crate::num::{spec_is_digit, spec_parse_i64, parse_i64};
use crate::dec::{Dec, spec_digit_run, spec_parse_dec, parse_dec};
use vstd::slice::slice_subrange;

verus! {

/// Nesting allowed inside skipped members, mirroring the usual decoder limit.
pub const SKIP_DEPTH: u32 = 128;

pub open spec fn spec_ws(c: u8) -> bool {
    c == 32 || c == 9 || c == 10 || c == 13
}

/// The first index at or after `i` holding a non-whitespace byte, or the end.
pub open spec fn spec_skip_ws(s: Seq<u8>, i: int) -> int
    decreases s.len() - i when 0 <= i <= s.len()
{
    if i < s.len() && spec_ws(s[i]) {
        spec_skip_ws(s, i + 1)
    } else {
        i
    }
}

pub fn skip_ws(s: &[u8], i: usize) -> (r: usize)
    requires
        i <= s@.len(),
    ensures
        r == spec_skip_ws(s@, i as int),
        i <= r <= s@.len(),
{
    let n = s.len();
    let mut j = i;
    while j < n && (s[j] == 32 || s[j] == 9 || s[j] == 10 || s[j] == 13)
        invariant
            i <= j <= n,
            n == s@.len(),
            spec_skip_ws(s@, i as int) == spec_skip_ws(s@, j as int),
        decreases n - j,
    {
        j += 1;
    }
    j
}

pub open spec fn spec_hex_val(c: u8) -> Option<u8> {
    if 48 <= c && c <= 57 {
        Some((c - 48) as u8)
    } else if 97 <= c && c <= 102 {
        Some((c - 87) as u8)
    } else if 65 <= c && c <= 70 {
        Some((c - 55) as u8)
    } else {
        None
    }
}

/// Decodes the body of a string literal from position `i` (just behind the
/// opening quote), appending decoded bytes to `acc`, up to the closing quote.
pub open spec fn spec_str_chars(s: Seq<u8>, i: int, acc: Seq<u8>) -> Option<(Seq<u8>, int)>
    decreases s.len() - i when 0 <= i <= s.len()
{
    if i >= s.len() {
        None
    } else {
        let c = s[i];
        if c == 34 {
            Some((acc, i + 1))
        } else if c == 92 {
            if i + 1 >= s.len() {
                None
            } else {
                let e = s[i + 1];
                if e == 34 {
                    spec_str_chars(s, i + 2, acc.push(34))
                } else if e == 92 {
                    spec_str_chars(s, i + 2, acc.push(92))
                } else if e == 47 {
                    spec_str_chars(s, i + 2, acc.push(47))
                } else if e == 98 {
                    spec_str_chars(s, i + 2, acc.push(8))
                } else if e == 102 {
                    spec_str_chars(s, i + 2, acc.push(12))
                } else if e == 110 {
                    spec_str_chars(s, i + 2, acc.push(10))
                } else if e == 114 {
                    spec_str_chars(s, i + 2, acc.push(13))
                } else if e == 116 {
                    spec_str_chars(s, i + 2, acc.push(9))
                } else if e == 117 {
                    if i + 6 > s.len() || s[i + 2] != 48 || s[i + 3] != 48 {
                        None
                    } else {
                        match (spec_hex_val(s[i + 4]), spec_hex_val(s[i + 5])) {
                            (Some(h), Some(l)) => spec_str_chars(
                                s,
                                i + 6,
                                acc.push((16 * h + l) as u8),
                            ),
                            _ => None,
                        }
                    }
                } else {
                    None
                }
            }
        } else if c < 32 {
            None
        } else {
            spec_str_chars(s, i + 1, acc.push(c))
        }
    }
}

/// A string literal starting at `i`: an opening quote, decoded body, closing
/// quote; yields the decoded bytes and the position behind the literal.
pub open spec fn spec_parse_string(s: Seq<u8>, i: int) -> Option<(Seq<u8>, int)> {
    if 0 <= i < s.len() && s[i] == 34 {
        spec_str_chars(s, i + 1, Seq::<u8>::empty())
    } else {
        None
    }
}

pub fn parse_string(s: &[u8], i: usize) -> (r: Option<(Vec<u8>, usize)>)
    requires
        i <= s@.len(),
    ensures
        r is Some <==> spec_parse_string(s@, i as int) is Some,
        r matches Some((v, j)) ==> spec_parse_string(s@, i as int) == Some((v@, j as int)) && i < j
            <= s@.len(),
{
    let n = s.len();
    if i >= n || s[i] != 34 {
        return None;
    }
    let mut out: Vec<u8> = Vec::new();
    let mut p: usize = i + 1;
    loop
        invariant
            i + 1 <= p <= n,
            n == s@.len(),
            spec_str_chars(s@, i + 1, Seq::<u8>::empty()) == spec_str_chars(s@, p as int, out@),
            spec_parse_string(s@, i as int) == spec_str_chars(s@, i + 1, Seq::<u8>::empty()),
        decreases n - p,
    {
        if p >= n {
            return None;
        }
        let c = s[p];
        if c == 34 {
            return Some((out, p + 1));
        } else if c == 92 {
            if p + 1 >= n {
                return None;
            }
            let e = s[p + 1];
            if e == 117 {
                if n - p < 6 || s[p + 2] != 48 || s[p + 3] != 48 {
                    return None;
                }
                let hb = s[p + 4];
                let lb = s[p + 5];
                let h: u8 = if 48 <= hb && hb <= 57 {
                    hb - 48
                } else if 97 <= hb && hb <= 102 {
                    hb - 87
                } else if 65 <= hb && hb <= 70 {
                    hb - 55
                } else {
                    return None;
                };
                let l: u8 = if 48 <= lb && lb <= 57 {
                    lb - 48
                } else if 97 <= lb && lb <= 102 {
                    lb - 87
                } else if 65 <= lb && lb <= 70 {
                    lb - 55
                } else {
                    return None;
                };
                assert(spec_hex_val(hb) == Some(h) && spec_hex_val(lb) == Some(l));
                out.push(16 * h + l);
                p += 6;
            } else {
                let d: u8 = if e == 34 {
                    34
                } else if e == 92 {
                    92
                } else if e == 47 {
                    47
                } else if e == 98 {
                    8
                } else if e == 102 {
                    12
                } else if e == 110 {
                    10
                } else if e == 114 {
                    13
                } else if e == 116 {
                    9
                } else {
                    return None;
                };
                out.push(d);
                p += 2;
            }
        } else if c < 32 {
            return None;
        } else {
            out.push(c);
            p += 1;
        }
    }
}

/// The extent of a number token at `i`: an optional minus sign, integer
/// digits, and a fraction behind a point where one follows; `i` itself when
/// no digits start here.
pub open spec fn spec_num_token_end(s: Seq<u8>, i: int) -> int {
    let a = if i < s.len() && s[i] == 45 { i + 1 } else { i };
    let b = spec_digit_run(s, a);
    if b == a {
        i
    } else if b < s.len() && s[b] == 46 && spec_digit_run(s, b + 1) > b + 1 {
        spec_digit_run(s, b + 1)
    } else {
        b
    }
}

pub fn digit_run(s: &[u8], i: usize) -> (r: usize)
    requires
        i <= s@.len(),
    ensures
        r == spec_digit_run(s@, i as int),
        i <= r <= s@.len(),
{
    let n = s.len();
    let mut j = i;
    while j < n && s[j] >= 48 && s[j] <= 57
        invariant
            i <= j <= n,
            n == s@.len(),
            spec_digit_run(s@, i as int) == spec_digit_run(s@, j as int),
        decreases n - j,
    {
        j += 1;
    }
    j
}

pub fn num_token_end(s: &[u8], i: usize) -> (r: usize)
    requires
        i <= s@.len(),
    ensures
        r == spec_num_token_end(s@, i as int),
        i <= r <= s@.len(),
{
    let n = s.len();
    let a = if i < n && s[i] == 45 {
        i + 1
    } else {
        i
    };
    let b = digit_run(s, a);
    if b == a {
        return i;
    }
    if b < n && s[b] == 46 {
        let c = digit_run(s, b + 1);
        if c > b + 1 {
            return c;
        }
    }
    b
}

/// The boolean literal at `i`, and the position behind it.
pub open spec fn spec_parse_bool(s: Seq<u8>, i: int) -> Option<(bool, int)> {
    if 0 <= i && i + 4 <= s.len() && s[i] == 116 && s[i + 1] == 114 && s[i + 2] == 117 && s[i + 3]
        == 101 {
        Some((true, i + 4))
    } else if 0 <= i && i + 5 <= s.len() && s[i] == 102 && s[i + 1] == 97 && s[i + 2] == 108 && s[i
        + 3] == 115 && s[i + 4] == 101 {
        Some((false, i + 5))
    } else {
        None
    }
}

pub fn parse_bool(s: &[u8], i: usize) -> (r: Option<(bool, usize)>)
    requires
        i <= s@.len(),
    ensures
        r is Some <==> spec_parse_bool(s@, i as int) is Some,
        r matches Some((v, j)) ==> spec_parse_bool(s@, i as int) == Some((v, j as int)) && i < j
            <= s@.len(),
{
    let n = s.len();
    if n - i >= 4 && s[i] == 116 && s[i + 1] == 114 && s[i + 2] == 117 && s[i + 3] == 101 {
        Some((true, i + 4))
    } else if n - i >= 5 && s[i] == 102 && s[i + 1] == 97 && s[i + 2] == 108 && s[i + 3] == 115
        && s[i + 4] == 101 {
        Some((false, i + 5))
    } else {
        None
    }
}

/// Skips one JSON value starting at `i`, to a nesting depth of at most `d`;
/// yields the position behind the value.
pub open spec fn spec_skip_value(s: Seq<u8>, i: int, d: u32) -> Option<int>
    decreases s.len() - i, d, 0int when 0 <= i <= s.len()
{
    if i >= s.len() {
        None
    } else {
        let c = s[i];
        if c == 34 {
            match spec_parse_string(s, i) {
                Some((v, j)) => Some(j),
                None => None,
            }
        } else if c == 45 || spec_is_digit(c) {
            let j = spec_num_token_end(s, i);
            if j > i {
                Some(j)
            } else {
                None
            }
        } else if c == 116 || c == 102 {
            match spec_parse_bool(s, i) {
                Some((v, j)) => Some(j),
                None => None,
            }
        } else if c == 110 {
            if i + 4 <= s.len() && s[i + 1] == 117 && s[i + 2] == 108 && s[i + 3] == 108 {
                Some(i + 4)
            } else {
                None
            }
        } else if c == 123 {
            if d == 0 {
                None
            } else {
                let j = spec_skip_ws(s, i + 1);
                if i + 1 <= j <= s.len() {
                    spec_skip_members(s, j, (d - 1) as u32, true)
                } else {
                    None
                }
            }
        } else if c == 91 {
            if d == 0 {
                None
            } else {
                let j = spec_skip_ws(s, i + 1);
                if i + 1 <= j <= s.len() {
                    spec_skip_elems(s, j, (d - 1) as u32, true)
                } else {
                    None
                }
            }
        } else {
            None
        }
    }
}

/// Skips the remaining members of an object, `i` standing at a key, a
/// closing brace (only when no member has been read yet, `at_start`), or a
/// separator comma already consumed by the caller's position.
pub open spec fn spec_skip_members(s: Seq<u8>, i: int, d: u32, at_start: bool) -> Option<int>
    decreases s.len() - i, d, 1int when 0 <= i <= s.len()
{
    if i >= s.len() {
        None
    } else if at_start && s[i] == 125 {
        Some(i + 1)
    } else {
        match spec_parse_string(s, i) {
            Some((k, j)) => {
                if !(i < j <= s.len()) {
                    None
                } else {
                    let j2 = spec_skip_ws(s, j);
                    if !(j <= j2 < s.len()) || s[j2] != 58 {
                        None
                    } else {
                        let v = spec_skip_ws(s, j2 + 1);
                        if !(j2 < v <= s.len()) {
                            None
                        } else {
                            match spec_skip_value(s, v, d) {
                                Some(w) => {
                                    if !(v < w <= s.len()) {
                                        None
                                    } else {
                                        let e = spec_skip_ws(s, w);
                                        if e < s.len() && s[e] == 44 {
                                            let nx = spec_skip_ws(s, e + 1);
                                            if e < nx <= s.len() && i < nx {
                                                spec_skip_members(s, nx, d, false)
                                            } else {
                                                None
                                            }
                                        } else if e < s.len() && s[e] == 125 {
                                            Some(e + 1)
                                        } else {
                                            None
                                        }
                                    }
                                },
                                None => None,
                            }
                        }
                    }
                }
            },
            None => None,
        }
    }
}

/// Skips the remaining elements of an array, as `spec_skip_members` does for
/// an object.
pub open spec fn spec_skip_elems(s: Seq<u8>, i: int, d: u32, at_start: bool) -> Option<int>
    decreases s.len() - i, d, 1int when 0 <= i <= s.len()
{
    if i >= s.len() {
        None
    } else if at_start && s[i] == 93 {
        Some(i + 1)
    } else {
        match spec_skip_value(s, i, d) {
            Some(w) => {
                if !(i < w <= s.len()) {
                    None
                } else {
                    let e = spec_skip_ws(s, w);
                    if e < s.len() && s[e] == 44 {
                        let nx = spec_skip_ws(s, e + 1);
                        if e < nx <= s.len() && i < nx {
                            spec_skip_elems(s, nx, d, false)
                        } else {
                            None
                        }
                    } else if e < s.len() && s[e] == 93 {
                        Some(e + 1)
                    } else {
                        None
                    }
                }
            },
            None => None,
        }
    }
}

pub fn skip_value(s: &[u8], i: usize, d: u32) -> (r: Option<usize>)
    requires
        i <= s@.len(),
    ensures
        r is Some <==> spec_skip_value(s@, i as int, d) is Some,
        r matches Some(j) ==> spec_skip_value(s@, i as int, d) == Some(j as int) && i < j
            <= s@.len(),
    decreases s@.len() - i, d, 0int,
{
    let n = s.len();
    if i >= n {
        return None;
    }
    let c = s[i];
    if c == 34 {
        match parse_string(s, i) {
            Some((v, j)) => Some(j),
            None => None,
        }
    } else if c == 45 || (48 <= c && c <= 57) {
        let j = num_token_end(s, i);
        if j > i {
            Some(j)
        } else {
            None
        }
    } else if c == 116 || c == 102 {
        match parse_bool(s, i) {
            Some((v, j)) => Some(j),
            None => None,
        }
    } else if c == 110 {
        if n - i >= 4 && s[i + 1] == 117 && s[i + 2] == 108 && s[i + 3] == 108 {
            Some(i + 4)
        } else {
            None
        }
    } else if c == 123 {
        if d == 0 {
            return None;
        }
        let j = skip_ws(s, i + 1);
        skip_members(s, j, d - 1, true)
    } else if c == 91 {
        if d == 0 {
            return None;
        }
        let j = skip_ws(s, i + 1);
        skip_elems(s, j, d - 1, true)
    } else {
        None
    }
}

pub fn skip_members(s: &[u8], i: usize, d: u32, at_start: bool) -> (r: Option<usize>)
    requires
        i <= s@.len(),
    ensures
        r is Some <==> spec_skip_members(s@, i as int, d, at_start) is Some,
        r matches Some(j) ==> spec_skip_members(s@, i as int, d, at_start) == Some(j as int) && i
            < j <= s@.len(),
    decreases s@.len() - i, d, 1int,
{
    let n = s.len();
    if i >= n {
        return None;
    }
    if at_start && s[i] == 125 {
        return Some(i + 1);
    }
    let (k, j) = match parse_string(s, i) {
        Some(p) => p,
        None => {
            return None;
        },
    };
    let j2 = skip_ws(s, j);
    if !(j2 < n) || s[j2] != 58 {
        return None;
    }
    let v = skip_ws(s, j2 + 1);
    if !(j2 < v) {
        return None;
    }
    let w = match skip_value(s, v, d) {
        Some(w) => w,
        None => {
            return None;
        },
    };
    let e = skip_ws(s, w);
    if e < n && s[e] == 44 {
        let nx = skip_ws(s, e + 1);
        if e < nx && i < nx {
            skip_members(s, nx, d, false)
        } else {
            None
        }
    } else if e < n && s[e] == 125 {
        Some(e + 1)
    } else {
        None
    }
}

pub fn skip_elems(s: &[u8], i: usize, d: u32, at_start: bool) -> (r: Option<usize>)
    requires
        i <= s@.len(),
    ensures
        r is Some <==> spec_skip_elems(s@, i as int, d, at_start) is Some,
        r matches Some(j) ==> spec_skip_elems(s@, i as int, d, at_start) == Some(j as int) && i < j
            <= s@.len(),
    decreases s@.len() - i, d, 1int,
{
    let n = s.len();
    if i >= n {
        return None;
    }
    if at_start && s[i] == 93 {
        return Some(i + 1);
    }
    let w = match skip_value(s, i, d) {
        Some(w) => w,
        None => {
            return None;
        },
    };
    let e = skip_ws(s, w);
    if e < n && s[e] == 44 {
        let nx = skip_ws(s, e + 1);
        if e < nx && i < nx {
            skip_elems(s, nx, d, false)
        } else {
            None
        }
    } else if e < n && s[e] == 93 {
        Some(e + 1)
    } else {
        None
    }
}


/// Partially gathered members of a raw trade object.
pub struct RawAcc {
    pub symbol: Option<Seq<u8>>,
    pub trade_id: Option<i64>,
    pub price: Option<Seq<u8>>,
    pub qty: Option<Seq<u8>>,
    pub trade_time_ms: Option<i64>,
    pub is_market_maker: Option<bool>,
}

pub open spec fn spec_raw_acc_empty() -> RawAcc {
    RawAcc {
        symbol: None,
        trade_id: None,
        price: None,
        qty: None,
        trade_time_ms: None,
        is_market_maker: None,
    }
}

/// The finished tick, once every required member has been seen.
pub open spec fn spec_raw_done(a: RawAcc) -> Option<crate::tick::RawTickV> {
    if a.symbol is Some && a.trade_id is Some && a.price is Some && a.qty is Some
        && a.trade_time_ms is Some && a.is_market_maker is Some {
        Some(
            crate::tick::RawTickV {
                symbol: a.symbol->Some_0,
                trade_id: a.trade_id->Some_0,
                price: a.price->Some_0,
                qty: a.qty->Some_0,
                trade_time_ms: a.trade_time_ms->Some_0,
                is_market_maker: a.is_market_maker->Some_0,
            },
        )
    } else {
        None
    }
}

/// Reads the value of one member whose key is `k` into the accumulator: the
/// feed's known keys take a string, integer or boolean; a repeated known key
/// is an error; an unknown key's value is skipped.
pub open spec fn spec_raw_member(s: Seq<u8>, v: int, a: RawAcc, k: Seq<u8>, d: u32) -> Option<
    (RawAcc, int),
> {
    if k == seq![115u8] {  // "s"
        if a.symbol is Some {
            None
        } else {
            match spec_parse_string(s, v) {
                Some((sv, w)) => Some((RawAcc { symbol: Some(sv), ..a }, w)),
                None => None,
            }
        }
    } else if k == seq![116u8] {  // "t"
        if a.trade_id is Some {
            None
        } else {
            let e = spec_num_token_end(s, v);
            if !(v < e <= s.len()) {
                None
            } else {
                match spec_parse_i64(s.subrange(v, e)) {
                    Some(x) => Some((RawAcc { trade_id: Some(x), ..a }, e)),
                    None => None,
                }
            }
        }
    } else if k == seq![112u8] {  // "p"
        if a.price is Some {
            None
        } else {
            match spec_parse_string(s, v) {
                Some((sv, w)) => Some((RawAcc { price: Some(sv), ..a }, w)),
                None => None,
            }
        }
    } else if k == seq![113u8] {  // "q"
        if a.qty is Some {
            None
        } else {
            match spec_parse_string(s, v) {
                Some((sv, w)) => Some((RawAcc { qty: Some(sv), ..a }, w)),
                None => None,
            }
        }
    } else if k == seq![84u8] {  // "T"
        if a.trade_time_ms is Some {
            None
        } else {
            let e = spec_num_token_end(s, v);
            if !(v < e <= s.len()) {
                None
            } else {
                match spec_parse_i64(s.subrange(v, e)) {
                    Some(x) => Some((RawAcc { trade_time_ms: Some(x), ..a }, e)),
                    None => None,
                }
            }
        }
    } else if k == seq![109u8] {  // "m"
        if a.is_market_maker is Some {
            None
        } else {
            match spec_parse_bool(s, v) {
                Some((b, w)) => Some((RawAcc { is_market_maker: Some(b), ..a }, w)),
                None => None,
            }
        }
    } else {
        match spec_skip_value(s, v, d) {
            Some(w) => Some((a, w)),
            None => None,
        }
    }
}

/// Reads members from the first key onward until the closing brace, then
/// finishes the accumulated tick.
pub open spec fn spec_raw_fields(s: Seq<u8>, i: int, a: RawAcc, d: u32) -> Option<
    (crate::tick::RawTickV, int),
>
    decreases s.len() - i when 0 <= i <= s.len()
{
    match spec_parse_string(s, i) {
        Some((k, j)) => {
            if !(i < j <= s.len()) {
                None
            } else {
                let j2 = spec_skip_ws(s, j);
                if !(j <= j2 < s.len()) || s[j2] != 58 {
                    None
                } else {
                    let v = spec_skip_ws(s, j2 + 1);
                    if !(j2 < v <= s.len()) {
                        None
                    } else {
                        match spec_raw_member(s, v, a, k, d) {
                            Some((a2, w)) => {
                                if !(i < w <= s.len()) {
                                    None
                                } else {
                                    let e = spec_skip_ws(s, w);
                                    if e < s.len() && s[e] == 44 {
                                        let nx = spec_skip_ws(s, e + 1);
                                        if e < nx <= s.len() && i < nx {
                                            spec_raw_fields(s, nx, a2, d)
                                        } else {
                                            None
                                        }
                                    } else if e < s.len() && s[e] == 125 {
                                        match spec_raw_done(a2) {
                                            Some(t) => Some((t, e + 1)),
                                            None => None,
                                        }
                                    } else {
                                        None
                                    }
                                }
                            },
                            None => None,
                        }
                    }
                }
            }
        },
        None => None,
    }
}

/// The raw trade object denoted by the whole payload: optional whitespace, a
/// brace-delimited object holding all six feed members exactly once (other
/// members skipped), optional whitespace, end of input.
pub open spec fn spec_parse_raw_tick(s: Seq<u8>) -> Option<crate::tick::RawTickV> {
    let i = spec_skip_ws(s, 0);
    if !(0 <= i < s.len()) || s[i] != 123 {
        None
    } else {
        let j = spec_skip_ws(s, i + 1);
        if !(i < j <= s.len()) {
            None
        } else {
            match spec_raw_fields(s, j, spec_raw_acc_empty(), SKIP_DEPTH) {
                Some((t, e)) => {
                    if 0 <= e <= s.len() && spec_skip_ws(s, e) == s.len() {
                        Some(t)
                    } else {
                        None
                    }
                },
                None => None,
            }
        }
    }
}

/// Exec mirror of `RawAcc`.
pub struct RawAccX {
    pub symbol: Option<Vec<u8>>,
    pub trade_id: Option<i64>,
    pub price: Option<Vec<u8>>,
    pub qty: Option<Vec<u8>>,
    pub trade_time_ms: Option<i64>,
    pub is_market_maker: Option<bool>,
}

impl View for RawAccX {
    type V = RawAcc;

    open spec fn view(&self) -> RawAcc {
        RawAcc {
            symbol: match self.symbol {
                Some(v) => Some(v@),
                None => None,
            },
            trade_id: self.trade_id,
            price: match self.price {
                Some(v) => Some(v@),
                None => None,
            },
            qty: match self.qty {
                Some(v) => Some(v@),
                None => None,
            },
            trade_time_ms: self.trade_time_ms,
            is_market_maker: self.is_market_maker,
        }
    }
}

#[verifier::rlimit(90)]
fn raw_member(s: &[u8], v: usize, a: RawAccX, k: &Vec<u8>, d: u32) -> (r: Option<
    (RawAccX, usize),
>)
    requires
        v <= s@.len(),
    ensures
        r is Some <==> spec_raw_member(s@, v as int, a@, k@, d) is Some,
        r matches Some((a2, w)) ==> spec_raw_member(s@, v as int, a@, k@, d) == Some(
            (a2@, w as int),
        ) && v < w <= s@.len(),
{
    let is_s = k.len() == 1 && k[0] == 115;
    let is_t = k.len() == 1 && k[0] == 116;
    let is_p = k.len() == 1 && k[0] == 112;
    let is_q = k.len() == 1 && k[0] == 113;
    let is_tt = k.len() == 1 && k[0] == 84;
    let is_m = k.len() == 1 && k[0] == 109;
    proof {
        assert(is_s <==> k@ =~= seq![115u8]);
        assert(is_t <==> k@ =~= seq![116u8]);
        assert(is_p <==> k@ =~= seq![112u8]);
        assert(is_q <==> k@ =~= seq![113u8]);
        assert(is_tt <==> k@ =~= seq![84u8]);
        assert(is_m <==> k@ =~= seq![109u8]);
    }
    if is_s {
        if a.symbol.is_some() {
            return None;
        }
        match parse_string(s, v) {
            Some((sv, w)) => Some((RawAccX { symbol: Some(sv), ..a }, w)),
            None => None,
        }
    } else if is_t {
        if a.trade_id.is_some() {
            return None;
        }
        let e = num_token_end(s, v);
        if e <= v {
            return None;
        }
        let tok = slice_subrange(s, v, e);
        match parse_i64(tok) {
            Some(x) => Some((RawAccX { trade_id: Some(x), ..a }, e)),
            None => None,
        }
    } else if is_p {
        if a.price.is_some() {
            return None;
        }
        match parse_string(s, v) {
            Some((sv, w)) => Some((RawAccX { price: Some(sv), ..a }, w)),
            None => None,
        }
    } else if is_q {
        if a.qty.is_some() {
            return None;
        }
        match parse_string(s, v) {
            Some((sv, w)) => Some((RawAccX { qty: Some(sv), ..a }, w)),
            None => None,
        }
    } else if is_tt {
        if a.trade_time_ms.is_some() {
            return None;
        }
        let e = num_token_end(s, v);
        if e <= v {
            return None;
        }
        let tok = slice_subrange(s, v, e);
        match parse_i64(tok) {
            Some(x) => Some((RawAccX { trade_time_ms: Some(x), ..a }, e)),
            None => None,
        }
    } else if is_m {
        if a.is_market_maker.is_some() {
            return None;
        }
        match parse_bool(s, v) {
            Some((b, w)) => Some((RawAccX { is_market_maker: Some(b), ..a }, w)),
            None => None,
        }
    } else {
        match skip_value(s, v, d) {
            Some(w) => Some((a, w)),
            None => None,
        }
    }
}

/// Parses a raw trade payload per `spec_parse_raw_tick`.
pub fn parse_raw_tick(s: &[u8]) -> (r: Option<crate::tick::RawTick>)
    ensures
        r is Some <==> spec_parse_raw_tick(s@) is Some,
        r matches Some(t) ==> spec_parse_raw_tick(s@) == Some(t@),
{
    let n = s.len();
    let i = skip_ws(s, 0);
    if i >= n || s[i] != 123 {
        return None;
    }
    let j = skip_ws(s, i + 1);
    let mut a = RawAccX {
        symbol: None,
        trade_id: None,
        price: None,
        qty: None,
        trade_time_ms: None,
        is_market_maker: None,
    };
    assert(a@ == spec_raw_acc_empty());
    let mut p = j;
    let d = SKIP_DEPTH;
    loop
        invariant
            i < p <= n,
            n == s@.len(),
            d == SKIP_DEPTH,
            spec_parse_raw_tick(s@) == (match spec_raw_fields(s@, p as int, a@, d) {
                Some((t, e)) => {
                    if 0 <= e <= s@.len() && spec_skip_ws(s@, e) == s@.len() {
                        Some(t)
                    } else {
                        None
                    }
                },
                None => None,
            }),
        decreases n - p,
    {
        let (k, kj) = match parse_string(s, p) {
            Some(x) => x,
            None => {
                return None;
            },
        };
        let j2 = skip_ws(s, kj);
        if j2 >= n || s[j2] != 58 {
            return None;
        }
        let v = skip_ws(s, j2 + 1);
        let (a2, w) = match raw_member(s, v, a, &k, d) {
            Some(x) => x,
            None => {
                return None;
            },
        };
        let e = skip_ws(s, w);
        if e < n && s[e] == 44 {
            let nx = skip_ws(s, e + 1);
            a = a2;
            p = nx;
        } else if e < n && s[e] == 125 {
            if a2.symbol.is_some() && a2.trade_id.is_some() && a2.price.is_some()
                && a2.qty.is_some() && a2.trade_time_ms.is_some()
                && a2.is_market_maker.is_some() {
                let t = crate::tick::RawTick {
                    symbol: match a2.symbol {
                        Some(x) => x,
                        None => {
                            return None;
                        },
                    },
                    trade_id: match a2.trade_id {
                        Some(x) => x,
                        None => {
                            return None;
                        },
                    },
                    price: match a2.price {
                        Some(x) => x,
                        None => {
                            return None;
                        },
                    },
                    qty: match a2.qty {
                        Some(x) => x,
                        None => {
                            return None;
                        },
                    },
                    trade_time_ms: match a2.trade_time_ms {
                        Some(x) => x,
                        None => {
                            return None;
                        },
                    },
                    is_market_maker: match a2.is_market_maker {
                        Some(x) => x,
                        None => {
                            return None;
                        },
                    },
                };
                let fin = skip_ws(s, e + 1);
                if fin == n {
                    return Some(t);
                } else {
                    return None;
                }
            } else {
                return None;
            }
        } else {
            return None;
        }
    }
}


/// Partially gathered members of a normalized tick object.
pub struct NormAcc {
    pub ts_ms: Option<i64>,
    pub symbol: Option<Seq<u8>>,
    pub price: Option<Dec>,
    pub qty: Option<Dec>,
    pub trade_id: Option<i64>,
    pub is_bm: Option<bool>,
}

pub open spec fn spec_norm_acc_empty() -> NormAcc {
    NormAcc { ts_ms: None, symbol: None, price: None, qty: None, trade_id: None, is_bm: None }
}

pub open spec fn spec_norm_done(a: NormAcc) -> Option<crate::tick::NormalizedTickV> {
    if a.ts_ms is Some && a.symbol is Some && a.price is Some && a.qty is Some
        && a.trade_id is Some && a.is_bm is Some {
        Some(
            crate::tick::NormalizedTickV {
                ts_ms: a.ts_ms->Some_0,
                symbol: a.symbol->Some_0,
                price: a.price->Some_0,
                qty: a.qty->Some_0,
                trade_id: a.trade_id->Some_0,
                is_bm: a.is_bm->Some_0,
            },
        )
    } else {
        None
    }
}

pub open spec fn spec_key_ts_ms() -> Seq<u8> {
    seq![116u8, 115u8, 95u8, 109u8, 115u8]
}

pub open spec fn spec_key_symbol() -> Seq<u8> {
    seq![115u8, 121u8, 109u8, 98u8, 111u8, 108u8]
}

pub open spec fn spec_key_price() -> Seq<u8> {
    seq![112u8, 114u8, 105u8, 99u8, 101u8]
}

pub open spec fn spec_key_qty() -> Seq<u8> {
    seq![113u8, 116u8, 121u8]
}

pub open spec fn spec_key_trade_id() -> Seq<u8> {
    seq![116u8, 114u8, 97u8, 100u8, 101u8, 95u8, 105u8, 100u8]
}

pub open spec fn spec_key_is_bm() -> Seq<u8> {
    seq![105u8, 115u8, 95u8, 98u8, 109u8]
}

/// Reads the value of one normalized-tick member whose key is `k`: price and
/// quantity are decimal number tokens, the rest integers, a string and a
/// boolean; a repeated known key is an error; an unknown key's value is
/// skipped.
pub open spec fn spec_norm_member(s: Seq<u8>, v: int, a: NormAcc, k: Seq<u8>, d: u32) -> Option<
    (NormAcc, int),
> {
    if k == spec_key_ts_ms() {
        if a.ts_ms is Some {
            None
        } else {
            let e = spec_num_token_end(s, v);
            if !(v < e <= s.len()) {
                None
            } else {
                match spec_parse_i64(s.subrange(v, e)) {
                    Some(x) => Some((NormAcc { ts_ms: Some(x), ..a }, e)),
                    None => None,
                }
            }
        }
    } else if k == spec_key_symbol() {
        if a.symbol is Some {
            None
        } else {
            match spec_parse_string(s, v) {
                Some((sv, w)) => Some((NormAcc { symbol: Some(sv), ..a }, w)),
                None => None,
            }
        }
    } else if k == spec_key_price() {
        if a.price is Some {
            None
        } else {
            let e = spec_num_token_end(s, v);
            if !(v < e <= s.len()) {
                None
            } else {
                match spec_parse_dec(s.subrange(v, e)) {
                    Some(x) => Some((NormAcc { price: Some(x), ..a }, e)),
                    None => None,
                }
            }
        }
    } else if k == spec_key_qty() {
        if a.qty is Some {
            None
        } else {
            let e = spec_num_token_end(s, v);
            if !(v < e <= s.len()) {
                None
            } else {
                match spec_parse_dec(s.subrange(v, e)) {
                    Some(x) => Some((NormAcc { qty: Some(x), ..a }, e)),
                    None => None,
                }
            }
        }
    } else if k == spec_key_trade_id() {
        if a.trade_id is Some {
            None
        } else {
            let e = spec_num_token_end(s, v);
            if !(v < e <= s.len()) {
                None
            } else {
                match spec_parse_i64(s.subrange(v, e)) {
                    Some(x) => Some((NormAcc { trade_id: Some(x), ..a }, e)),
                    None => None,
                }
            }
        }
    } else if k == spec_key_is_bm() {
        if a.is_bm is Some {
            None
        } else {
            match spec_parse_bool(s, v) {
                Some((b, w)) => Some((NormAcc { is_bm: Some(b), ..a }, w)),
                None => None,
            }
        }
    } else {
        match spec_skip_value(s, v, d) {
            Some(w) => Some((a, w)),
            None => None,
        }
    }
}

pub open spec fn spec_norm_fields(s: Seq<u8>, i: int, a: NormAcc, d: u32) -> Option<
    (crate::tick::NormalizedTickV, int),
>
    decreases s.len() - i when 0 <= i <= s.len()
{
    match spec_parse_string(s, i) {
        Some((k, j)) => {
            if !(i < j <= s.len()) {
                None
            } else {
                let j2 = spec_skip_ws(s, j);
                if !(j <= j2 < s.len()) || s[j2] != 58 {
                    None
                } else {
                    let v = spec_skip_ws(s, j2 + 1);
                    if !(j2 < v <= s.len()) {
                        None
                    } else {
                        match spec_norm_member(s, v, a, k, d) {
                            Some((a2, w)) => {
                                if !(i < w <= s.len()) {
                                    None
                                } else {
                                    let e = spec_skip_ws(s, w);
                                    if e < s.len() && s[e] == 44 {
                                        let nx = spec_skip_ws(s, e + 1);
                                        if e < nx <= s.len() && i < nx {
                                            spec_norm_fields(s, nx, a2, d)
                                        } else {
                                            None
                                        }
                                    } else if e < s.len() && s[e] == 125 {
                                        match spec_norm_done(a2) {
                                            Some(t) => Some((t, e + 1)),
                                            None => None,
                                        }
                                    } else {
                                        None
                                    }
                                }
                            },
                            None => None,
                        }
                    }
                }
            }
        },
        None => None,
    }
}

/// The normalized tick denoted by the whole payload, under the same shape
/// rules as `spec_parse_raw_tick`.
pub open spec fn spec_parse_norm_tick(s: Seq<u8>) -> Option<crate::tick::NormalizedTickV> {
    let i = spec_skip_ws(s, 0);
    if !(0 <= i < s.len()) || s[i] != 123 {
        None
    } else {
        let j = spec_skip_ws(s, i + 1);
        if !(i < j <= s.len()) {
            None
        } else {
            match spec_norm_fields(s, j, spec_norm_acc_empty(), SKIP_DEPTH) {
                Some((t, e)) => {
                    if 0 <= e <= s.len() && spec_skip_ws(s, e) == s.len() {
                        Some(t)
                    } else {
                        None
                    }
                },
                None => None,
            }
        }
    }
}

/// Exec mirror of `NormAcc`.
pub struct NormAccX {
    pub ts_ms: Option<i64>,
    pub symbol: Option<Vec<u8>>,
    pub price: Option<Dec>,
    pub qty: Option<Dec>,
    pub trade_id: Option<i64>,
    pub is_bm: Option<bool>,
}

impl View for NormAccX {
    type V = NormAcc;

    open spec fn view(&self) -> NormAcc {
        NormAcc {
            ts_ms: self.ts_ms,
            symbol: match self.symbol {
                Some(v) => Some(v@),
                None => None,
            },
            price: self.price,
            qty: self.qty,
            trade_id: self.trade_id,
            is_bm: self.is_bm,
        }
    }
}

#[verifier::rlimit(90)]
fn norm_member(s: &[u8], v: usize, a: NormAccX, k: &Vec<u8>, d: u32) -> (r: Option<
    (NormAccX, usize),
>)
    requires
        v <= s@.len(),
    ensures
        r is Some <==> spec_norm_member(s@, v as int, a@, k@, d) is Some,
        r matches Some((a2, w)) ==> spec_norm_member(s@, v as int, a@, k@, d) == Some(
            (a2@, w as int),
        ) && v < w <= s@.len(),
{
    let is_ts = k.len() == 5 && k[0] == 116 && k[1] == 115 && k[2] == 95 && k[3] == 109 && k[4]
        == 115;
    let is_sym = k.len() == 6 && k[0] == 115 && k[1] == 121 && k[2] == 109 && k[3] == 98 && k[4]
        == 111 && k[5] == 108;
    let is_price = k.len() == 5 && k[0] == 112 && k[1] == 114 && k[2] == 105 && k[3] == 99 && k[4]
        == 101;
    let is_qty = k.len() == 3 && k[0] == 113 && k[1] == 116 && k[2] == 121;
    let is_tid = k.len() == 8 && k[0] == 116 && k[1] == 114 && k[2] == 97 && k[3] == 100 && k[4]
        == 101 && k[5] == 95 && k[6] == 105 && k[7] == 100;
    let is_bm = k.len() == 5 && k[0] == 105 && k[1] == 115 && k[2] == 95 && k[3] == 98 && k[4]
        == 109;
    proof {
        assert(is_ts <==> k@ =~= spec_key_ts_ms());
        assert(is_sym <==> k@ =~= spec_key_symbol());
        assert(is_price <==> k@ =~= spec_key_price());
        assert(is_qty <==> k@ =~= spec_key_qty());
        assert(is_tid <==> k@ =~= spec_key_trade_id());
        assert(is_bm <==> k@ =~= spec_key_is_bm());
    }
    if is_ts {
        if a.ts_ms.is_some() {
            return None;
        }
        let e = num_token_end(s, v);
        if e <= v {
            return None;
        }
        match parse_i64(slice_subrange(s, v, e)) {
            Some(x) => Some((NormAccX { ts_ms: Some(x), ..a }, e)),
            None => None,
        }
    } else if is_sym {
        if a.symbol.is_some() {
            return None;
        }
        match parse_string(s, v) {
            Some((sv, w)) => Some((NormAccX { symbol: Some(sv), ..a }, w)),
            None => None,
        }
    } else if is_price {
        if a.price.is_some() {
            return None;
        }
        let e = num_token_end(s, v);
        if e <= v {
            return None;
        }
        match parse_dec(slice_subrange(s, v, e)) {
            Some(x) => Some((NormAccX { price: Some(x), ..a }, e)),
            None => None,
        }
    } else if is_qty {
        if a.qty.is_some() {
            return None;
        }
        let e = num_token_end(s, v);
        if e <= v {
            return None;
        }
        match parse_dec(slice_subrange(s, v, e)) {
            Some(x) => Some((NormAccX { qty: Some(x), ..a }, e)),
            None => None,
        }
    } else if is_tid {
        if a.trade_id.is_some() {
            return None;
        }
        let e = num_token_end(s, v);
        if e <= v {
            return None;
        }
        match parse_i64(slice_subrange(s, v, e)) {
            Some(x) => Some((NormAccX { trade_id: Some(x), ..a }, e)),
            None => None,
        }
    } else if is_bm {
        if a.is_bm.is_some() {
            return None;
        }
        match parse_bool(s, v) {
            Some((b, w)) => Some((NormAccX { is_bm: Some(b), ..a }, w)),
            None => None,
        }
    } else {
        match skip_value(s, v, d) {
            Some(w) => Some((a, w)),
            None => None,
        }
    }
}

/// Parses a normalized tick payload per `spec_parse_norm_tick`.
pub fn parse_norm_tick(s: &[u8]) -> (r: Option<crate::tick::NormalizedTick>)
    ensures
        r is Some <==> spec_parse_norm_tick(s@) is Some,
        r matches Some(t) ==> spec_parse_norm_tick(s@) == Some(t@),
{
    let n = s.len();
    let i = skip_ws(s, 0);
    if i >= n || s[i] != 123 {
        return None;
    }
    let j = skip_ws(s, i + 1);
    let mut a = NormAccX {
        ts_ms: None,
        symbol: None,
        price: None,
        qty: None,
        trade_id: None,
        is_bm: None,
    };
    assert(a@ == spec_norm_acc_empty());
    let mut p = j;
    let d = SKIP_DEPTH;
    loop
        invariant
            i < p <= n,
            n == s@.len(),
            d == SKIP_DEPTH,
            spec_parse_norm_tick(s@) == (match spec_norm_fields(s@, p as int, a@, d) {
                Some((t, e)) => {
                    if 0 <= e <= s@.len() && spec_skip_ws(s@, e) == s@.len() {
                        Some(t)
                    } else {
                        None
                    }
                },
                None => None,
            }),
        decreases n - p,
    {
        let (k, kj) = match parse_string(s, p) {
            Some(x) => x,
            None => {
                return None;
            },
        };
        let j2 = skip_ws(s, kj);
        if j2 >= n || s[j2] != 58 {
            return None;
        }
        let v = skip_ws(s, j2 + 1);
        let (a2, w) = match norm_member(s, v, a, &k, d) {
            Some(x) => x,
            None => {
                return None;
            },
        };
        let e = skip_ws(s, w);
        if e < n && s[e] == 44 {
            let nx = skip_ws(s, e + 1);
            a = a2;
            p = nx;
        } else if e < n && s[e] == 125 {
            if a2.ts_ms.is_some() && a2.symbol.is_some() && a2.price.is_some() && a2.qty.is_some()
                && a2.trade_id.is_some() && a2.is_bm.is_some() {
                let t = crate::tick::NormalizedTick {
                    ts_ms: match a2.ts_ms {
                        Some(x) => x,
                        None => {
                            return None;
                        },
                    },
                    symbol: match a2.symbol {
                        Some(x) => x,
                        None => {
                            return None;
                        },
                    },
                    price: match a2.price {
                        Some(x) => x,
                        None => {
                            return None;
                        },
                    },
                    qty: match a2.qty {
                        Some(x) => x,
                        None => {
                            return None;
                        },
                    },
                    trade_id: match a2.trade_id {
                        Some(x) => x,
                        None => {
                            return None;
                        },
                    },
                    is_bm: match a2.is_bm {
                        Some(x) => x,
                        None => {
                            return None;
                        },
                    },
                };
                let fin = skip_ws(s, e + 1);
                if fin == n {
                    return Some(t);
                } else {
                    return None;
                }
            } else {
                return None;
            }
        } else {
            return None;
        }
    }
}


pub open spec fn spec_hex_digit(n: u8) -> u8 {
    if n < 10 {
        (48 + n) as u8
    } else {
        (87 + n) as u8
    }
}

/// How one byte of a string value is written inside a JSON string literal:
/// quote and backslash escaped, named escapes for the usual control bytes,
/// `\u00XX` for the rest of the control range, everything else verbatim.
pub open spec fn spec_escape_byte(c: u8) -> Seq<u8> {
    if c == 34 {
        seq![92u8, 34u8]
    } else if c == 92 {
        seq![92u8, 92u8]
    } else if c == 8 {
        seq![92u8, 98u8]
    } else if c == 9 {
        seq![92u8, 116u8]
    } else if c == 10 {
        seq![92u8, 110u8]
    } else if c == 12 {
        seq![92u8, 102u8]
    } else if c == 13 {
        seq![92u8, 114u8]
    } else if c < 32 {
        seq![92u8, 117u8, 48u8, 48u8, spec_hex_digit((c / 16) as u8), spec_hex_digit((c % 16) as u8)]
    } else {
        seq![c]
    }
}

pub open spec fn spec_escape_json(s: Seq<u8>) -> Seq<u8>
    decreases s.len(),
{
    if s.len() == 0 {
        Seq::<u8>::empty()
    } else {
        spec_escape_json(s.drop_last()) + spec_escape_byte(s.last())
    }
}

/// Appends the escaped form of `sb` to `out`.
pub fn escape_json_into(sb: &Vec<u8>, out: &mut Vec<u8>)
    ensures
        final(out)@ == old(out)@ + spec_escape_json(sb@),
{
    let n = sb.len();
    let mut i: usize = 0;
    while i < n
        invariant
            0 <= i <= n,
            n == sb@.len(),
            out@ == old(out)@ + spec_escape_json(sb@.take(i as int)),
        decreases n - i,
    {
        let c = sb[i];
        if c == 34 {
            out.push(92);
            out.push(34);
        } else if c == 92 {
            out.push(92);
            out.push(92);
        } else if c == 8 {
            out.push(92);
            out.push(98);
        } else if c == 9 {
            out.push(92);
            out.push(116);
        } else if c == 10 {
            out.push(92);
            out.push(110);
        } else if c == 12 {
            out.push(92);
            out.push(102);
        } else if c == 13 {
            out.push(92);
            out.push(114);
        } else if c < 32 {
            let hi = c / 16;
            let lo = c % 16;
            out.push(92);
            out.push(117);
            out.push(48);
            out.push(48);
            out.push(if hi < 10 { 48 + hi } else { 87 + hi });
            out.push(if lo < 10 { 48 + lo } else { 87 + lo });
        } else {
            out.push(c);
        }
        proof {
            assert(sb@.take(i + 1).drop_last() =~= sb@.take(i as int));
            assert(out@ =~= old(out)@ + spec_escape_json(sb@.take(i + 1)));
        }
        i += 1;
    }
    assert(sb@.take(n as int) =~= sb@);
}

/// The record's first half: the millisecond timestamp, the escaped symbol,
/// and the price.
pub open spec fn spec_norm_record_head(t: crate::tick::NormalizedTickV) -> Seq<u8> {
    seq![123u8, 34u8, 116u8, 115u8, 95u8, 109u8, 115u8, 34u8, 58u8]  // {"ts_ms":
    + crate::num::spec_idigits(t.ts_ms as int)
    + seq![44u8, 34u8, 115u8, 121u8, 109u8, 98u8, 111u8, 108u8, 34u8, 58u8, 34u8]  // ,"symbol":"
    + spec_escape_json(t.symbol)
    + seq![34u8, 44u8, 34u8, 112u8, 114u8, 105u8, 99u8, 101u8, 34u8, 58u8]  // ","price":
    + t.price.spec_render()
}

/// The record's middle: the quantity and the trade id.
pub open spec fn spec_norm_record_mid(t: crate::tick::NormalizedTickV) -> Seq<u8> {
    seq![44u8, 34u8, 113u8, 116u8, 121u8, 34u8, 58u8]  // ,"qty":
    + t.qty.spec_render()
    + seq![44u8, 34u8, 116u8, 114u8, 97u8, 100u8, 101u8, 95u8, 105u8, 100u8, 34u8, 58u8]  // ,"trade_id":
    + crate::num::spec_idigits(t.trade_id as int)
}

/// The record's end: the maker flag and the closing brace.
pub open spec fn spec_norm_record_end(t: crate::tick::NormalizedTickV) -> Seq<u8> {
    seq![44u8, 34u8, 105u8, 115u8, 95u8, 98u8, 109u8, 34u8, 58u8]  // ,"is_bm":
    + (if t.is_bm {
        seq![116u8, 114u8, 117u8, 101u8]
    } else {
        seq![102u8, 97u8, 108u8, 115u8, 101u8]
    }) + seq![125u8]  // }
}

/// The JSON record a normalized tick is republished as: the six members in
/// fixed order with the long keys, the symbol escaped, price and quantity as
/// decimal numbers.
pub open spec fn spec_encode_norm_tick(t: crate::tick::NormalizedTickV) -> Seq<u8> {
    spec_norm_record_head(t) + spec_norm_record_mid(t) + spec_norm_record_end(t)
}

#[verifier::rlimit(90)]
fn push_norm_record_head(t: &crate::tick::NormalizedTick, out: &mut Vec<u8>)
    ensures
        final(out)@ == old(out)@ + spec_norm_record_head(t@),
{
    let ghost base = out@;
    out.push(123);
    out.push(34);
    out.push(116);
    out.push(115);
    out.push(95);
    out.push(109);
    out.push(115);
    out.push(34);
    out.push(58);
    let ghost g1 = base + seq![123u8, 34u8, 116u8, 115u8, 95u8, 109u8, 115u8, 34u8, 58u8];
    assert(out@ =~= g1);
    crate::num::push_i64_digits(t.ts_ms, out);
    let ghost g2 = g1 + crate::num::spec_idigits(t@.ts_ms as int);
    assert(out@ == g2);
    let ghost p3 = out@;
    out.push(44);
    out.push(34);
    out.push(115);
    out.push(121);
    out.push(109);
    out.push(98);
    out.push(111);
    out.push(108);
    out.push(34);
    out.push(58);
    out.push(34);
    let ghost g3 = g2 + seq![44u8, 34u8, 115u8, 121u8, 109u8, 98u8, 111u8, 108u8, 34u8, 58u8, 34u8];
    proof {
        assert(out@ =~= p3 + seq![44u8, 34u8, 115u8, 121u8, 109u8, 98u8, 111u8, 108u8, 34u8, 58u8, 34u8]);
    }
    assert(out@ == g3);
    escape_json_into(&t.symbol, out);
    let ghost g4 = g3 + spec_escape_json(t@.symbol);
    assert(out@ == g4);
    let ghost p5 = out@;
    out.push(34);
    out.push(44);
    out.push(34);
    out.push(112);
    out.push(114);
    out.push(105);
    out.push(99);
    out.push(101);
    out.push(34);
    out.push(58);
    let ghost g5 = g4 + seq![34u8, 44u8, 34u8, 112u8, 114u8, 105u8, 99u8, 101u8, 34u8, 58u8];
    proof {
        assert(out@ =~= p5 + seq![34u8, 44u8, 34u8, 112u8, 114u8, 105u8, 99u8, 101u8, 34u8, 58u8]);
    }
    assert(out@ == g5);
    t.price.render(out);
    let ghost g6 = g5 + t@.price.spec_render();
    assert(out@ == g6);
    proof {
        assert(g6 =~= base + spec_norm_record_head(t@));
    }
}

#[verifier::rlimit(90)]
fn push_norm_record_mid(t: &crate::tick::NormalizedTick, out: &mut Vec<u8>)
    ensures
        final(out)@ == old(out)@ + spec_norm_record_mid(t@),
{
    let ghost base = out@;
    out.push(44);
    out.push(34);
    out.push(113);
    out.push(116);
    out.push(121);
    out.push(34);
    out.push(58);
    let ghost g1 = base + seq![44u8, 34u8, 113u8, 116u8, 121u8, 34u8, 58u8];
    assert(out@ =~= g1);
    t.qty.render(out);
    let ghost g2 = g1 + t@.qty.spec_render();
    assert(out@ == g2);
    let ghost p3 = out@;
    out.push(44);
    out.push(34);
    out.push(116);
    out.push(114);
    out.push(97);
    out.push(100);
    out.push(101);
    out.push(95);
    out.push(105);
    out.push(100);
    out.push(34);
    out.push(58);
    let ghost g3 = g2 + seq![44u8, 34u8, 116u8, 114u8, 97u8, 100u8, 101u8, 95u8, 105u8, 100u8, 34u8, 58u8];
    proof {
        assert(out@ =~= p3 + seq![44u8, 34u8, 116u8, 114u8, 97u8, 100u8, 101u8, 95u8, 105u8, 100u8, 34u8, 58u8]);
    }
    assert(out@ == g3);
    crate::num::push_i64_digits(t.trade_id, out);
    let ghost g4 = g3 + crate::num::spec_idigits(t@.trade_id as int);
    assert(out@ == g4);
    proof {
        assert(g4 =~= base + spec_norm_record_mid(t@));
    }
}

#[verifier::rlimit(90)]
fn push_norm_record_end(t: &crate::tick::NormalizedTick, out: &mut Vec<u8>)
    ensures
        final(out)@ == old(out)@ + spec_norm_record_end(t@),
{
    let ghost base = out@;
    out.push(44);
    out.push(34);
    out.push(105);
    out.push(115);
    out.push(95);
    out.push(98);
    out.push(109);
    out.push(34);
    out.push(58);
    let ghost g1 = base + seq![44u8, 34u8, 105u8, 115u8, 95u8, 98u8, 109u8, 34u8, 58u8];
    assert(out@ =~= g1);
    let ghost p2 = out@;
    if t.is_bm {
        out.push(116);
        out.push(114);
        out.push(117);
        out.push(101);
    } else {
        out.push(102);
        out.push(97);
        out.push(108);
        out.push(115);
        out.push(101);
    }
    let ghost lit_bm: Seq<u8> = if t@.is_bm {
        seq![116u8, 114u8, 117u8, 101u8]
    } else {
        seq![102u8, 97u8, 108u8, 115u8, 101u8]
    };
    let ghost g2 = g1 + lit_bm;
    proof {
        assert(out@ =~= p2 + lit_bm);
    }
    assert(out@ == g2);
    let ghost p3 = out@;
    out.push(125);
    let ghost g3 = g2 + seq![125u8];
    proof {
        assert(out@ =~= p3 + seq![125u8]);
    }
    assert(out@ == g3);
    proof {
        assert(g3 =~= base + spec_norm_record_end(t@));
    }
}

/// Encodes a normalized tick per `spec_encode_norm_tick`.
pub fn encode_norm_tick(t: &crate::tick::NormalizedTick) -> (r: Vec<u8>)
    ensures
        r@ == spec_encode_norm_tick(t@),
{
    let mut out: Vec<u8> = Vec::new();
    push_norm_record_head(t, &mut out);
    push_norm_record_mid(t, &mut out);
    push_norm_record_end(t, &mut out);
    proof {
        assert(out@ =~= spec_encode_norm_tick(t@));
    }
    out
}

} // verus!
