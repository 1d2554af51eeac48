//! Decimal rendering and parsing of integers, the base layer for the JSON
//! codec, the line-protocol encoder, and the lineage timestamp header.

use vstd::prelude::*;

verus! {

/// Decimal digit bytes of `n`, most significant first, no sign and no
/// leading zeros (the single digit `0` for zero).
pub open spec fn spec_udigits(n: nat) -> Seq<u8>
    decreases n,
{
    if n < 10 {
        seq![(48 + n) as u8]
    } else {
        spec_udigits(n / 10).push((48 + n % 10) as u8)
    }
}

/// Decimal rendering of a signed integer: a minus sign for negative values,
/// then the digits of the magnitude.
pub open spec fn spec_idigits(n: int) -> Seq<u8> {
    if n < 0 {
        seq![45u8] + spec_udigits((-n) as nat)
    } else {
        spec_udigits(n as nat)
    }
}

pub open spec fn spec_is_digit(c: u8) -> bool {
    48 <= c && c <= 57
}

/// Numeric value of a digit string (most significant first); meaningful only
/// when every byte is a digit.
pub open spec fn spec_digits_value(s: Seq<u8>) -> int
    decreases s.len(),
{
    if s.len() == 0 {
        0
    } else {
        spec_digits_value(s.drop_last()) * 10 + (s.last() - 48)
    }
}

pub open spec fn spec_all_digits(s: Seq<u8>) -> bool {
    forall|i: int| 0 <= i < s.len() ==> spec_is_digit(#[trigger] s[i])
}

/// The integer denoted by `s` under the grammar of a signed decimal integer:
/// an optional `+` or `-` sign, then one or more digits, the value fitting in
/// `i64`; anything else denotes nothing.
pub open spec fn spec_parse_i64(s: Seq<u8>) -> Option<i64> {
    let ds = if s.len() > 0 && (s[0] == 45 || s[0] == 43) { s.skip(1) } else { s };
    let neg = s.len() > 0 && s[0] == 45;
    if ds.len() == 0 || !spec_all_digits(ds) {
        None
    } else {
        let v = if neg { -spec_digits_value(ds) } else { spec_digits_value(ds) };
        if i64::MIN <= v <= i64::MAX {
            Some(v as i64)
        } else {
            None
        }
    }
}

pub proof fn lemma_digits_value_nonneg(s: Seq<u8>)
    requires
        spec_all_digits(s),
    ensures
        spec_digits_value(s) >= 0,
    decreases s.len(),
{
    if s.len() > 0 {
        assert(spec_all_digits(s.drop_last()));
        lemma_digits_value_nonneg(s.drop_last());
    }
}

/// Extending a digit string can only keep or grow its value.
pub proof fn lemma_digits_value_prefix_le(s: Seq<u8>, i: int)
    requires
        spec_all_digits(s),
        0 <= i <= s.len(),
    ensures
        spec_digits_value(s.take(i)) <= spec_digits_value(s),
    decreases s.len() - i,
{
    if i < s.len() {
        lemma_digits_value_prefix_le(s, i + 1);
        let a = s.take(i);
        let b = s.take(i + 1);
        assert(b.drop_last() =~= a);
        assert(spec_all_digits(a));
        lemma_digits_value_nonneg(a);
        assert(spec_digits_value(b) == spec_digits_value(a) * 10 + (s[i] - 48));
    } else {
        assert(s.take(i) =~= s);
    }
}

/// Appends the decimal digits of `n` to `out`.
pub fn push_u64_digits(n: u64, out: &mut Vec<u8>)
    ensures
        final(out)@ == old(out)@ + spec_udigits(n as nat),
    decreases n,
{
    if n < 10 {
        out.push(48 + (n as u8));
        assert(final(out)@ =~= old(out)@ + spec_udigits(n as nat));
    } else {
        push_u64_digits(n / 10, out);
        out.push(48 + ((n % 10) as u8));
        assert(final(out)@ =~= old(out)@ + spec_udigits(n as nat));
    }
}

/// Appends the decimal digits of `n` to `out`.
pub fn push_u128_digits(n: u128, out: &mut Vec<u8>)
    ensures
        final(out)@ == old(out)@ + spec_udigits(n as nat),
    decreases n,
{
    if n < 10 {
        out.push(48 + (n as u8));
        assert(final(out)@ =~= old(out)@ + spec_udigits(n as nat));
    } else {
        push_u128_digits(n / 10, out);
        out.push(48 + ((n % 10) as u8));
        assert(final(out)@ =~= old(out)@ + spec_udigits(n as nat));
    }
}

/// Appends the signed decimal rendering of `n` to `out`.
pub fn push_i64_digits(n: i64, out: &mut Vec<u8>)
    ensures
        final(out)@ == old(out)@ + spec_idigits(n as int),
{
    if n < 0 {
        out.push(45);
        let m: u64 = (-(n as i128)) as u64;
        assert(m as nat == (-(n as int)) as nat);
        push_u64_digits(m, out);
        assert(final(out)@ =~= old(out)@ + spec_idigits(n as int));
    } else {
        push_u64_digits(n as u64, out);
    }
}

/// Appends the signed decimal rendering of `n` to `out`; the magnitude must
/// fit in `u64` widened by the factor a millisecond-to-nanosecond scaling can
/// add, i.e. `n` may be any product of an `i64` and a positive constant up to
/// a million.
pub fn push_i128_digits(n: i128, out: &mut Vec<u8>)
    requires
        n != i128::MIN,
    ensures
        final(out)@ == old(out)@ + spec_idigits(n as int),
{
    if n < 0 {
        out.push(45);
        let m: u128 = (-n) as u128;
        assert(m as nat == (-(n as int)) as nat);
        push_u128_digits(m, out);
        assert(final(out)@ =~= old(out)@ + spec_idigits(n as int));
    } else {
        push_u128_digits(n as u128, out);
    }
}

/// The signed decimal rendering of `n` as a fresh byte string, as a lineage
/// timestamp header is written.
pub fn i64_to_bytes(n: i64) -> (r: Vec<u8>)
    ensures
        r@ == spec_idigits(n as int),
{
    let mut out: Vec<u8> = Vec::new();
    push_i64_digits(n, &mut out);
    out
}

/// Parses a signed decimal integer per `spec_parse_i64`: the grammar the
/// lineage timestamp header and the JSON integer fields share.
pub fn parse_i64(s: &[u8]) -> (r: Option<i64>)
    ensures
        r == spec_parse_i64(s@),
{
    let n = s.len();
    let has_sign = n > 0 && (s[0] == 45 || s[0] == 43);
    let neg = n > 0 && s[0] == 45;
    let start: usize = if has_sign { 1 } else { 0 };
    let ghost ds = if has_sign { s@.skip(1) } else { s@ };
    assert(ds.len() == n - start);
    if start >= n {
        return None;
    }
    let mut acc: u128 = 0;
    let mut i: usize = start;
    let bound: u128 = 0x8000_0000_0000_0000;
    while i < n
        invariant
            start <= i <= n,
            n == s@.len(),
            has_sign == (n > 0 && (s@[0] == 45 || s@[0] == 43)),
            neg == (n > 0 && s@[0] == 45),
            start == (if has_sign { 1int } else { 0int }),
            ds == if has_sign { s@.skip(1) } else { s@ },
            ds.len() == n - start,
            forall|j: int| 0 <= j < i - start ==> spec_is_digit(#[trigger] ds[j]),
            acc == spec_digits_value(ds.take(i - start)),
            acc <= bound,
            bound == 0x8000_0000_0000_0000u128,
        decreases n - i,
    {
        let c = s[i];
        if c < 48 || c > 57 {
            assert(!spec_is_digit(ds[i - start]));
            return None;
        }
        assert(ds.take(i + 1 - start).drop_last() =~= ds.take(i - start));
        acc = acc * 10 + ((c - 48) as u128);
        if acc > bound {
            proof {
                if spec_all_digits(ds) {
                    lemma_digits_value_prefix_le(ds, i + 1 - start);
                }
            }
            return None;
        }
        i += 1;
    }
    assert(ds.take(i - start) =~= ds);
    assert(spec_all_digits(ds));
    if neg {
        let v: i64 = (-(acc as i128)) as i64;
        assert(v as int == -spec_digits_value(ds));
        Some(v)
    } else {
        if acc >= bound {
            proof {
                lemma_digits_value_nonneg(ds);
            }
            return None;
        }
        Some(acc as i64)
    }
}


pub proof fn lemma_udigits_all_digits(n: nat)
    ensures
        spec_all_digits(spec_udigits(n)),
        spec_udigits(n).len() >= 1,
        spec_is_digit(spec_udigits(n)[0]),
    decreases n,
{
    if n < 10 {
        assert(spec_udigits(n) == seq![(48 + n) as u8]);
    } else {
        lemma_udigits_all_digits(n / 10);
        let s = spec_udigits(n / 10);
        let d = (48 + n % 10) as u8;
        assert(spec_udigits(n) == s.push(d));
        assert forall|i: int| 0 <= i < s.push(d).len() implies spec_is_digit(#[trigger] s.push(d)[i]) by {
            if i < s.len() {
                assert(s.push(d)[i] == s[i]);
            } else {
                assert(s.push(d)[i] == d);
            }
        }
    }
}

/// Rendering a number and reading the digits back yields the number itself.
pub proof fn lemma_udigits_value(n: nat)
    ensures
        spec_digits_value(spec_udigits(n)) == n,
    decreases n,
{
    if n < 10 {
        let c = (48 + n) as u8;
        assert(c == 48 + n);
        assert(spec_udigits(n) == seq![c]);
        assert(seq![c].drop_last() =~= Seq::<u8>::empty());
        assert(spec_digits_value(seq![c]) == spec_digits_value(Seq::<u8>::empty()) * 10 + (c
            - 48));
    } else {
        lemma_udigits_value(n / 10);
        let s = spec_udigits(n / 10);
        let d = (48 + n % 10) as u8;
        assert(d == 48 + n % 10);
        assert(spec_udigits(n) == s.push(d));
        assert(s.push(d).drop_last() =~= s);
        assert(s.push(d).last() == d);
        assert(spec_digits_value(s.push(d)) == spec_digits_value(s) * 10 + (d - 48));
        assert(n / 10 * 10 + n % 10 == n) by (nonlinear_arith);
    }
}

/// A lineage timestamp header written by this crate's own renderer reads
/// back as exactly the value that was written: the signed decimal rendering
/// of `v` denotes `v` under the header grammar.
pub proof fn law_timestamp_header_round_trip(v: i64)
    ensures
        spec_parse_i64(spec_idigits(v as int)) == Some(v),
{
    if v >= 0 {
        let s = spec_idigits(v as int);
        assert(s == spec_udigits(v as nat));
        lemma_udigits_all_digits(v as nat);
        lemma_udigits_value(v as nat);
        assert(s[0] != 45 && s[0] != 43);
    } else {
        let m = (-(v as int)) as nat;
        let u = spec_udigits(m);
        let s = spec_idigits(v as int);
        assert(s == seq![45u8] + u);
        lemma_udigits_all_digits(m);
        lemma_udigits_value(m);
        assert(s[0] == 45);
        assert(s.skip(1) =~= u);
    }
}

} // verus!
