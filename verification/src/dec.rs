//! Exact decimal numbers for tick prices and quantities.
//!
//! A price such as `"101.5"` travels through the pipeline as a sign, an
//! integer mantissa and a fraction length, so its value and its rendering are
//! exact at every hop. The accepted grammar is an optional `+` or `-` sign,
//! one or more digits, and optionally a `.` followed by one or more digits;
//! the mantissa must fit in `u64`. A string outside this grammar denotes
//! nothing, and the normalization stage then applies its default-to-zero
//! policy.

use vstd::prelude::*;
use crate::num::{
    lemma_digits_value_nonneg, lemma_digits_value_prefix_le, push_u64_digits, spec_all_digits,
    spec_digits_value, spec_is_digit, spec_udigits,
};

verus! {

#[derive(Clone, Copy, Debug, PartialEq, Eq, Structural)]
pub struct Dec {
    /// Render with a leading minus sign (kept even for a zero mantissa, as a
    /// parsed `"-0.0"` renders as `-0`).
    pub neg: bool,
    /// The digits of the value with the decimal point removed.
    pub mant: u64,
    /// How many of the mantissa's low decimal digits lie behind the point.
    pub scale: u32,
}

impl Dec {
    /// A parsed decimal never keeps trailing zeros behind the point, so each
    /// value has one representation.
    pub open spec fn wf(self) -> bool {
        self.scale > 0 ==> self.mant % 10 != 0
    }

    pub open spec fn spec_zero() -> Dec {
        Dec { neg: false, mant: 0, scale: 0 }
    }

    /// The decimal rendering: sign, integer digits, and the fraction digits
    /// behind a point when the scale is positive, zero-padded on the left
    /// when the mantissa is shorter than the scale.
    pub open spec fn spec_render(self) -> Seq<u8> {
        let sign: Seq<u8> = if self.neg { seq![45u8] } else { Seq::<u8>::empty() };
        let ds = spec_udigits(self.mant as nat);
        if self.scale == 0 {
            sign + ds
        } else if ds.len() > self.scale {
            sign + ds.take(ds.len() - self.scale) + seq![46u8] + ds.skip(
                ds.len() - self.scale,
            )
        } else {
            sign + seq![48u8, 46u8] + Seq::new((self.scale - ds.len()) as nat, |i: int| 48u8) + ds
        }
    }

    pub fn zero() -> (r: Dec)
        ensures
            r == Dec::spec_zero(),
    {
        Dec { neg: false, mant: 0, scale: 0 }
    }

    /// Appends the decimal rendering of `self` to `out`.
    pub fn render(&self, out: &mut Vec<u8>)
        ensures
            final(out)@ == old(out)@ + self.spec_render(),
    {
        let mut ds: Vec<u8> = Vec::new();
        push_u64_digits(self.mant, &mut ds);
        if self.neg {
            out.push(45);
        }
        if self.scale == 0 {
            push_range(out, &ds, 0, ds.len());
            assert(final(out)@ =~= old(out)@ + self.spec_render());
        } else if ds.len() > self.scale as usize {
            let cut = ds.len() - self.scale as usize;
            push_range(out, &ds, 0, cut);
            out.push(46);
            push_range(out, &ds, cut, ds.len());
            assert(ds@.subrange(0, cut as int) =~= ds@.take(cut as int));
            assert(ds@.subrange(cut as int, ds@.len() as int) =~= ds@.skip(cut as int));
            assert(final(out)@ =~= old(out)@ + self.spec_render());
        } else {
            out.push(48);
            out.push(46);
            let mut pad: usize = self.scale as usize - ds.len();
            let ghost total_pad = pad;
            while pad > 0
                invariant
                    pad <= total_pad,
                    out@ == old(out)@ + (if self.neg { seq![45u8] } else { Seq::<u8>::empty() })
                        + seq![48u8, 46u8] + Seq::new((total_pad - pad) as nat, |i: int| 48u8),
                decreases pad,
            {
                out.push(48);
                pad -= 1;
                assert(out@ =~= old(out)@ + (if self.neg { seq![45u8] } else {
                    Seq::<u8>::empty()
                }) + seq![48u8, 46u8] + Seq::new((total_pad - pad) as nat, |i: int| 48u8));
            }
            push_range(out, &ds, 0, ds.len());
            assert(ds@.subrange(0, ds@.len() as int) =~= ds@);
            assert(final(out)@ =~= old(out)@ + self.spec_render());
        }
    }
}

/// Appends `src[from..to]` to `out`.
pub fn push_range(out: &mut Vec<u8>, src: &Vec<u8>, from: usize, to: usize)
    requires
        from <= to <= src@.len(),
    ensures
        final(out)@ == old(out)@ + src@.subrange(from as int, to as int),
{
    let mut i: usize = from;
    while i < to
        invariant
            from <= i <= to <= src@.len(),
            out@ == old(out)@ + src@.subrange(from as int, i as int),
        decreases to - i,
    {
        let b = src[i];
        out.push(b);
        assert(out@ =~= old(out)@ + src@.subrange(from as int, i + 1));
        i += 1;
    }
}

/// The first index at or after `i` whose byte is not a decimal digit, or the
/// length of `s` when digits run to the end.
pub open spec fn spec_digit_run(s: Seq<u8>, i: int) -> int
    decreases s.len() - i when 0 <= i <= s.len()
{
    if i < s.len() && spec_is_digit(s[i]) {
        spec_digit_run(s, i + 1)
    } else {
        i
    }
}

pub proof fn lemma_digit_run_is(s: Seq<u8>, i: int, j: int)
    requires
        0 <= i <= j <= s.len(),
        forall|t: int| i <= t < j ==> spec_is_digit(#[trigger] s[t]),
        j == s.len() || !spec_is_digit(s[j]),
    ensures
        spec_digit_run(s, i) == j,
    decreases j - i,
{
    if i < j {
        lemma_digit_run_is(s, i + 1, j);
    }
}

/// Strips trailing zero digits from a mantissa while the scale is positive.
pub open spec fn spec_strip(m: nat, sc: nat) -> (nat, nat)
    decreases sc,
{
    if sc > 0 && m % 10 == 0 {
        spec_strip(m / 10, (sc - 1) as nat)
    } else {
        (m, sc)
    }
}

/// The decimal denoted by a sign and the digit strings before and behind the
/// point; nothing when the mantissa overflows `u64` or the scale overflows
/// `u32`.
pub open spec fn spec_dec_from_digits(neg: bool, ip: Seq<u8>, fp: Seq<u8>) -> Option<Dec> {
    let v = spec_digits_value(ip + fp);
    if v > u64::MAX || fp.len() > u32::MAX {
        None
    } else {
        let p = spec_strip(v as nat, fp.len() as nat);
        Some(Dec { neg, mant: p.0 as u64, scale: p.1 as u32 })
    }
}

/// The decimal denoted by `s` under the crate's decimal grammar.
pub open spec fn spec_parse_dec(s: Seq<u8>) -> Option<Dec> {
    let neg = s.len() > 0 && s[0] == 45;
    let u = if s.len() > 0 && (s[0] == 45 || s[0] == 43) { s.skip(1) } else { s };
    let k = spec_digit_run(u, 0);
    if k == 0 {
        None
    } else if k == u.len() {
        spec_dec_from_digits(neg, u, Seq::<u8>::empty())
    } else if u[k] == 46 && k + 1 < u.len() && spec_digit_run(u, k + 1) == u.len() {
        spec_dec_from_digits(neg, u.take(k), u.skip(k + 1))
    } else {
        None
    }
}

/// The default-to-zero reading of a decimal string: the denoted value, or
/// zero where the string is outside the grammar.
pub open spec fn spec_parse_dec_or_zero(s: Seq<u8>) -> Dec {
    match spec_parse_dec(s) {
        Some(d) => d,
        None => Dec::spec_zero(),
    }
}

/// Parses a decimal string per `spec_parse_dec`.
pub fn parse_dec(s: &[u8]) -> (r: Option<Dec>)
    ensures
        r == spec_parse_dec(s@),
        r matches Some(d) ==> d.wf(),
{
    let n = s.len();
    let has_sign = n > 0 && (s[0] == 45 || s[0] == 43);
    let neg = n > 0 && s[0] == 45;
    let start: usize = if has_sign { 1 } else { 0 };
    let ghost u = if has_sign { s@.skip(1) } else { s@ };
    assert(u.len() == n - start);
    assert(forall|t: int| 0 <= t < u.len() ==> u[t] == s@[t + start]);

    // Collect the mantissa digits, validating the shape as we go.
    let mut md: Vec<u8> = Vec::new();
    let mut j: usize = start;
    while j < n && s[j] >= 48 && s[j] <= 57
        invariant
            start <= j <= n,
            n == s@.len(),
            u == (if has_sign { s@.skip(1) } else { s@ }),
            start == (if has_sign { 1int } else { 0int }),
            u.len() == n - start,
            forall|t: int| 0 <= t < u.len() ==> u[t] == s@[t + start],
            md@ == u.take(j - start),
            forall|t: int| 0 <= t < j - start ==> spec_is_digit(#[trigger] u[t]),
        decreases n - j,
    {
        md.push(s[j]);
        assert(md@ =~= u.take(j + 1 - start));
        j += 1;
    }
    let k = j - start;
    proof {
        lemma_digit_run_is(u, 0, k as int);
    }
    if k == 0 {
        return None;
    }
    let ghost ip: Seq<u8> = u.take(k as int);
    let ghost fp: Seq<u8>;
    if j == n {
        proof {
            fp = Seq::<u8>::empty();
            assert(ip =~= u);
        }
    } else {
        if s[j] != 46 || j + 1 >= n {
            return None;
        }
        let mut l: usize = j + 1;
        while l < n && s[l] >= 48 && s[l] <= 57
            invariant
                j + 1 <= l <= n,
                n == s@.len(),
                u == (if has_sign { s@.skip(1) } else { s@ }),
                start == (if has_sign { 1int } else { 0int }),
                start <= j < n,
                u.len() == n - start,
                forall|t: int| 0 <= t < u.len() ==> u[t] == s@[t + start],
                md@ == u.take(j - start) + u.subrange(j + 1 - start, l - start),
                forall|t: int| j + 1 - start <= t < l - start ==> spec_is_digit(#[trigger] u[t]),
        decreases n - l,
        {
            md.push(s[l]);
            assert(md@ =~= u.take(j - start) + u.subrange(j + 1 - start, l + 1 - start));
            l += 1;
        }
        if l < n {
            // A second point or a stray byte inside the fraction.
            proof {
                lemma_digit_run_is(u, j + 1 - start, l - start);
            }
            return None;
        }
        proof {
            lemma_digit_run_is(u, j + 1 - start, l - start);
            fp = u.skip(j + 1 - start);
            assert(u.subrange(j + 1 - start, l - start) =~= fp);
        }
    }
    assert(md@ == ip + fp);
    assert(spec_all_digits(md@));
    assert(spec_parse_dec(s@) == spec_dec_from_digits(neg, ip, fp));

    // Accumulate the mantissa, failing where it overflows `u64`.
    let mut acc: u128 = 0;
    let mut i: usize = 0;
    let m_len = md.len();
    while i < m_len
        invariant
            0 <= i <= m_len,
            m_len == md@.len(),
            spec_all_digits(md@),
            md@ == ip + fp,
            spec_parse_dec(s@) == spec_dec_from_digits(neg, ip, fp),
            acc == spec_digits_value(md@.take(i as int)),
            acc <= u64::MAX,
        decreases m_len - i,
    {
        let c = md[i];
        assert(md@.take(i + 1).drop_last() =~= md@.take(i as int));
        acc = acc * 10 + ((c - 48) as u128);
        if acc > u64::MAX as u128 {
            proof {
                lemma_digits_value_prefix_le(md@, i + 1);
            }
            return None;
        }
        i += 1;
    }
    assert(md@.take(m_len as int) =~= md@);
    proof {
        lemma_digits_value_nonneg(md@);
    }

    let fp_len: usize = if j == n { 0 } else { n - (j + 1) };
    assert(fp_len == fp.len());
    if fp_len > u32::MAX as usize {
        return None;
    }

    // Strip trailing fraction zeros so each value has one representation.
    let mut m: u64 = acc as u64;
    let mut sc: usize = fp_len;
    while sc > 0 && m % 10 == 0
        invariant
            spec_strip(m as nat, sc as nat) == spec_strip(
                spec_digits_value(ip + fp) as nat,
                fp.len() as nat,
            ),
            sc <= fp.len(),
        decreases sc,
    {
        m = m / 10;
        sc = sc - 1;
    }
    Some(Dec { neg, mant: m, scale: sc as u32 })
}

/// Reads a decimal string with the default-to-zero policy of the
/// normalization stage.
pub fn parse_dec_or_zero(s: &[u8]) -> (r: Dec)
    ensures
        r == spec_parse_dec_or_zero(s@),
        r.wf(),
{
    match parse_dec(s) {
        Some(d) => d,
        None => Dec::zero(),
    }
}

} // verus!
