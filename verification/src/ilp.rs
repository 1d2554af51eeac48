//! The sink's wire format: one ASCII line per record, holding the measurement
//! name, the symbol tag, the tick's fields, the lineage message id, and a
//! trailing nanosecond timestamp derived from the tick's millisecond time.

use vstd::prelude::*;
use crate::num::{push_i64_digits, push_i128_digits, spec_idigits};
use crate::tick::{NormalizedTick, NormalizedTickV};

verus! {

/// How a message id is written inside the line's quoted field: embedded
/// double quotes are escaped, every other byte is verbatim.
pub open spec fn spec_escape_quotes(s: Seq<u8>) -> Seq<u8>
    decreases s.len(),
{
    if s.len() == 0 {
        Seq::<u8>::empty()
    } else {
        spec_escape_quotes(s.drop_last()) + (if s.last() == 34 {
            seq![92u8, 34u8]
        } else {
            seq![s.last()]
        })
    }
}

/// Appends the quote-escaped form of `sb` to `out`.
pub fn escape_quotes_into(sb: &Vec<u8>, out: &mut Vec<u8>)
    ensures
        final(out)@ == old(out)@ + spec_escape_quotes(sb@),
{
    let n = sb.len();
    let mut i: usize = 0;
    while i < n
        invariant
            0 <= i <= n,
            n == sb@.len(),
            out@ == old(out)@ + spec_escape_quotes(sb@.take(i as int)),
        decreases n - i,
    {
        let c = sb[i];
        if c == 34 {
            out.push(92);
            out.push(34);
        } else {
            out.push(c);
        }
        proof {
            assert(sb@.take(i + 1).drop_last() =~= sb@.take(i as int));
            assert(out@ =~= old(out)@ + spec_escape_quotes(sb@.take(i + 1)));
        }
        i += 1;
    }
    assert(sb@.take(n as int) =~= sb@);
}

/// The line up to the trade id field: measurement and symbol tag, then
/// price, quantity and trade id.
pub open spec fn spec_ilp_head(t: NormalizedTickV) -> Seq<u8> {
    seq![
        116u8, 114u8, 97u8, 100u8, 101u8, 115u8, 44u8, 115u8, 121u8, 109u8, 98u8, 111u8, 108u8,
        61u8,
    ]  // trades,symbol=
    + t.symbol + seq![32u8, 112u8, 114u8, 105u8, 99u8, 101u8, 61u8]  // _price=
    + t.price.spec_render() + seq![44u8, 113u8, 116u8, 121u8, 61u8]  // ,qty=
    + t.qty.spec_render() + seq![
        44u8, 116u8, 114u8, 97u8, 100u8, 101u8, 95u8, 105u8, 100u8, 61u8,
    ]  // ,trade_id=
    + spec_idigits(t.trade_id as int) + seq![105u8]  // i
}

/// The rest of the line before the final space: maker flag, quoted message
/// id, and the millisecond timestamp field.
pub open spec fn spec_ilp_mid(t: NormalizedTickV, msg_id: Seq<u8>) -> Seq<u8> {
    seq![44u8, 105u8, 115u8, 95u8, 98u8, 109u8, 61u8]  // ,is_bm=
    + (if t.is_bm {
        seq![116u8, 114u8, 117u8, 101u8]
    } else {
        seq![102u8, 97u8, 108u8, 115u8, 101u8]
    }) + seq![44u8, 109u8, 115u8, 103u8, 95u8, 105u8, 100u8, 61u8, 34u8]  // ,msg_id="
    + spec_escape_quotes(msg_id) + seq![34u8, 44u8, 116u8, 115u8, 95u8, 109u8, 115u8, 61u8]  // ",ts_ms=
    + spec_idigits(t.ts_ms as int) + seq![105u8]  // i
}

/// Everything on the line before the final space.
pub open spec fn spec_ilp_prefix(t: NormalizedTickV, msg_id: Seq<u8>) -> Seq<u8> {
    spec_ilp_head(t) + spec_ilp_mid(t, msg_id)
}

/// The whole line: the prefix, one space, and the trade time scaled from
/// milliseconds to nanoseconds.
pub open spec fn spec_ilp_line(t: NormalizedTickV, msg_id: Seq<u8>) -> Seq<u8> {
    spec_ilp_prefix(t, msg_id) + seq![32u8] + spec_idigits(t.ts_ms as int * 1_000_000)
}

/// Every persisted line carries, behind its final space, exactly the tick's
/// millisecond timestamp multiplied by one million.
pub proof fn law_line_trailing_nanoseconds(t: NormalizedTickV, msg_id: Seq<u8>)
    ensures
        spec_ilp_line(t, msg_id).skip(spec_ilp_prefix(t, msg_id).len() as int + 1)
            == spec_idigits(t.ts_ms as int * 1_000_000),
        spec_ilp_line(t, msg_id)[spec_ilp_prefix(t, msg_id).len() as int] == 32u8,
{
    assert(spec_ilp_line(t, msg_id).skip(spec_ilp_prefix(t, msg_id).len() as int + 1)
        =~= spec_idigits(t.ts_ms as int * 1_000_000));
}

/// Appends the line's head per `spec_ilp_head`.
#[verifier::rlimit(90)]
fn push_ilp_head(t: &NormalizedTick, out: &mut Vec<u8>)
    ensures
        final(out)@ == old(out)@ + spec_ilp_head(t@),
{
    let ghost base = out@;
    out.push(116);
    out.push(114);
    out.push(97);
    out.push(100);
    out.push(101);
    out.push(115);
    out.push(44);
    out.push(115);
    out.push(121);
    out.push(109);
    out.push(98);
    out.push(111);
    out.push(108);
    out.push(61);
    let ghost g1 = base + seq![
        116u8, 114u8, 97u8, 100u8, 101u8, 115u8, 44u8, 115u8, 121u8, 109u8, 98u8, 111u8, 108u8,
        61u8,
    ];
    assert(out@ =~= g1);
    crate::dec::push_range(out, &t.symbol, 0, t.symbol.len());
    let ghost g2 = g1 + t@.symbol;
    proof {
        assert(t.symbol@.subrange(0, t.symbol@.len() as int) =~= t@.symbol);
    }
    assert(out@ == g2);
    let ghost p3 = out@;
    out.push(32);
    out.push(112);
    out.push(114);
    out.push(105);
    out.push(99);
    out.push(101);
    out.push(61);
    let ghost g3 = g2 + seq![32u8, 112u8, 114u8, 105u8, 99u8, 101u8, 61u8];
    proof {
        assert(out@ =~= p3 + seq![32u8, 112u8, 114u8, 105u8, 99u8, 101u8, 61u8]);
    }
    assert(out@ == g3);
    t.price.render(out);
    let ghost g4 = g3 + t@.price.spec_render();
    assert(out@ == g4);
    let ghost p5 = out@;
    out.push(44);
    out.push(113);
    out.push(116);
    out.push(121);
    out.push(61);
    let ghost g5 = g4 + seq![44u8, 113u8, 116u8, 121u8, 61u8];
    proof {
        assert(out@ =~= p5 + seq![44u8, 113u8, 116u8, 121u8, 61u8]);
    }
    assert(out@ == g5);
    t.qty.render(out);
    let ghost g6 = g5 + t@.qty.spec_render();
    assert(out@ == g6);
    let ghost p7 = out@;
    out.push(44);
    out.push(116);
    out.push(114);
    out.push(97);
    out.push(100);
    out.push(101);
    out.push(95);
    out.push(105);
    out.push(100);
    out.push(61);
    let ghost g7 = g6 + seq![44u8, 116u8, 114u8, 97u8, 100u8, 101u8, 95u8, 105u8, 100u8, 61u8];
    proof {
        assert(out@ =~= p7 + seq![44u8, 116u8, 114u8, 97u8, 100u8, 101u8, 95u8, 105u8, 100u8, 61u8]);
    }
    assert(out@ == g7);
    push_i64_digits(t.trade_id, out);
    let ghost p8 = out@;
    out.push(105);
    let ghost g8 = g7 + spec_idigits(t@.trade_id as int) + seq![105u8];
    proof {
        assert(p8 == g7 + spec_idigits(t@.trade_id as int));
        assert(out@ =~= p8 + seq![105u8]);
        assert((g7 + spec_idigits(t@.trade_id as int)) + seq![105u8] =~= g8);
    }
    assert(out@ == g8);
    proof {
        assert(g8 =~= base + spec_ilp_head(t@));
    }
}

/// Appends the line's middle per `spec_ilp_mid`.
#[verifier::rlimit(90)]
fn push_ilp_mid(t: &NormalizedTick, msg_id: &Vec<u8>, out: &mut Vec<u8>)
    ensures
        final(out)@ == old(out)@ + spec_ilp_mid(t@, msg_id@),
{
    let ghost base = out@;
    out.push(44);
    out.push(105);
    out.push(115);
    out.push(95);
    out.push(98);
    out.push(109);
    out.push(61);
    let ghost g9 = base + seq![44u8, 105u8, 115u8, 95u8, 98u8, 109u8, 61u8];
    assert(out@ =~= g9);
    let ghost p10 = out@;
    if t.is_bm {
        out.push(116);
        out.push(114);
        out.push(117);
        out.push(101);
    } else {
        out.push(102);
        out.push(97);
        out.push(108);
        out.push(115);
        out.push(101);
    }
    let ghost lit_bm: Seq<u8> = if t@.is_bm {
        seq![116u8, 114u8, 117u8, 101u8]
    } else {
        seq![102u8, 97u8, 108u8, 115u8, 101u8]
    };
    let ghost g10 = g9 + lit_bm;
    proof {
        assert(out@ =~= p10 + lit_bm);
    }
    assert(out@ == g10);
    let ghost p11 = out@;
    out.push(44);
    out.push(109);
    out.push(115);
    out.push(103);
    out.push(95);
    out.push(105);
    out.push(100);
    out.push(61);
    out.push(34);
    let ghost g11 = g10 + seq![44u8, 109u8, 115u8, 103u8, 95u8, 105u8, 100u8, 61u8, 34u8];
    proof {
        assert(out@ =~= p11 + seq![44u8, 109u8, 115u8, 103u8, 95u8, 105u8, 100u8, 61u8, 34u8]);
    }
    assert(out@ == g11);
    escape_quotes_into(msg_id, out);
    let ghost g12 = g11 + spec_escape_quotes(msg_id@);
    assert(out@ == g12);
    let ghost p13 = out@;
    out.push(34);
    out.push(44);
    out.push(116);
    out.push(115);
    out.push(95);
    out.push(109);
    out.push(115);
    out.push(61);
    let ghost g13 = g12 + seq![34u8, 44u8, 116u8, 115u8, 95u8, 109u8, 115u8, 61u8];
    proof {
        assert(out@ =~= p13 + seq![34u8, 44u8, 116u8, 115u8, 95u8, 109u8, 115u8, 61u8]);
    }
    assert(out@ == g13);
    push_i64_digits(t.ts_ms, out);
    let ghost p14 = out@;
    out.push(105);
    let ghost g14 = g13 + spec_idigits(t@.ts_ms as int) + seq![105u8];
    proof {
        assert(p14 == g13 + spec_idigits(t@.ts_ms as int));
        assert(out@ =~= p14 + seq![105u8]);
        assert((g13 + spec_idigits(t@.ts_ms as int)) + seq![105u8] =~= g14);
    }
    assert(out@ == g14);
    proof {
        assert(g14 =~= base + spec_ilp_mid(t@, msg_id@));
    }
}

/// Encodes one line per `spec_ilp_line`.
pub fn encode_ilp_line(t: &NormalizedTick, msg_id: &Vec<u8>) -> (r: Vec<u8>)
    ensures
        r@ == spec_ilp_line(t@, msg_id@),
{
    let mut out: Vec<u8> = Vec::new();
    push_ilp_head(t, &mut out);
    push_ilp_mid(t, msg_id, &mut out);
    proof {
        assert(out@ =~= spec_ilp_prefix(t@, msg_id@));
    }
    let ghost pre = out@;
    out.push(32);
    let ns: i128 = (t.ts_ms as i128) * 1_000_000;
    push_i128_digits(ns, &mut out);
    proof {
        assert(out@ =~= (pre + seq![32u8]) + spec_idigits(ns as int));
        assert((pre + seq![32u8]) + spec_idigits(t@.ts_ms as int * 1_000_000) =~= spec_ilp_line(
            t@,
            msg_id@,
        ));
    }
    out
}

/// Encodes one line and terminates it with the newline the sink expects.
pub fn encode_ilp_frame(t: &NormalizedTick, msg_id: &Vec<u8>) -> (r: Vec<u8>)
    ensures
        r@ == spec_ilp_line(t@, msg_id@) + seq![10u8],
{
    let mut out = encode_ilp_line(t, msg_id);
    out.push(10);
    assert(out@ =~= spec_ilp_line(t@, msg_id@) + seq![10u8]);
    out
}

} // verus!
