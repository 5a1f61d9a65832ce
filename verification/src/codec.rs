//! The wire form of a claim event: the self-describing JSON message the live
//! event feed sends, built and specified here byte by byte.
//!
//! The message for a claim of slot 7 by `a@b` is
//! `{"type":"OccupiedEvent","id":7,"email":"a@b"}`. The identity is escaped
//! as a JSON string: quote and backslash get a backslash, control bytes
//! become `\u00` followed by two lowercase hex digits, and everything else
//! (UTF-8 continuation bytes included) passes through unchanged.

use vstd::prelude::*;

use crate::types::ClaimEvent;
use crate::types::EventM;

verus! {

/// The decimal digits of `n`, most significant first, for `n >= 0`.
pub open spec fn spec_digits(n: int) -> Seq<u8>
    recommends
        n >= 0,
    decreases n,
{
    if n < 10 {
        seq![(48 + n) as u8]
    } else {
        spec_digits(n / 10).push((48 + n % 10) as u8)
    }
}

/// The decimal form of `n`, with a leading minus sign when negative.
pub open spec fn spec_int_str(n: int) -> Seq<u8> {
    if n < 0 {
        seq![45u8] + spec_digits(-n)
    } else {
        spec_digits(n)
    }
}

/// The lowercase hex digit with value `d`, for `0 <= d < 16`.
pub open spec fn spec_hex_digit(d: int) -> u8
    recommends
        0 <= d < 16,
{
    if d < 10 {
        (48 + d) as u8
    } else {
        (87 + d) as u8
    }
}

/// What one byte of a JSON string becomes in the output.
pub open spec fn spec_escaped_byte(b: u8) -> Seq<u8> {
    if b == 34 {
        seq![92u8, 34u8]
    } else if b == 92 {
        seq![92u8, 92u8]
    } else if b < 32 {
        seq![92u8, 117u8, 48u8, 48u8, spec_hex_digit(b as int / 16), spec_hex_digit(b as int % 16)]
    } else {
        seq![b]
    }
}

/// The whole byte string escaped, in order.
pub open spec fn spec_escaped(s: Seq<u8>) -> Seq<u8>
    decreases s.len(),
{
    if s.len() == 0 {
        Seq::empty()
    } else {
        spec_escaped(s.drop_last()) + spec_escaped_byte(s.last())
    }
}

/// `{"type":"OccupiedEvent","id":` — everything before the slot id.
pub open spec fn spec_json_head() -> Seq<u8> {
    seq![
        123u8, 34, 116, 121, 112, 101, 34, 58, 34, 79, 99, 99, 117, 112, 105, 101, 100, 69, 118,
        101, 110, 116, 34, 44, 34, 105, 100, 34, 58,
    ]
}

/// `,"email":"` — between the slot id and the escaped identity.
pub open spec fn spec_json_mid() -> Seq<u8> {
    seq![44u8, 34, 101, 109, 97, 105, 108, 34, 58, 34]
}

/// `"}` — after the escaped identity.
pub open spec fn spec_json_tail() -> Seq<u8> {
    seq![34u8, 125]
}

/// The full message for one claim event.
pub open spec fn spec_event_json(e: EventM) -> Seq<u8> {
    spec_json_head() + spec_int_str(e.slot_id) + spec_json_mid() + spec_escaped(e.holder)
        + spec_json_tail()
}

/// Appends the decimal digits of `n` to `out`.
fn push_digits(n: u64, out: &mut Vec<u8>)
    ensures
        final(out)@ == old(out)@ + spec_digits(n as int),
    decreases n,
{
    if n < 10 {
        out.push((48 + n) as u8);
        proof {
            assert(old(out)@ + spec_digits(n as int) =~= old(out)@.push((48 + n as int) as u8));
        }
    } else {
        push_digits(n / 10, out);
        out.push((48 + n % 10) as u8);
        proof {
            assert(old(out)@ + spec_digits(n as int) =~= (old(out)@ + spec_digits(
                n as int / 10,
            )).push((48 + n as int % 10) as u8));
        }
    }
}

/// The decimal form of `n`, sign included.
pub fn format_i32(n: i32) -> (r: Vec<u8>)
    ensures
        r@ == spec_int_str(n as int),
{
    let mut out: Vec<u8> = Vec::new();
    let wide: i64 = n as i64;
    if wide < 0 {
        out.push(45);
        proof {
            assert(out@ =~= seq![45u8]);
        }
        push_digits((-wide) as u64, &mut out);
    } else {
        push_digits(wide as u64, &mut out);
    }
    out
}

/// Appends the escaped form of `s` to `out`.
fn push_escaped(s: &Vec<u8>, out: &mut Vec<u8>)
    ensures
        final(out)@ == old(out)@ + spec_escaped(s@),
{
    let ghost base = old(out)@;
    let mut i: usize = 0;
    while i < s.len()
        invariant
            i <= s@.len(),
            out@ == base + spec_escaped(s@.take(i as int)),
        decreases s@.len() - i,
    {
        let b = s[i];
        if b == 34 {
            out.push(92);
            out.push(34);
        } else if b == 92 {
            out.push(92);
            out.push(92);
        } else if b < 32 {
            out.push(92);
            out.push(117);
            out.push(48);
            out.push(48);
            out.push(48 + b / 16);
            let lo = b % 16;
            if lo < 10 {
                out.push(48 + lo);
            } else {
                out.push(87 + lo);
            }
        } else {
            out.push(b);
        }
        proof {
            assert(s@.take(i as int + 1).drop_last() =~= s@.take(i as int));
            assert(s@.take(i as int + 1).last() == s@[i as int]);
            assert(out@ =~= base + spec_escaped(s@.take(i as int + 1)));
        }
        i = i + 1;
    }
    proof {
        assert(s@.take(s@.len() as int) =~= s@);
    }
}

/// The live feed's message for `e`, exactly as specified by
/// `spec_event_json`.
pub fn event_json(e: &ClaimEvent) -> (r: Vec<u8>)
    ensures
        r@ == spec_event_json(e@),
{
    let mut out: Vec<u8> = Vec::new();
    out.push(123);
    out.push(34);
    out.push(116);
    out.push(121);
    out.push(112);
    out.push(101);
    out.push(34);
    out.push(58);
    out.push(34);
    out.push(79);
    out.push(99);
    out.push(99);
    out.push(117);
    out.push(112);
    out.push(105);
    out.push(101);
    out.push(100);
    out.push(69);
    out.push(118);
    out.push(101);
    out.push(110);
    out.push(116);
    out.push(34);
    out.push(44);
    out.push(34);
    out.push(105);
    out.push(100);
    out.push(34);
    out.push(58);
    proof {
        assert(out@ =~= spec_json_head());
    }
    let mut digits = format_i32(e.slot_id);
    out.append(&mut digits);
    let ghost with_id = spec_json_head() + spec_int_str(e@.slot_id);
    out.push(44);
    out.push(34);
    out.push(101);
    out.push(109);
    out.push(97);
    out.push(105);
    out.push(108);
    out.push(34);
    out.push(58);
    out.push(34);
    proof {
        assert(out@ =~= with_id + spec_json_mid());
    }
    push_escaped(&e.holder, &mut out);
    let ghost with_holder = with_id + spec_json_mid() + spec_escaped(e@.holder);
    out.push(34);
    out.push(125);
    proof {
        assert(out@ =~= with_holder + spec_json_tail());
    }
    out
}

} // verus!
