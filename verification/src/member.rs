//! How the members of a message appear as fields: a member at its zero value
//! is left out, an optional message is a run when present, a repeated member
//! is one field per item or one packed run.

use crate::field::{
    Field, Payload, field_bytes, fields_bytes, lemma_fields_bytes_one, lemma_fields_bytes_push,
};
use crate::wire::{
    fixed32, fixed64, lemma_fixed64_round_trip, lemma_varint_prefix_positive,
    lemma_varint_round_trip, parse_fixed64, parse_varint, read_fixed64, read_varint, varint,
    write_bytes, write_fixed32, write_fixed64, write_varint,
};
use vstd::prelude::*;
use vstd::slice::slice_subrange;

verus! {

/// A single field.
pub open spec fn one(number: u32, payload: Payload) -> Seq<Field> {
    seq![Field { number, payload }]
}

/// A varint member: left out when zero.
pub open spec fn varint_member(number: u32, v: u64) -> Seq<Field> {
    if v == 0 {
        Seq::empty()
    } else {
        one(number, Payload::Varint(v))
    }
}

/// A 64-bit fixed-width member: left out when zero.
pub open spec fn fixed64_member(number: u32, v: u64) -> Seq<Field> {
    if v == 0 {
        Seq::empty()
    } else {
        one(number, Payload::Fixed64(v))
    }
}

/// A 32-bit fixed-width member: left out when zero.
pub open spec fn fixed32_member(number: u32, v: u32) -> Seq<Field> {
    if v == 0 {
        Seq::empty()
    } else {
        one(number, Payload::Fixed32(v))
    }
}

/// A text or byte-string member: left out when empty.
pub open spec fn run_member(number: u32, r: Seq<u8>) -> Seq<Field> {
    if r.len() == 0 {
        Seq::empty()
    } else {
        one(number, Payload::Run(r))
    }
}

/// An optional message member: a run when present, though it be empty.
pub open spec fn message_member(number: u32, body: Option<Seq<u8>>) -> Seq<Field> {
    match body {
        Some(r) => one(number, Payload::Run(r)),
        None => Seq::empty(),
    }
}

/// A repeated message member: one run per item, in order.
pub open spec fn repeated_runs(number: u32, bodies: Seq<Seq<u8>>) -> Seq<Field> {
    Seq::new(bodies.len(), |i: int| Field { number, payload: Payload::Run(bodies[i]) })
}

/// A repeated varint member: one field per item, in order.
pub open spec fn repeated_varints(number: u32, values: Seq<u64>) -> Seq<Field> {
    Seq::new(values.len(), |i: int| Field { number, payload: Payload::Varint(values[i]) })
}

/// 64-bit values back to back, eight bytes each.
pub open spec fn packed_fixed64(values: Seq<u64>) -> Seq<u8>
    decreases values.len(),
{
    if values.len() == 0 {
        Seq::empty()
    } else {
        fixed64(values[0]) + packed_fixed64(values.drop_first())
    }
}

/// A repeated 64-bit fixed-width member: one packed run, left out when
/// there is no item.
pub open spec fn packed_fixed64_member(number: u32, values: Seq<u64>) -> Seq<Field> {
    if values.len() == 0 {
        Seq::empty()
    } else {
        one(number, Payload::Run(packed_fixed64(values)))
    }
}

/// The 64-bit values that fill `b`: `None` unless its length is a multiple
/// of eight.
pub open spec fn parse_packed_fixed64(b: Seq<u8>) -> Option<Seq<u64>>
    decreases b.len(),
{
    if b.len() == 0 {
        Some(Seq::empty())
    } else {
        match parse_fixed64(b) {
            Some(v) => match parse_packed_fixed64(b.skip(8)) {
                Some(rest) => Some(seq![v] + rest),
                None => None,
            },
            None => None,
        }
    }
}

/// The varints that fill `b`: `None` unless they end where `b` ends.
pub open spec fn parse_packed_varints(b: Seq<u8>) -> Option<Seq<u64>>
    decreases b.len(),
{
    if b.len() == 0 {
        Some(Seq::empty())
    } else {
        match parse_varint(b) {
            Some((v, n)) => if 0 < n <= b.len() {
                match parse_packed_varints(b.skip(n as int)) {
                    Some(rest) => Some(seq![v] + rest),
                    None => None,
                }
            } else {
                None
            },
            None => None,
        }
    }
}

/// A message with its length in front: the form in which one message
/// follows another in a stream.
pub open spec fn framed(body: Seq<u8>) -> Seq<u8> {
    varint(body.len() as u64) + body
}

/// The body of the framed message at the front of `b`. What follows the
/// message is not looked at.
pub open spec fn parse_framed(b: Seq<u8>) -> Option<Seq<u8>> {
    match parse_varint(b) {
        Some((len, n)) => if n + len <= b.len() {
            Some(b.subrange(n as int, n + len))
        } else {
            None
        },
        None => None,
    }
}

/// Taking the frame off gives the body back, whatever follows.
pub proof fn lemma_frame_round_trip(body: Seq<u8>, rest: Seq<u8>)
    requires
        body.len() <= u64::MAX,
    ensures
        parse_framed(framed(body) + rest) == Some(body),
{
    let len = body.len() as u64;
    assert(framed(body) + rest =~= varint(len) + (body + rest));
    lemma_varint_round_trip(len, body + rest);
    let n = varint(len).len();
    assert((framed(body) + rest).subrange(n as int, n + len) =~= body);
}

/// One more value is packed as the values before it, then its eight bytes.
pub proof fn lemma_packed_fixed64_push(values: Seq<u64>, v: u64)
    ensures
        packed_fixed64(values.push(v)) == packed_fixed64(values) + fixed64(v),
    decreases values.len(),
{
    if values.len() == 0 {
        assert(values.push(v).drop_first() =~= Seq::<u64>::empty());
        assert(packed_fixed64(Seq::<u64>::empty()) =~= Seq::<u8>::empty());
        assert(packed_fixed64(values) =~= Seq::<u8>::empty());
        assert(packed_fixed64(values.push(v)) =~= packed_fixed64(values) + fixed64(v));
    } else {
        assert(values.push(v).drop_first() =~= values.drop_first().push(v));
        lemma_packed_fixed64_push(values.drop_first(), v);
        assert(packed_fixed64(values.push(v)) =~= packed_fixed64(values) + fixed64(v));
    }
}

/// Unpacking what `packed_fixed64` wrote gives the values back.
pub proof fn lemma_packed_fixed64_round_trip(values: Seq<u64>)
    ensures
        parse_packed_fixed64(packed_fixed64(values)) == Some(values),
        packed_fixed64(values).len() == 8 * values.len(),
    decreases values.len(),
{
    if values.len() == 0 {
        assert(values =~= Seq::<u64>::empty());
    } else {
        let rest = packed_fixed64(values.drop_first());
        lemma_fixed64_round_trip(values[0], rest);
        assert(packed_fixed64(values).skip(8) =~= rest);
        lemma_packed_fixed64_round_trip(values.drop_first());
        assert(seq![values[0]] + values.drop_first() =~= values);
    }
}

fn write_tag(out: &mut Vec<u8>, number: u32, wire_type: u8)
    requires
        wire_type < 8,
    ensures
        final(out)@ == old(out)@ + varint((number * 8 + wire_type) as u64),
{
    write_varint(out, number as u64 * 8 + wire_type as u64);
}

/// Appends a varint field.
pub fn write_field_varint(out: &mut Vec<u8>, number: u32, v: u64)
    ensures
        final(out)@ == old(out)@ + fields_bytes(one(number, Payload::Varint(v))),
{
    proof {
        lemma_fields_bytes_one(Field { number, payload: Payload::Varint(v) });
    }
    write_tag(out, number, 0);
    write_varint(out, v);
    assert(out@ =~= old(out)@ + (varint((number * 8) as u64) + varint(v)));
}

/// Appends a 64-bit fixed-width field.
pub fn write_field_fixed64(out: &mut Vec<u8>, number: u32, v: u64)
    ensures
        final(out)@ == old(out)@ + fields_bytes(one(number, Payload::Fixed64(v))),
{
    proof {
        lemma_fields_bytes_one(Field { number, payload: Payload::Fixed64(v) });
    }
    write_tag(out, number, 1);
    write_fixed64(out, v);
    assert(out@ =~= old(out)@ + (varint((number * 8 + 1) as u64) + fixed64(v)));
}

/// Appends a 32-bit fixed-width field.
pub fn write_field_fixed32(out: &mut Vec<u8>, number: u32, v: u32)
    ensures
        final(out)@ == old(out)@ + fields_bytes(one(number, Payload::Fixed32(v))),
{
    proof {
        lemma_fields_bytes_one(Field { number, payload: Payload::Fixed32(v) });
    }
    write_tag(out, number, 5);
    write_fixed32(out, v);
    assert(out@ =~= old(out)@ + (varint((number * 8 + 5) as u64) + fixed32(v)));
}

/// Appends a length-delimited field.
pub fn write_field_run(out: &mut Vec<u8>, number: u32, r: &[u8])
    ensures
        final(out)@ == old(out)@ + fields_bytes(one(number, Payload::Run(r@))),
{
    proof {
        lemma_fields_bytes_one(Field { number, payload: Payload::Run(r@) });
    }
    write_tag(out, number, 2);
    write_varint(out, r.len() as u64);
    write_bytes(out, r);
    assert(out@ =~= old(out)@ + (varint((number * 8 + 2) as u64) + (varint(r@.len() as u64)
        + r@)));
}

proof fn lemma_nothing_written(out: Seq<u8>)
    ensures
        out == out + fields_bytes(Seq::empty()),
{
    assert(out =~= out + fields_bytes(Seq::empty()));
}

/// Appends a varint member, unless it is zero.
pub fn write_member_varint(out: &mut Vec<u8>, number: u32, v: u64)
    ensures
        final(out)@ == old(out)@ + fields_bytes(varint_member(number, v)),
{
    if v != 0 {
        write_field_varint(out, number, v);
    } else {
        proof {
            lemma_nothing_written(out@);
        }
    }
}

/// Appends a 64-bit fixed-width member, unless it is zero.
pub fn write_member_fixed64(out: &mut Vec<u8>, number: u32, v: u64)
    ensures
        final(out)@ == old(out)@ + fields_bytes(fixed64_member(number, v)),
{
    if v != 0 {
        write_field_fixed64(out, number, v);
    } else {
        proof {
            lemma_nothing_written(out@);
        }
    }
}

/// Appends a 32-bit fixed-width member, unless it is zero.
pub fn write_member_fixed32(out: &mut Vec<u8>, number: u32, v: u32)
    ensures
        final(out)@ == old(out)@ + fields_bytes(fixed32_member(number, v)),
{
    if v != 0 {
        write_field_fixed32(out, number, v);
    } else {
        proof {
            lemma_nothing_written(out@);
        }
    }
}

/// Appends a text or byte-string member, unless it is empty.
pub fn write_member_run(out: &mut Vec<u8>, number: u32, r: &[u8])
    ensures
        final(out)@ == old(out)@ + fields_bytes(run_member(number, r@)),
{
    if r.len() != 0 {
        write_field_run(out, number, r);
    } else {
        proof {
            lemma_nothing_written(out@);
        }
    }
}

/// Appends a repeated varint member, one field per item.
pub fn write_repeated_varints(out: &mut Vec<u8>, number: u32, values: &Vec<u64>)
    ensures
        final(out)@ == old(out)@ + fields_bytes(repeated_varints(number, values@)),
{
    let mut i: usize = 0;
    proof {
        lemma_nothing_written(out@);
        assert(repeated_varints(number, values@.take(0)) =~= Seq::<Field>::empty());
    }
    while i < values.len()
        invariant
            i <= values.len(),
            out@ == old(out)@ + fields_bytes(repeated_varints(number, values@.take(i as int))),
        decreases values.len() - i,
    {
        let ghost done = repeated_varints(number, values@.take(i as int));
        let ghost f = Field { number, payload: Payload::Varint(values@[i as int]) };
        write_field_varint(out, number, values[i]);
        proof {
            lemma_fields_bytes_one(f);
            lemma_fields_bytes_push(done, f);
            assert(repeated_varints(number, values@.take(i + 1)) =~= done.push(f));
            assert(out@ =~= old(out)@ + (fields_bytes(done) + field_bytes(f)));
        }
        i = i + 1;
    }
    assert(values@.take(i as int) =~= values@);
}

/// Appends a repeated 64-bit fixed-width member as one packed run, unless
/// there is no item.
pub fn write_member_packed_fixed64(out: &mut Vec<u8>, number: u32, values: &Vec<u64>)
    ensures
        final(out)@ == old(out)@ + fields_bytes(packed_fixed64_member(number, values@)),
{
    if values.len() == 0 {
        proof {
            lemma_nothing_written(out@);
        }
        return ;
    }
    let mut run: Vec<u8> = Vec::new();
    let mut i: usize = 0;
    assert(packed_fixed64(values@.take(0)) =~= run@);
    while i < values.len()
        invariant
            i <= values.len(),
            run@ == packed_fixed64(values@.take(i as int)),
        decreases values.len() - i,
    {
        proof {
            lemma_packed_fixed64_push(values@.take(i as int), values@[i as int]);
            assert(values@.take(i + 1) =~= values@.take(i as int).push(values@[i as int]));
        }
        write_fixed64(&mut run, values[i]);
        i = i + 1;
    }
    assert(values@.take(i as int) =~= values@);
    write_field_run(out, number, run.as_slice());
}

/// Reads the 64-bit values that fill `r` and appends them to `into`.
/// Returns whether `r` held whole values only; if not, `into` may have grown
/// by some of them.
pub fn read_packed_fixed64(r: &[u8], into: &mut Vec<u64>) -> (ok: bool)
    ensures
        match parse_packed_fixed64(r@) {
            Some(values) => ok && final(into)@ == old(into)@ + values,
            None => !ok,
        },
{
    let mut pos: usize = 0;
    let ghost mut seen: Seq<u64> = Seq::empty();
    assert(r@.skip(0) =~= r@);
    assert(old(into)@ + seen =~= old(into)@);
    while pos < r.len()
        invariant
            pos <= r@.len(),
            r@.len() == r.len(),
            into@ == old(into)@ + seen,
            parse_packed_fixed64(r@) == match parse_packed_fixed64(r@.skip(pos as int)) {
                Some(rest) => Some(seen + rest),
                None => None,
            },
        decreases r.len() - pos,
    {
        let ghost tail = r@.skip(pos as int);
        match read_fixed64(r, pos) {
            Some((v, next)) => {
                proof {
                    assert(tail.skip(8) =~= r@.skip(next as int));
                    match parse_packed_fixed64(tail.skip(8)) {
                        Some(rest) => {
                            assert(seen + (seq![v] + rest) =~= seen.push(v) + rest);
                        },
                        None => {},
                    }
                    assert(old(into)@ + seen.push(v) =~= (old(into)@ + seen).push(v));
                    seen = seen.push(v);
                }
                into.push(v);
                pos = next;
            },
            None => {
                return false;
            },
        }
    }
    assert(seen + Seq::<u64>::empty() =~= seen);
    true
}

/// Reads the varints that fill `r` and appends them to `into`. Returns
/// whether `r` held whole varints only; if not, `into` may have grown by
/// some of them.
pub fn read_packed_varints(r: &[u8], into: &mut Vec<u64>) -> (ok: bool)
    ensures
        match parse_packed_varints(r@) {
            Some(values) => ok && final(into)@ == old(into)@ + values,
            None => !ok,
        },
{
    let mut pos: usize = 0;
    let ghost mut seen: Seq<u64> = Seq::empty();
    assert(r@.skip(0) =~= r@);
    assert(old(into)@ + seen =~= old(into)@);
    while pos < r.len()
        invariant
            pos <= r@.len(),
            r@.len() == r.len(),
            into@ == old(into)@ + seen,
            parse_packed_varints(r@) == match parse_packed_varints(r@.skip(pos as int)) {
                Some(rest) => Some(seen + rest),
                None => None,
            },
        decreases r.len() - pos,
    {
        let ghost tail = r@.skip(pos as int);
        proof {
            lemma_varint_prefix_positive(tail);
        }
        match read_varint(r, pos) {
            Some((v, next)) => {
                proof {
                    assert(tail.skip(next - pos) =~= r@.skip(next as int));
                    match parse_packed_varints(tail.skip(next - pos)) {
                        Some(rest) => {
                            assert(seen + (seq![v] + rest) =~= seen.push(v) + rest);
                        },
                        None => {},
                    }
                    assert(old(into)@ + seen.push(v) =~= (old(into)@ + seen).push(v));
                    seen = seen.push(v);
                }
                into.push(v);
                pos = next;
            },
            None => {
                return false;
            },
        }
    }
    assert(seen + Seq::<u64>::empty() =~= seen);
    true
}

/// A message body with its length in front.
pub fn frame(body: &[u8]) -> (r: Vec<u8>)
    ensures
        r@ == framed(body@),
{
    let mut out: Vec<u8> = Vec::new();
    write_varint(&mut out, body.len() as u64);
    write_bytes(&mut out, body);
    assert(out@ =~= framed(body@));
    out
}

/// The body of the framed message at the front of `bytes`, or `None` where
/// the length is no varint or claims more bytes than there are.
pub fn unframe<'a>(bytes: &'a [u8]) -> (r: Option<&'a [u8]>)
    ensures
        match parse_framed(bytes@) {
            Some(body) => r matches Some(found) && found@ == body,
            None => r is None,
        },
{
    assert(bytes@.skip(0) =~= bytes@);
    match read_varint(bytes, 0) {
        Some((len, start)) => {
            if len > (bytes.len() - start) as u64 {
                None
            } else {
                Some(slice_subrange(bytes, start, start + len as usize))
            }
        },
        None => None,
    }
}

} // verus!
