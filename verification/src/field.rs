//! Tagged fields: the layer between raw bytes and messages. A message body
//! is a run of fields, each a tag (field number and wire type) followed by a
//! payload whose extent the wire type gives.

use crate::wire::{
    fixed32, fixed64, lemma_fixed32_round_trip, lemma_fixed64_round_trip, lemma_parse_varint_stable,
    lemma_varint_len, lemma_varint_prefix_positive, lemma_varint_round_trip, parse_fixed32,
    parse_fixed64, parse_varint, read_fixed32, read_fixed64, read_varint, varint,
};
use vstd::prelude::*;
use vstd::slice::slice_subrange;

verus! {

/// What a field carries, by wire type: 0, 1, 2 and 5.
pub enum Payload {
    Varint(u64),
    Fixed64(u64),
    Run(Seq<u8>),
    Fixed32(u32),
}

/// One field of a message body.
pub struct Field {
    pub number: u32,
    pub payload: Payload,
}

/// The wire type of a payload, as the tag holds it.
pub open spec fn wire_type(p: Payload) -> u64 {
    match p {
        Payload::Varint(_) => 0,
        Payload::Fixed64(_) => 1,
        Payload::Run(_) => 2,
        Payload::Fixed32(_) => 5,
    }
}

/// A field that `field_bytes` can write so that it reads back: the length
/// of its run fits in 64 bits.
pub open spec fn well_formed(f: Field) -> bool {
    f.payload matches Payload::Run(r) ==> r.len() <= u64::MAX
}

/// Whether every field of `fs` is well formed.
pub open spec fn all_well_formed(fs: Seq<Field>) -> bool {
    forall|i: int| 0 <= i < fs.len() ==> well_formed(#[trigger] fs[i])
}

/// The bytes of a payload: a run has its length in front.
pub open spec fn payload_bytes(p: Payload) -> Seq<u8> {
    match p {
        Payload::Varint(v) => varint(v),
        Payload::Fixed64(v) => fixed64(v),
        Payload::Run(r) => varint(r.len() as u64) + r,
        Payload::Fixed32(v) => fixed32(v),
    }
}

/// The bytes of one field: the tag as a varint, then the payload.
pub open spec fn field_bytes(f: Field) -> Seq<u8> {
    varint((f.number * 8 + wire_type(f.payload)) as u64) + payload_bytes(f.payload)
}

/// The bytes of a run of fields, one after the other.
pub open spec fn fields_bytes(fs: Seq<Field>) -> Seq<u8>
    decreases fs.len(),
{
    if fs.len() == 0 {
        Seq::empty()
    } else {
        field_bytes(fs[0]) + fields_bytes(fs.drop_first())
    }
}

/// The payload of the given wire type at the front of `b`, and its length.
/// Wire types other than 0, 1, 2 and 5 are refused, and so is a run that
/// claims more bytes than `b` has.
pub open spec fn parse_payload(wire_type: u64, b: Seq<u8>) -> Option<(Payload, nat)> {
    if wire_type == 0 {
        match parse_varint(b) {
            Some((v, n)) => Some((Payload::Varint(v), n)),
            None => None,
        }
    } else if wire_type == 1 {
        match parse_fixed64(b) {
            Some(v) => Some((Payload::Fixed64(v), 8nat)),
            None => None,
        }
    } else if wire_type == 2 {
        match parse_varint(b) {
            Some((len, n)) => if n + len <= b.len() {
                Some((Payload::Run(b.subrange(n as int, n + len)), (n + len) as nat))
            } else {
                None
            },
            None => None,
        }
    } else if wire_type == 5 {
        match parse_fixed32(b) {
            Some(v) => Some((Payload::Fixed32(v), 4nat)),
            None => None,
        }
    } else {
        None
    }
}

/// The field at the front of `b`, and its length in bytes. The tag is a
/// varint: the field number times eight, plus the wire type. A field number
/// above 32 bits is refused.
pub open spec fn parse_field(b: Seq<u8>) -> Option<(Field, nat)> {
    match parse_varint(b) {
        Some((tag, n)) => if tag / 8 <= u32::MAX {
            match parse_payload(tag % 8, b.skip(n as int)) {
                Some((p, m)) => Some((Field { number: (tag / 8) as u32, payload: p }, n + m)),
                None => None,
            }
        } else {
            None
        },
        None => None,
    }
}

/// All of `b` as a run of fields: `None` unless the fields fill `b` exactly.
pub open spec fn parse_fields(b: Seq<u8>) -> Option<Seq<Field>>
    decreases b.len(),
{
    if b.len() == 0 {
        Some(Seq::empty())
    } else {
        match parse_field(b) {
            Some((f, n)) => if 0 < n <= b.len() {
                match parse_fields(b.skip(n as int)) {
                    Some(rest) => Some(seq![f] + rest),
                    None => None,
                }
            } else {
                None
            },
            None => None,
        }
    }
}

/// Merges the fields of `fs` into `acc`, first to last: `None` as soon as
/// `merge` refuses one.
pub open spec fn fold_fields<V>(
    merge: spec_fn(V, Field) -> Option<V>,
    acc: V,
    fs: Seq<Field>,
) -> Option<V>
    decreases fs.len(),
{
    if fs.len() == 0 {
        Some(acc)
    } else {
        match merge(acc, fs[0]) {
            Some(next) => fold_fields(merge, next, fs.drop_first()),
            None => None,
        }
    }
}

/// Decodes a message body: splits `b` into fields and merges them into
/// `acc`. `None` when `b` is no run of fields or `merge` refuses a field.
pub open spec fn decode_with<V>(
    merge: spec_fn(V, Field) -> Option<V>,
    acc: V,
    b: Seq<u8>,
) -> Option<V> {
    match parse_fields(b) {
        Some(fs) => fold_fields(merge, acc, fs),
        None => None,
    }
}

/// The payload of a field read from a buffer: a run borrows its bytes from
/// the buffer.
pub enum Chunk<'a> {
    Varint(u64),
    Fixed64(u64),
    Run(&'a [u8]),
    Fixed32(u32),
}

/// A field read from a buffer.
pub struct FieldRef<'a> {
    pub number: u32,
    pub chunk: Chunk<'a>,
}

impl<'a> View for FieldRef<'a> {
    type V = Field;

    open spec fn view(&self) -> Field {
        Field {
            number: self.number,
            payload: match self.chunk {
                Chunk::Varint(v) => Payload::Varint(v),
                Chunk::Fixed64(v) => Payload::Fixed64(v),
                Chunk::Run(r) => Payload::Run(r@),
                Chunk::Fixed32(v) => Payload::Fixed32(v),
            },
        }
    }
}

/// A parsed field is at least one byte long, lies within the input, is well
/// formed, and a run in it is shorter than the field.
pub proof fn lemma_parse_field_bounds(b: Seq<u8>)
    ensures
        parse_field(b) matches Some((f, n)) ==> {
            &&& 1 <= n <= b.len()
            &&& well_formed(f)
            &&& (f.payload matches Payload::Run(r) ==> r.len() < n)
        },
{
    lemma_varint_prefix_positive(b);
    match parse_varint(b) {
        Some((tag, n)) => {
            lemma_varint_prefix_positive(b.skip(n as int));
        },
        None => {},
    }
}

/// Reading back what `field_bytes` wrote gives the field and its length,
/// whatever follows.
pub proof fn lemma_field_round_trip(f: Field, rest: Seq<u8>)
    requires
        well_formed(f),
    ensures
        parse_field(field_bytes(f) + rest) == Some((f, field_bytes(f).len())),
{
    let tag = (f.number * 8 + wire_type(f.payload)) as u64;
    let body = payload_bytes(f.payload);
    let all = field_bytes(f) + rest;
    assert(all =~= varint(tag) + (body + rest));
    lemma_varint_round_trip(tag, body + rest);
    let n = varint(tag).len();
    assert(all.skip(n as int) =~= body + rest);
    assert(tag % 8 == wire_type(f.payload) && tag / 8 == f.number);
    match f.payload {
        Payload::Varint(v) => {
            lemma_varint_round_trip(v, rest);
        },
        Payload::Fixed64(v) => {
            lemma_fixed64_round_trip(v, rest);
        },
        Payload::Run(r) => {
            let len = r.len() as u64;
            assert(body + rest =~= varint(len) + (r + rest));
            lemma_varint_round_trip(len, r + rest);
            let k = varint(len).len();
            assert((body + rest).subrange(k as int, k + len) =~= r);
        },
        Payload::Fixed32(v) => {
            lemma_fixed32_round_trip(v, rest);
        },
    }
}

/// The bytes of two runs of fields, one after the other, are the bytes of
/// the joined run.
pub proof fn lemma_fields_bytes_concat(a: Seq<Field>, b: Seq<Field>)
    ensures
        fields_bytes(a + b) == fields_bytes(a) + fields_bytes(b),
    decreases a.len(),
{
    if a.len() == 0 {
        assert(a + b =~= b);
        assert(fields_bytes(a) + fields_bytes(b) =~= fields_bytes(b));
    } else {
        assert((a + b).drop_first() =~= a.drop_first() + b);
        lemma_fields_bytes_concat(a.drop_first(), b);
        assert(fields_bytes(a + b) =~= fields_bytes(a) + fields_bytes(b));
    }
}

/// What was written field by field is what the joined fields are written as.
pub proof fn lemma_written(
    base: Seq<u8>,
    done: Seq<Field>,
    more: Seq<Field>,
    before: Seq<u8>,
    after: Seq<u8>,
)
    requires
        before == base + fields_bytes(done),
        after == before + fields_bytes(more),
    ensures
        after == base + fields_bytes(done + more),
{
    lemma_fields_bytes_concat(done, more);
    assert(after =~= base + (fields_bytes(done) + fields_bytes(more)));
}

/// A run of one field is written as that field.
pub proof fn lemma_fields_bytes_one(f: Field)
    ensures
        fields_bytes(seq![f]) == field_bytes(f),
{
    assert(seq![f].drop_first() =~= Seq::<Field>::empty());
    assert(fields_bytes(seq![f].drop_first()) =~= Seq::<u8>::empty());
    assert(fields_bytes(seq![f]) =~= field_bytes(f));
}

/// A run with one more field is written as the run, then the field.
pub proof fn lemma_fields_bytes_push(fs: Seq<Field>, f: Field)
    ensures
        fields_bytes(fs.push(f)) == fields_bytes(fs) + field_bytes(f),
{
    assert(fs.push(f) =~= fs + seq![f]);
    lemma_fields_bytes_concat(fs, seq![f]);
    lemma_fields_bytes_one(f);
}

/// Splitting what `fields_bytes` wrote gives the fields back.
pub proof fn lemma_fields_round_trip(fs: Seq<Field>)
    requires
        all_well_formed(fs),
    ensures
        parse_fields(fields_bytes(fs)) == Some(fs),
    decreases fs.len(),
{
    if fs.len() == 0 {
        assert(fs =~= Seq::<Field>::empty());
    } else {
        let rest = fields_bytes(fs.drop_first());
        let all = fields_bytes(fs);
        lemma_field_round_trip(fs[0], rest);
        lemma_parse_field_bounds(all);
        let n = field_bytes(fs[0]).len();
        assert(all.skip(n as int) =~= rest);
        assert(all_well_formed(fs.drop_first())) by {
            assert forall|i: int| 0 <= i < fs.drop_first().len() implies well_formed(
                #[trigger] fs.drop_first()[i],
            ) by {
                assert(fs.drop_first()[i] == fs[i + 1]);
            }
        }
        lemma_fields_round_trip(fs.drop_first());
        assert(seq![fs[0]] + fs.drop_first() =~= fs);
    }
}

/// A run inside a run of fields is shorter than the bytes of the whole.
pub proof fn lemma_run_shorter(fs: Seq<Field>, i: int)
    requires
        0 <= i < fs.len(),
    ensures
        fs[i].payload matches Payload::Run(r) ==> r.len() < fields_bytes(fs).len(),
        field_bytes(fs[i]).len() <= fields_bytes(fs).len(),
    decreases fs.len(),
{
    if i == 0 {
        let tag = (fs[0].number * 8 + wire_type(fs[0].payload)) as u64;
        lemma_varint_len(tag);
    } else {
        assert(fs.drop_first()[i - 1] == fs[i]);
        lemma_run_shorter(fs.drop_first(), i - 1);
    }
}

/// Fields whose bytes fit in 64 bits of length are well formed.
pub proof fn lemma_well_formed_by_len(fs: Seq<Field>)
    requires
        fields_bytes(fs).len() <= u64::MAX,
    ensures
        all_well_formed(fs),
{
    assert forall|i: int| 0 <= i < fs.len() implies well_formed(#[trigger] fs[i]) by {
        lemma_run_shorter(fs, i);
    }
}

/// What follows a field does not change how it reads.
pub proof fn lemma_parse_field_stable(a: Seq<u8>, b: Seq<u8>)
    requires
        parse_field(a) is Some,
    ensures
        parse_field(a + b) == parse_field(a),
{
    lemma_parse_varint_stable(a, b);
    lemma_varint_prefix_positive(a);
    let (tag, n) = parse_varint(a)->Some_0;
    let rest = a.skip(n as int);
    assert((a + b).skip(n as int) =~= rest + b);
    let wire = tag % 8;
    if wire == 0 {
        lemma_parse_varint_stable(rest, b);
    } else if wire == 1 {
        assert((rest + b).subrange(0, 8) =~= rest.subrange(0, 8));
    } else if wire == 2 {
        lemma_parse_varint_stable(rest, b);
        let (len, k) = parse_varint(rest)->Some_0;
        assert((rest + b).subrange(k as int, k + len) =~= rest.subrange(k as int, k + len));
    } else {
        assert((rest + b).subrange(0, 4) =~= rest.subrange(0, 4));
    }
}

/// Two runs of fields, one after the other, split into the fields of the
/// first and then those of the second.
pub proof fn lemma_parse_fields_concat(a: Seq<u8>, b: Seq<u8>)
    requires
        parse_fields(a) is Some,
        parse_fields(b) is Some,
    ensures
        parse_fields(a + b) == Some(parse_fields(a)->Some_0 + parse_fields(b)->Some_0),
    decreases a.len(),
{
    if a.len() == 0 {
        assert(a + b =~= b);
        assert(Seq::<Field>::empty() + parse_fields(b)->Some_0 =~= parse_fields(b)->Some_0);
    } else {
        lemma_parse_field_stable(a, b);
        lemma_parse_field_bounds(a);
        let (f, n) = parse_field(a)->Some_0;
        assert((a + b).skip(n as int) =~= a.skip(n as int) + b);
        lemma_parse_fields_concat(a.skip(n as int), b);
        let rest = parse_fields(a.skip(n as int))->Some_0;
        let more = parse_fields(b)->Some_0;
        assert(seq![f] + (rest + more) =~= (seq![f] + rest) + more);
    }
}

/// A run among the fields that bytes split into is shorter than the bytes.
pub proof fn lemma_parsed_runs_shorter(b: Seq<u8>)
    ensures
        parse_fields(b) matches Some(fs) ==> forall|i: int|
            0 <= i < fs.len() ==> ((#[trigger] fs[i]).payload matches Payload::Run(r) ==> r.len()
                < b.len()),
    decreases b.len(),
{
    if b.len() > 0 && parse_fields(b) is Some {
        lemma_parse_field_bounds(b);
        let (f, n) = parse_field(b)->Some_0;
        lemma_parsed_runs_shorter(b.skip(n as int));
        let rest = parse_fields(b.skip(n as int))->Some_0;
        let fs = seq![f] + rest;
        assert forall|i: int| 0
            <= i < fs.len() implies ((#[trigger] fs[i]).payload matches Payload::Run(
            r,
        ) ==> r.len() < b.len()) by {
            if i > 0 {
                assert(fs[i] == rest[i - 1]);
            }
        }
    }
}

/// Fields that `merge` passes over can be left out: merging the fields is
/// merging those that are `known`.
pub proof fn lemma_fold_passes_over<V>(
    merge: spec_fn(V, Field) -> Option<V>,
    acc: V,
    fs: Seq<Field>,
    known: spec_fn(Field) -> bool,
)
    requires
        forall|a: V, f: Field| !known(f) ==> #[trigger] merge(a, f) == Some(a),
    ensures
        fold_fields(merge, acc, fs) == fold_fields(merge, acc, fs.filter(known)),
    decreases fs.len(),
{
    reveal(Seq::filter);
    if fs.len() > 0 {
        let front = fs.drop_last();
        let last = fs.last();
        assert(fs =~= front + seq![last]);
        lemma_fold_passes_over(merge, acc, front, known);
        lemma_fold_concat(merge, acc, front, seq![last]);
        if known(last) {
            assert(fs.filter(known) =~= front.filter(known) + seq![last]);
            lemma_fold_concat(merge, acc, front.filter(known), seq![last]);
        } else {
            match fold_fields(merge, acc, front) {
                Some(mid) => {
                    lemma_fold_one(merge, mid, last);
                },
                None => {},
            }
        }
    }
}

/// Two ways of merging that agree on every field of `fs` give the same
/// result on `fs`.
pub proof fn lemma_fold_same<V>(
    first: spec_fn(V, Field) -> Option<V>,
    second: spec_fn(V, Field) -> Option<V>,
    acc: V,
    fs: Seq<Field>,
)
    requires
        forall|a: V, i: int|
            0 <= i < fs.len() ==> #[trigger] first(a, fs[i]) == second(a, fs[i]),
    ensures
        fold_fields(first, acc, fs) == fold_fields(second, acc, fs),
    decreases fs.len(),
{
    if fs.len() > 0 {
        let rest = fs.drop_first();
        assert forall|a: V, i: int| 0 <= i < rest.len() implies #[trigger] first(a, rest[i])
            == second(a, rest[i]) by {
            assert(rest[i] == fs[i + 1]);
            assert(first(a, fs[i + 1]) == second(a, fs[i + 1]));
        }
        assert(first(acc, fs[0]) == second(acc, fs[0]));
        match first(acc, fs[0]) {
            Some(next) => {
                lemma_fold_same(first, second, next, rest);
            },
            None => {},
        }
    }
}

/// Whether every field of `fs` has the property `p`.
pub open spec fn all_fields(fs: Seq<Field>, p: spec_fn(Field) -> bool) -> bool {
    forall|i: int| 0 <= i < fs.len() ==> p(#[trigger] fs[i])
}

/// What holds of every field of two runs holds of every field of the joined
/// run.
pub proof fn lemma_all_fields_concat(a: Seq<Field>, b: Seq<Field>, p: spec_fn(Field) -> bool)
    requires
        all_fields(a, p),
        all_fields(b, p),
    ensures
        all_fields(a + b, p),
{
    assert forall|i: int| 0 <= i < (a + b).len() implies p(#[trigger] (a + b)[i]) by {
        if i < a.len() {
            assert((a + b)[i] == a[i]);
        } else {
            assert((a + b)[i] == b[i - a.len()]);
        }
    }
}

/// Merging one field is one call of `merge`.
pub proof fn lemma_fold_one<V>(merge: spec_fn(V, Field) -> Option<V>, acc: V, f: Field)
    ensures
        fold_fields(merge, acc, seq![f]) == merge(acc, f),
{
    assert(seq![f].drop_first() =~= Seq::<Field>::empty());
    match merge(acc, f) {
        Some(next) => {
            assert(fold_fields(merge, next, seq![f].drop_first()) == Some(next));
        },
        None => {},
    }
}

/// Merging a joined run is merging its first part, then its second.
pub proof fn lemma_fold_concat<V>(
    merge: spec_fn(V, Field) -> Option<V>,
    acc: V,
    a: Seq<Field>,
    b: Seq<Field>,
)
    ensures
        fold_fields(merge, acc, a + b) == match fold_fields(merge, acc, a) {
            Some(mid) => fold_fields(merge, mid, b),
            None => None,
        },
    decreases a.len(),
{
    if a.len() == 0 {
        assert(a + b =~= b);
    } else {
        assert((a + b).drop_first() =~= a.drop_first() + b);
        assert((a + b)[0] == a[0]);
        match merge(acc, a[0]) {
            Some(next) => {
                lemma_fold_concat(merge, next, a.drop_first(), b);
            },
            None => {},
        }
    }
}

/// Where each field of `fs` takes the accumulator from `states(i)` to
/// `states(i + 1)`, merging all of them takes it from `states(0)` to
/// `states(fs.len())`.
pub proof fn lemma_fold_chain<V>(
    merge: spec_fn(V, Field) -> Option<V>,
    fs: Seq<Field>,
    states: spec_fn(int) -> V,
)
    requires
        forall|i: int| 0 <= i < fs.len() ==> merge(states(i), #[trigger] fs[i]) == Some(
            states(i + 1),
        ),
    ensures
        fold_fields(merge, states(0), fs) == Some(states(fs.len() as int)),
    decreases fs.len(),
{
    if fs.len() > 0 {
        let rest = fs.drop_first();
        let shifted = |i: int| states(i + 1);
        assert forall|i: int| 0 <= i < rest.len() implies merge(shifted(i), #[trigger] rest[i])
            == Some(shifted(i + 1)) by {
            assert(rest[i] == fs[i + 1]);
        }
        lemma_fold_chain(merge, rest, shifted);
        assert(merge(states(0), fs[0]) == Some(states(1)));
    }
}

/// Decoding an empty body gives the accumulator.
pub proof fn lemma_decode_empty<V>(merge: spec_fn(V, Field) -> Option<V>, acc: V, b: Seq<u8>)
    requires
        b.len() == 0,
    ensures
        decode_with(merge, acc, b) == Some(acc),
{
}

/// Decoding a body that is not empty is merging its first field, then
/// decoding what follows it.
pub proof fn lemma_decode_step<V>(merge: spec_fn(V, Field) -> Option<V>, acc: V, b: Seq<u8>)
    requires
        b.len() > 0,
    ensures
        decode_with(merge, acc, b) == match parse_field(b) {
            Some((f, n)) => match merge(acc, f) {
                Some(next) => decode_with(merge, next, b.skip(n as int)),
                None => None,
            },
            None => None,
        },
{
    lemma_parse_field_bounds(b);
    match parse_field(b) {
        Some((f, n)) => {
            match parse_fields(b.skip(n as int)) {
                Some(rest) => {
                    let fs = seq![f] + rest;
                    assert(fs[0] == f);
                    assert(fs.drop_first() =~= rest);
                },
                None => {},
            }
        },
        None => {},
    }
}

/// Decoding what `fields_bytes` wrote is merging the fields.
pub proof fn lemma_decode_fields<V>(merge: spec_fn(V, Field) -> Option<V>, acc: V, fs: Seq<Field>)
    requires
        all_well_formed(fs),
    ensures
        decode_with(merge, acc, fields_bytes(fs)) == fold_fields(merge, acc, fs),
{
    lemma_fields_round_trip(fs);
}

/// Reads the field that starts at `pos`: the field and the position after
/// it, or `None` where `parse_field` refuses it.
pub fn read_field<'a>(bytes: &'a [u8], pos: usize) -> (r: Option<(FieldRef<'a>, usize)>)
    requires
        pos <= bytes@.len(),
    ensures
        match parse_field(bytes@.skip(pos as int)) {
            Some((f, n)) => r matches Some((field, next)) && field@ == f && next == pos + n
                && next <= bytes@.len(),
            None => r is None,
        },
{
    let ghost whole = bytes@.skip(pos as int);
    let (tag, at) = match read_varint(bytes, pos) {
        Some(pair) => pair,
        None => {
            return None;
        },
    };
    let ghost body = whole.skip(at - pos);
    assert(body =~= bytes@.skip(at as int));
    if tag / 8 > 0xffff_ffff {
        return None;
    }
    let number: u32 = (tag / 8) as u32;
    let wire: u64 = tag % 8;
    if wire == 0 {
        match read_varint(bytes, at) {
            Some((v, next)) => Some((FieldRef { number, chunk: Chunk::Varint(v) }, next)),
            None => None,
        }
    } else if wire == 1 {
        match read_fixed64(bytes, at) {
            Some((v, next)) => Some((FieldRef { number, chunk: Chunk::Fixed64(v) }, next)),
            None => None,
        }
    } else if wire == 2 {
        match read_varint(bytes, at) {
            Some((len, start)) => {
                if len > (bytes.len() - start) as u64 {
                    None
                } else {
                    let end: usize = start + len as usize;
                    let run = slice_subrange(bytes, start, end);
                    assert(run@ =~= body.subrange(start - at, start - at + len));
                    Some((FieldRef { number, chunk: Chunk::Run(run) }, end))
                }
            },
            None => None,
        }
    } else if wire == 5 {
        match read_fixed32(bytes, at) {
            Some((v, next)) => Some((FieldRef { number, chunk: Chunk::Fixed32(v) }, next)),
            None => None,
        }
    } else {
        None
    }
}

} // verus!
