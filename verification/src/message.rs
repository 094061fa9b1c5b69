//! What the messages have in common: each is written as a body of fields,
//! and a message inside another is a length-delimited run of its body.

use crate::field::{Field, Payload, fields_bytes, lemma_fields_bytes_one, lemma_fields_bytes_push};
use crate::member::{message_member, one, repeated_runs, write_field_run};
use vstd::prelude::*;

verus! {

/// A message that can be written.
pub trait Message: View {
    /// The body of the message that `v` describes.
    spec fn wire_of(v: Self::V) -> Seq<u8>;

    /// The body of the message.
    fn to_bytes(&self) -> (r: Vec<u8>)
        ensures
            r@ == Self::wire_of(self@),
    ;
}

/// The bodies of a list of messages.
pub open spec fn bodies_of<M: Message>(items: Seq<M>) -> Seq<Seq<u8>> {
    Seq::new(items.len(), |i: int| M::wire_of(items[i]@))
}

/// The body of an optional message.
pub open spec fn body_of<M: Message>(item: Option<M>) -> Option<Seq<u8>> {
    match item {
        Some(x) => Some(M::wire_of(x@)),
        None => None,
    }
}

/// Appends a message as a length-delimited field.
pub fn write_message<M: Message>(out: &mut Vec<u8>, number: u32, item: &M)
    ensures
        final(out)@ == old(out)@ + fields_bytes(one(number, Payload::Run(M::wire_of(item@)))),
{
    let body = item.to_bytes();
    write_field_run(out, number, body.as_slice());
}

/// Appends an optional message member: a field where it is present.
pub fn write_optional<M: Message>(out: &mut Vec<u8>, number: u32, item: &Option<M>)
    ensures
        final(out)@ == old(out)@ + fields_bytes(message_member(number, body_of(*item))),
{
    match item {
        Some(x) => {
            write_message(out, number, x);
        },
        None => {
            assert(out@ =~= out@ + fields_bytes(Seq::empty()));
        },
    }
}

/// Appends a repeated message member: one field per item, in order.
pub fn write_repeated<M: Message>(out: &mut Vec<u8>, number: u32, items: &Vec<M>)
    ensures
        final(out)@ == old(out)@ + fields_bytes(repeated_runs(number, bodies_of(items@))),
{
    let mut i: usize = 0;
    proof {
        assert(repeated_runs(number, bodies_of(items@.take(0))) =~= Seq::<Field>::empty());
        assert(out@ =~= out@ + fields_bytes(Seq::empty()));
    }
    while i < items.len()
        invariant
            i <= items.len(),
            out@ == old(out)@ + fields_bytes(
                repeated_runs(number, bodies_of(items@.take(i as int))),
            ),
        decreases items.len() - i,
    {
        let ghost done = repeated_runs(number, bodies_of(items@.take(i as int)));
        let ghost f = Field { number, payload: Payload::Run(M::wire_of(items@[i as int]@)) };
        write_message(out, number, &items[i]);
        proof {
            lemma_fields_bytes_one(f);
            lemma_fields_bytes_push(done, f);
            assert(repeated_runs(number, bodies_of(items@.take(i + 1))) =~= done.push(f));
            assert(out@ =~= old(out)@ + (fields_bytes(done) + fields_bytes(one(
                number,
                f.payload,
            ))));
        }
        i = i + 1;
    }
    assert(items@.take(i as int) =~= items@);
}

} // verus!
