//! Reading and writing the messages of the common family.

use crate::error::Error;
use crate::field::{
    Chunk, Field, FieldRef, Payload, decode_with, fields_bytes, lemma_decode_empty,
    lemma_decode_step, lemma_fields_bytes_one, lemma_fields_bytes_push, lemma_parse_field_bounds,
    lemma_written, read_field,
};
use crate::member::{
    frame, framed, one, parse_framed, run_member, unframe, varint_member, write_field_fixed64,
    write_field_run, write_field_varint, write_member_run, write_member_varint,
};
use crate::message::{Message, bodies_of, write_repeated};
use crate::opentelemetry::common::types::{
    AnyValue, AnyValueOneOfvalue, AnyValueView, ArrayValue, ArrayValueView, InstrumentationScope,
    InstrumentationScopeView, KeyValue, KeyValueList, KeyValueListView, KeyValueView, Resource,
    ResourceView,
};
use crate::text::{run_bytes, text_bytes, text_of};
use crate::wire::{low32_of, signed64_of, unsigned64_of};
use std::borrow::Cow;
use vstd::prelude::*;
use vstd::utf8::encode_utf8;

verus! {

impl<'a> AnyValueOneOfvalue<'a> {
    /// Appends the field of the variant in force to `out`: nothing where none is
    /// set.
    pub fn write(&self, out: &mut Vec<u8>)
        ensures
            final(out)@ == old(out)@ + fields_bytes(self@.fields()),
        decreases self, 0int,
    {
        match self {
            AnyValueOneOfvalue::string_value(x) => {
                write_field_run(out, 1, text_bytes(x));
            },
            AnyValueOneOfvalue::bool_value(x) => {
                write_field_varint(out, 2, if *x { 1 } else { 0 });
            },
            AnyValueOneOfvalue::int_value(x) => {
                write_field_varint(out, 3, unsigned64_of(*x));
            },
            AnyValueOneOfvalue::double_value(x) => {
                write_field_fixed64(out, 4, *x);
            },
            AnyValueOneOfvalue::array_value(x) => {
                let body = x.body();
                write_field_run(out, 5, body.as_slice());
            },
            AnyValueOneOfvalue::kvlist_value(x) => {
                let body = x.body();
                write_field_run(out, 6, body.as_slice());
            },
            AnyValueOneOfvalue::bytes_value(x) => {
                write_field_run(out, 7, run_bytes(x));
            },
            AnyValueOneOfvalue::Unset => {
                assert(out@ =~= out@ + fields_bytes(Seq::empty()));
            },
        }
    }
}

impl<'a> AnyValue<'a> {
    /// Merges one field that was read into the message. Returns whether the field was
    /// in order; if not, the message is left in no particular state.
    fn merge_field(&mut self, field: FieldRef<'a>, Ghost(budget): Ghost<nat>) -> (ok: bool)
        requires
            field@.payload matches Payload::Run(r) ==> r.len() < budget,
        ensures
            match AnyValueView::merge(budget, old(self)@, field@) {
                Some(v) => ok && final(self)@ == v,
                None => !ok,
            },
        decreases budget, 0int,
    {
        match field.chunk {
            Chunk::Varint(x) => {
                if field.number == 2 {
                    self.value = AnyValueOneOfvalue::bool_value(x != 0);
                    true
                } else if field.number == 3 {
                    self.value = AnyValueOneOfvalue::int_value(signed64_of(x));
                    true
                } else {
                    true
                }
            },
            Chunk::Fixed64(x) => {
                if field.number == 4 {
                    self.value = AnyValueOneOfvalue::double_value(x);
                    true
                } else {
                    true
                }
            },
            Chunk::Fixed32(_) => true,
            Chunk::Run(r) => {
                if field.number == 1 {
                    match text_of(r) {
                        Some(s) => {
                            self.value = AnyValueOneOfvalue::string_value(s);
                            true
                        },
                        None => false,
                    }
                } else if field.number == 5 {
                    match ArrayValue::from_bytes(r) {
                        Ok(item) => {
                            self.value = AnyValueOneOfvalue::array_value(item);
                            true
                        },
                        Err(_) => false,
                    }
                } else if field.number == 6 {
                    match KeyValueList::from_bytes(r) {
                        Ok(item) => {
                            self.value = AnyValueOneOfvalue::kvlist_value(item);
                            true
                        },
                        Err(_) => false,
                    }
                } else if field.number == 7 {
                    self.value = AnyValueOneOfvalue::bytes_value(Cow::Borrowed(r));
                    true
                } else {
                    true
                }
            },
        }
    }

    /// Decodes a message body. Members whose fields are missing are at their zero
    /// value, and fields of no member are passed over.
    pub fn from_bytes(bytes: &'a [u8]) -> (r: Result<Self, Error>)
        ensures
            match AnyValueView::decode(bytes@) {
                Some(v) => r matches Ok(m) && m@ == v,
                None => r == Err::<Self, Error>(Error::InvalidProtobuf),
            },
        decreases bytes@.len(), 1int,
    {
        let mut msg = Self::default();
        let mut pos: usize = 0;
        let ghost merge = AnyValueView::merge_fn(bytes@.len());
        assert(bytes@.skip(0) =~= bytes@);
        while pos < bytes.len()
            invariant
                pos <= bytes@.len(),
                bytes@.len() == bytes.len(),
                merge == AnyValueView::merge_fn(bytes@.len()),
                decode_with(merge, msg@, bytes@.skip(pos as int)) == AnyValueView::decode(bytes@),
            decreases bytes.len() - pos,
        {
            proof {
                lemma_decode_step(merge, msg@, bytes@.skip(pos as int));
                lemma_parse_field_bounds(bytes@.skip(pos as int));
            }
            match read_field(bytes, pos) {
                Some((field, next)) => {
                    if !msg.merge_field(field, Ghost(bytes@.len())) {
                        return Err(Error::InvalidProtobuf);
                    }
                    assert(bytes@.skip(pos as int).skip(next - pos) =~= bytes@.skip(next as int));
                    pos = next;
                },
                None => {
                    return Err(Error::InvalidProtobuf);
                },
            }
        }
        proof {
            lemma_decode_empty(merge, msg@, bytes@.skip(pos as int));
        }
        Ok(msg)
    }

    /// Appends the body of the message to `out`: every member that is not at its zero
    /// value, in the order of the schema.
    pub fn write(&self, out: &mut Vec<u8>)
        ensures
            final(out)@ == old(out)@ + self@.wire(),
        decreases self, 0int,
    {
        let ghost s0 = out@;
        let ghost f1 = self@.value.fields();
        self.value.write(out);
    }

    fn body(&self) -> (r: Vec<u8>)
        ensures
            r@ == self@.wire(),
        decreases self, 1int,
    {
        let mut out: Vec<u8> = Vec::new();
        self.write(&mut out);
        assert(out@ =~= self@.wire());
        out
    }

    fn write_present(item: &Option<AnyValue<'a>>, out: &mut Vec<u8>, number: u32)
        ensures
            final(out)@ == old(out)@ + fields_bytes(
                AnyValueView::optional(number, AnyValue::view_of(*item)),
            ),
        decreases item, 0int,
    {
        match item {
            Some(x) => {
                let body = x.body();
                write_field_run(out, number, body.as_slice());
            },
            None => {
                assert(out@ =~= out@ + fields_bytes(Seq::empty()));
            },
        }
    }

    fn write_each(items: &Vec<AnyValue<'a>>, out: &mut Vec<u8>, number: u32)
        ensures
            final(out)@ == old(out)@ + fields_bytes(
                AnyValueView::repeated(number, AnyValue::views(items@)),
            ),
        decreases items, 0int,
    {
        let mut i: usize = 0;
        let ghost all = AnyValueView::repeated(number, AnyValue::views(items@));
        proof {
            assert(all.take(0) =~= Seq::<Field>::empty());
            assert(out@ =~= out@ + fields_bytes(Seq::empty()));
        }
        while i < items.len()
            invariant
                i <= items.len(),
                all == AnyValueView::repeated(number, AnyValue::views(items@)),
                out@ == old(out)@ + fields_bytes(all.take(i as int)),
            decreases items.len() - i,
        {
            let ghost done = all.take(i as int);
            let body = items[i].body();
            write_field_run(out, number, body.as_slice());
            proof {
                let f = Field { number, payload: Payload::Run(body@) };
                assert(all[i as int] == f);
                lemma_fields_bytes_one(f);
                lemma_fields_bytes_push(done, f);
                assert(all.take(i + 1) =~= done.push(f));
                assert(
                    out@ =~= old(out)@ + (fields_bytes(done) + fields_bytes(one(number, f.payload)))
                );
            }
            i = i + 1;
        }
        assert(all.take(i as int) =~= all);
    }

    /// The message with its length in front. The body of a message in memory is short
    /// enough for its length to be written.
    pub fn encode(&self) -> (r: Vec<u8>)
        ensures
            r@ == framed(self@.wire()),
            self@.wire().len() <= u64::MAX,
    {
        let body = self.body();
        assert(body@.len() == body.len());
        frame(body.as_slice())
    }

    /// Decodes the message that stands, its length in front, at the start of `bytes`.
    /// What follows the message is not read.
    pub fn decode(bytes: &'a [u8]) -> (r: Result<Self, Error>)
        ensures
            match parse_framed(bytes@) {
                Some(body) => match AnyValueView::decode(body) {
                    Some(v) => r matches Ok(m) && m@ == v,
                    None => r == Err::<Self, Error>(Error::InvalidProtobuf),
                },
                None => r == Err::<Self, Error>(Error::InvalidProtobuf),
            },
    {
        match unframe(bytes) {
            Some(body) => Self::from_bytes(body),
            None => Err(Error::InvalidProtobuf),
        }
    }
}

impl<'a> Message for AnyValue<'a> {
    open spec fn wire_of(v: AnyValueView) -> Seq<u8> {
        v.wire()
    }

    fn to_bytes(&self) -> (r: Vec<u8>)
        ensures
            r@ == self@.wire(),
    {
        let mut out: Vec<u8> = Vec::new();
        self.write(&mut out);
        assert(out@ =~= self@.wire());
        out
    }
}

impl<'a> ArrayValue<'a> {
    /// Merges one field that was read into the message. Returns whether the field was
    /// in order; if not, the message is left in no particular state.
    fn merge_field(&mut self, field: FieldRef<'a>, Ghost(budget): Ghost<nat>) -> (ok: bool)
        requires
            field@.payload matches Payload::Run(r) ==> r.len() < budget,
        ensures
            match ArrayValueView::merge(budget, old(self)@, field@) {
                Some(v) => ok && final(self)@ == v,
                None => !ok,
            },
        decreases budget, 0int,
    {
        match field.chunk {
            Chunk::Varint(_) => true,
            Chunk::Fixed64(_) => true,
            Chunk::Fixed32(_) => true,
            Chunk::Run(r) => {
                if field.number == 1 {
                    match AnyValue::from_bytes(r) {
                        Ok(item) => {
                            self.values.push(item);
                            assert(self@.values =~= old(self)@.values.push(item@));
                            true
                        },
                        Err(_) => false,
                    }
                } else {
                    true
                }
            },
        }
    }

    /// Decodes a message body. Members whose fields are missing are at their zero
    /// value, and fields of no member are passed over.
    pub fn from_bytes(bytes: &'a [u8]) -> (r: Result<Self, Error>)
        ensures
            match ArrayValueView::decode(bytes@) {
                Some(v) => r matches Ok(m) && m@ == v,
                None => r == Err::<Self, Error>(Error::InvalidProtobuf),
            },
        decreases bytes@.len(), 1int,
    {
        let mut msg = Self::default();
        let mut pos: usize = 0;
        let ghost merge = ArrayValueView::merge_fn(bytes@.len());
        assert(bytes@.skip(0) =~= bytes@);
        while pos < bytes.len()
            invariant
                pos <= bytes@.len(),
                bytes@.len() == bytes.len(),
                merge == ArrayValueView::merge_fn(bytes@.len()),
                decode_with(merge, msg@, bytes@.skip(pos as int)) == ArrayValueView::decode(bytes@),
            decreases bytes.len() - pos,
        {
            proof {
                lemma_decode_step(merge, msg@, bytes@.skip(pos as int));
                lemma_parse_field_bounds(bytes@.skip(pos as int));
            }
            match read_field(bytes, pos) {
                Some((field, next)) => {
                    if !msg.merge_field(field, Ghost(bytes@.len())) {
                        return Err(Error::InvalidProtobuf);
                    }
                    assert(bytes@.skip(pos as int).skip(next - pos) =~= bytes@.skip(next as int));
                    pos = next;
                },
                None => {
                    return Err(Error::InvalidProtobuf);
                },
            }
        }
        proof {
            lemma_decode_empty(merge, msg@, bytes@.skip(pos as int));
        }
        Ok(msg)
    }

    /// Appends the body of the message to `out`: every member that is not at its zero
    /// value, in the order of the schema.
    pub fn write(&self, out: &mut Vec<u8>)
        ensures
            final(out)@ == old(out)@ + self@.wire(),
        decreases self, 0int,
    {
        let ghost s0 = out@;
        let ghost f1 = AnyValueView::repeated(1, self@.values);
        AnyValue::write_each(&self.values, out, 1);
    }

    fn body(&self) -> (r: Vec<u8>)
        ensures
            r@ == self@.wire(),
        decreases self, 1int,
    {
        let mut out: Vec<u8> = Vec::new();
        self.write(&mut out);
        assert(out@ =~= self@.wire());
        out
    }

    /// The message with its length in front. The body of a message in memory is short
    /// enough for its length to be written.
    pub fn encode(&self) -> (r: Vec<u8>)
        ensures
            r@ == framed(self@.wire()),
            self@.wire().len() <= u64::MAX,
    {
        let body = self.body();
        assert(body@.len() == body.len());
        frame(body.as_slice())
    }

    /// Decodes the message that stands, its length in front, at the start of `bytes`.
    /// What follows the message is not read.
    pub fn decode(bytes: &'a [u8]) -> (r: Result<Self, Error>)
        ensures
            match parse_framed(bytes@) {
                Some(body) => match ArrayValueView::decode(body) {
                    Some(v) => r matches Ok(m) && m@ == v,
                    None => r == Err::<Self, Error>(Error::InvalidProtobuf),
                },
                None => r == Err::<Self, Error>(Error::InvalidProtobuf),
            },
    {
        match unframe(bytes) {
            Some(body) => Self::from_bytes(body),
            None => Err(Error::InvalidProtobuf),
        }
    }
}

impl<'a> Message for ArrayValue<'a> {
    open spec fn wire_of(v: ArrayValueView) -> Seq<u8> {
        v.wire()
    }

    fn to_bytes(&self) -> (r: Vec<u8>)
        ensures
            r@ == self@.wire(),
    {
        let mut out: Vec<u8> = Vec::new();
        self.write(&mut out);
        assert(out@ =~= self@.wire());
        out
    }
}

impl<'a> KeyValueList<'a> {
    /// Merges one field that was read into the message. Returns whether the field was
    /// in order; if not, the message is left in no particular state.
    fn merge_field(&mut self, field: FieldRef<'a>, Ghost(budget): Ghost<nat>) -> (ok: bool)
        requires
            field@.payload matches Payload::Run(r) ==> r.len() < budget,
        ensures
            match KeyValueListView::merge(budget, old(self)@, field@) {
                Some(v) => ok && final(self)@ == v,
                None => !ok,
            },
        decreases budget, 0int,
    {
        match field.chunk {
            Chunk::Varint(_) => true,
            Chunk::Fixed64(_) => true,
            Chunk::Fixed32(_) => true,
            Chunk::Run(r) => {
                if field.number == 1 {
                    match KeyValue::from_bytes(r) {
                        Ok(item) => {
                            self.values.push(item);
                            assert(self@.values =~= old(self)@.values.push(item@));
                            true
                        },
                        Err(_) => false,
                    }
                } else {
                    true
                }
            },
        }
    }

    /// Decodes a message body. Members whose fields are missing are at their zero
    /// value, and fields of no member are passed over.
    pub fn from_bytes(bytes: &'a [u8]) -> (r: Result<Self, Error>)
        ensures
            match KeyValueListView::decode(bytes@) {
                Some(v) => r matches Ok(m) && m@ == v,
                None => r == Err::<Self, Error>(Error::InvalidProtobuf),
            },
        decreases bytes@.len(), 1int,
    {
        let mut msg = Self::default();
        let mut pos: usize = 0;
        let ghost merge = KeyValueListView::merge_fn(bytes@.len());
        assert(bytes@.skip(0) =~= bytes@);
        while pos < bytes.len()
            invariant
                pos <= bytes@.len(),
                bytes@.len() == bytes.len(),
                merge == KeyValueListView::merge_fn(bytes@.len()),
                decode_with(merge, msg@, bytes@.skip(pos as int)) == KeyValueListView::decode(
                    bytes@,
                ),
            decreases bytes.len() - pos,
        {
            proof {
                lemma_decode_step(merge, msg@, bytes@.skip(pos as int));
                lemma_parse_field_bounds(bytes@.skip(pos as int));
            }
            match read_field(bytes, pos) {
                Some((field, next)) => {
                    if !msg.merge_field(field, Ghost(bytes@.len())) {
                        return Err(Error::InvalidProtobuf);
                    }
                    assert(bytes@.skip(pos as int).skip(next - pos) =~= bytes@.skip(next as int));
                    pos = next;
                },
                None => {
                    return Err(Error::InvalidProtobuf);
                },
            }
        }
        proof {
            lemma_decode_empty(merge, msg@, bytes@.skip(pos as int));
        }
        Ok(msg)
    }

    /// Appends the body of the message to `out`: every member that is not at its zero
    /// value, in the order of the schema.
    pub fn write(&self, out: &mut Vec<u8>)
        ensures
            final(out)@ == old(out)@ + self@.wire(),
        decreases self, 0int,
    {
        let ghost s0 = out@;
        let ghost f1 = KeyValueView::repeated(1, self@.values);
        KeyValue::write_each(&self.values, out, 1);
    }

    fn body(&self) -> (r: Vec<u8>)
        ensures
            r@ == self@.wire(),
        decreases self, 1int,
    {
        let mut out: Vec<u8> = Vec::new();
        self.write(&mut out);
        assert(out@ =~= self@.wire());
        out
    }

    /// The message with its length in front. The body of a message in memory is short
    /// enough for its length to be written.
    pub fn encode(&self) -> (r: Vec<u8>)
        ensures
            r@ == framed(self@.wire()),
            self@.wire().len() <= u64::MAX,
    {
        let body = self.body();
        assert(body@.len() == body.len());
        frame(body.as_slice())
    }

    /// Decodes the message that stands, its length in front, at the start of `bytes`.
    /// What follows the message is not read.
    pub fn decode(bytes: &'a [u8]) -> (r: Result<Self, Error>)
        ensures
            match parse_framed(bytes@) {
                Some(body) => match KeyValueListView::decode(body) {
                    Some(v) => r matches Ok(m) && m@ == v,
                    None => r == Err::<Self, Error>(Error::InvalidProtobuf),
                },
                None => r == Err::<Self, Error>(Error::InvalidProtobuf),
            },
    {
        match unframe(bytes) {
            Some(body) => Self::from_bytes(body),
            None => Err(Error::InvalidProtobuf),
        }
    }
}

impl<'a> Message for KeyValueList<'a> {
    open spec fn wire_of(v: KeyValueListView) -> Seq<u8> {
        v.wire()
    }

    fn to_bytes(&self) -> (r: Vec<u8>)
        ensures
            r@ == self@.wire(),
    {
        let mut out: Vec<u8> = Vec::new();
        self.write(&mut out);
        assert(out@ =~= self@.wire());
        out
    }
}

impl<'a> KeyValue<'a> {
    /// Merges one field that was read into the message. Returns whether the field was
    /// in order; if not, the message is left in no particular state.
    fn merge_field(&mut self, field: FieldRef<'a>, Ghost(budget): Ghost<nat>) -> (ok: bool)
        requires
            field@.payload matches Payload::Run(r) ==> r.len() < budget,
        ensures
            match KeyValueView::merge(budget, old(self)@, field@) {
                Some(v) => ok && final(self)@ == v,
                None => !ok,
            },
        decreases budget, 0int,
    {
        match field.chunk {
            Chunk::Varint(_) => true,
            Chunk::Fixed64(_) => true,
            Chunk::Fixed32(_) => true,
            Chunk::Run(r) => {
                if field.number == 1 {
                    match text_of(r) {
                        Some(s) => {
                            self.key = s;
                            true
                        },
                        None => false,
                    }
                } else if field.number == 2 {
                    match AnyValue::from_bytes(r) {
                        Ok(item) => {
                            self.value = Some(item);
                            true
                        },
                        Err(_) => false,
                    }
                } else {
                    true
                }
            },
        }
    }

    /// Decodes a message body. Members whose fields are missing are at their zero
    /// value, and fields of no member are passed over.
    pub fn from_bytes(bytes: &'a [u8]) -> (r: Result<Self, Error>)
        ensures
            match KeyValueView::decode(bytes@) {
                Some(v) => r matches Ok(m) && m@ == v,
                None => r == Err::<Self, Error>(Error::InvalidProtobuf),
            },
        decreases bytes@.len(), 1int,
    {
        let mut msg = Self::default();
        let mut pos: usize = 0;
        let ghost merge = KeyValueView::merge_fn(bytes@.len());
        assert(bytes@.skip(0) =~= bytes@);
        while pos < bytes.len()
            invariant
                pos <= bytes@.len(),
                bytes@.len() == bytes.len(),
                merge == KeyValueView::merge_fn(bytes@.len()),
                decode_with(merge, msg@, bytes@.skip(pos as int)) == KeyValueView::decode(bytes@),
            decreases bytes.len() - pos,
        {
            proof {
                lemma_decode_step(merge, msg@, bytes@.skip(pos as int));
                lemma_parse_field_bounds(bytes@.skip(pos as int));
            }
            match read_field(bytes, pos) {
                Some((field, next)) => {
                    if !msg.merge_field(field, Ghost(bytes@.len())) {
                        return Err(Error::InvalidProtobuf);
                    }
                    assert(bytes@.skip(pos as int).skip(next - pos) =~= bytes@.skip(next as int));
                    pos = next;
                },
                None => {
                    return Err(Error::InvalidProtobuf);
                },
            }
        }
        proof {
            lemma_decode_empty(merge, msg@, bytes@.skip(pos as int));
        }
        Ok(msg)
    }

    /// Appends the body of the message to `out`: every member that is not at its zero
    /// value, in the order of the schema.
    pub fn write(&self, out: &mut Vec<u8>)
        ensures
            final(out)@ == old(out)@ + self@.wire(),
        decreases self, 0int,
    {
        let ghost s0 = out@;
        let ghost f1 = run_member(1, encode_utf8(self@.key));
        let ghost f2 = AnyValueView::optional(2, self@.value);
        let ghost p2 = f1 + f2;
        write_member_run(out, 1, text_bytes(&self.key));
        let ghost s1 = out@;
        AnyValue::write_present(&self.value, out, 2);
        assert(out@ == s0 + fields_bytes(p2)) by {
            lemma_written(s0, f1, f2, s1, out@);
        }
    }

    fn body(&self) -> (r: Vec<u8>)
        ensures
            r@ == self@.wire(),
        decreases self, 1int,
    {
        let mut out: Vec<u8> = Vec::new();
        self.write(&mut out);
        assert(out@ =~= self@.wire());
        out
    }

    fn write_each(items: &Vec<KeyValue<'a>>, out: &mut Vec<u8>, number: u32)
        ensures
            final(out)@ == old(out)@ + fields_bytes(
                KeyValueView::repeated(number, KeyValue::views(items@)),
            ),
        decreases items, 0int,
    {
        let mut i: usize = 0;
        let ghost all = KeyValueView::repeated(number, KeyValue::views(items@));
        proof {
            assert(all.take(0) =~= Seq::<Field>::empty());
            assert(out@ =~= out@ + fields_bytes(Seq::empty()));
        }
        while i < items.len()
            invariant
                i <= items.len(),
                all == KeyValueView::repeated(number, KeyValue::views(items@)),
                out@ == old(out)@ + fields_bytes(all.take(i as int)),
            decreases items.len() - i,
        {
            let ghost done = all.take(i as int);
            let body = items[i].body();
            write_field_run(out, number, body.as_slice());
            proof {
                let f = Field { number, payload: Payload::Run(body@) };
                assert(all[i as int] == f);
                lemma_fields_bytes_one(f);
                lemma_fields_bytes_push(done, f);
                assert(all.take(i + 1) =~= done.push(f));
                assert(
                    out@ =~= old(out)@ + (fields_bytes(done) + fields_bytes(one(number, f.payload)))
                );
            }
            i = i + 1;
        }
        assert(all.take(i as int) =~= all);
    }

    /// The message with its length in front. The body of a message in memory is short
    /// enough for its length to be written.
    pub fn encode(&self) -> (r: Vec<u8>)
        ensures
            r@ == framed(self@.wire()),
            self@.wire().len() <= u64::MAX,
    {
        let body = self.body();
        assert(body@.len() == body.len());
        frame(body.as_slice())
    }

    /// Decodes the message that stands, its length in front, at the start of `bytes`.
    /// What follows the message is not read.
    pub fn decode(bytes: &'a [u8]) -> (r: Result<Self, Error>)
        ensures
            match parse_framed(bytes@) {
                Some(body) => match KeyValueView::decode(body) {
                    Some(v) => r matches Ok(m) && m@ == v,
                    None => r == Err::<Self, Error>(Error::InvalidProtobuf),
                },
                None => r == Err::<Self, Error>(Error::InvalidProtobuf),
            },
    {
        match unframe(bytes) {
            Some(body) => Self::from_bytes(body),
            None => Err(Error::InvalidProtobuf),
        }
    }
}

impl<'a> Message for KeyValue<'a> {
    open spec fn wire_of(v: KeyValueView) -> Seq<u8> {
        v.wire()
    }

    fn to_bytes(&self) -> (r: Vec<u8>)
        ensures
            r@ == self@.wire(),
    {
        let mut out: Vec<u8> = Vec::new();
        self.write(&mut out);
        assert(out@ =~= self@.wire());
        out
    }
}

impl<'a> InstrumentationScope<'a> {
    /// Merges one field that was read into the message. Returns whether the field was
    /// in order; if not, the message is left in no particular state.
    fn merge_field(&mut self, field: FieldRef<'a>) -> (ok: bool)
        ensures
            match InstrumentationScopeView::merge(old(self)@, field@) {
                Some(v) => ok && final(self)@ == v,
                None => !ok,
            },
    {
        match field.chunk {
            Chunk::Varint(x) => {
                if field.number == 4 {
                    self.dropped_attributes_count = low32_of(x);
                    true
                } else {
                    true
                }
            },
            Chunk::Fixed64(_) => true,
            Chunk::Fixed32(_) => true,
            Chunk::Run(r) => {
                if field.number == 1 {
                    match text_of(r) {
                        Some(s) => {
                            self.name = s;
                            true
                        },
                        None => false,
                    }
                } else if field.number == 2 {
                    match text_of(r) {
                        Some(s) => {
                            self.version = s;
                            true
                        },
                        None => false,
                    }
                } else if field.number == 3 {
                    match KeyValue::from_bytes(r) {
                        Ok(item) => {
                            self.attributes.push(item);
                            assert(self@.attributes =~= old(self)@.attributes.push(item@));
                            true
                        },
                        Err(_) => false,
                    }
                } else {
                    true
                }
            },
        }
    }

    /// Decodes a message body. Members whose fields are missing are at their zero
    /// value, and fields of no member are passed over.
    pub fn from_bytes(bytes: &'a [u8]) -> (r: Result<Self, Error>)
        ensures
            match InstrumentationScopeView::decode(bytes@) {
                Some(v) => r matches Ok(m) && m@ == v,
                None => r == Err::<Self, Error>(Error::InvalidProtobuf),
            },
    {
        reveal(InstrumentationScopeView::decode);
        let mut msg = Self::default();
        let mut pos: usize = 0;
        let ghost merge = InstrumentationScopeView::merge_fn();
        assert(bytes@.skip(0) =~= bytes@);
        while pos < bytes.len()
            invariant
                pos <= bytes@.len(),
                bytes@.len() == bytes.len(),
                merge == InstrumentationScopeView::merge_fn(),
                decode_with(merge, msg@, bytes@.skip(pos as int))
                    == InstrumentationScopeView::decode(bytes@),
            decreases bytes.len() - pos,
        {
            proof {
                lemma_decode_step(merge, msg@, bytes@.skip(pos as int));
            }
            match read_field(bytes, pos) {
                Some((field, next)) => {
                    if !msg.merge_field(field) {
                        return Err(Error::InvalidProtobuf);
                    }
                    assert(bytes@.skip(pos as int).skip(next - pos) =~= bytes@.skip(next as int));
                    pos = next;
                },
                None => {
                    return Err(Error::InvalidProtobuf);
                },
            }
        }
        proof {
            lemma_decode_empty(merge, msg@, bytes@.skip(pos as int));
        }
        Ok(msg)
    }

    /// Appends the body of the message to `out`: every member that is not at its zero
    /// value, in the order of the schema.
    pub fn write(&self, out: &mut Vec<u8>)
        ensures
            final(out)@ == old(out)@ + self@.wire(),
    {
        let ghost s0 = out@;
        let ghost f1 = run_member(1, encode_utf8(self@.name));
        let ghost f2 = run_member(2, encode_utf8(self@.version));
        let ghost f3 = KeyValueView::repeated(3, self@.attributes);
        let ghost f4 = varint_member(4, self@.dropped_attributes_count as u64);
        let ghost p2 = f1 + f2;
        let ghost p3 = p2 + f3;
        let ghost p4 = p3 + f4;
        write_member_run(out, 1, text_bytes(&self.name));
        let ghost s1 = out@;
        write_member_run(out, 2, text_bytes(&self.version));
        assert(out@ == s0 + fields_bytes(p2)) by {
            lemma_written(s0, f1, f2, s1, out@);
        }
        let ghost s2 = out@;
        write_repeated(out, 3, &self.attributes);
        assert(out@ == s0 + fields_bytes(p3)) by {
            assert(bodies_of(self.attributes@) =~= KeyValueView::bodies(self@.attributes));
            lemma_written(s0, p2, f3, s2, out@);
        }
        let ghost s3 = out@;
        write_member_varint(out, 4, self.dropped_attributes_count as u64);
        assert(out@ == s0 + fields_bytes(p4)) by {
            lemma_written(s0, p3, f4, s3, out@);
        }
        proof {
            reveal(InstrumentationScopeView::wire);
        }
    }

    /// The message with its length in front. The body of a message in memory is short
    /// enough for its length to be written.
    pub fn encode(&self) -> (r: Vec<u8>)
        ensures
            r@ == framed(self@.wire()),
            self@.wire().len() <= u64::MAX,
    {
        let body = self.to_bytes();
        assert(body@.len() == body.len());
        frame(body.as_slice())
    }

    /// Decodes the message that stands, its length in front, at the start of `bytes`.
    /// What follows the message is not read.
    pub fn decode(bytes: &'a [u8]) -> (r: Result<Self, Error>)
        ensures
            match parse_framed(bytes@) {
                Some(body) => match InstrumentationScopeView::decode(body) {
                    Some(v) => r matches Ok(m) && m@ == v,
                    None => r == Err::<Self, Error>(Error::InvalidProtobuf),
                },
                None => r == Err::<Self, Error>(Error::InvalidProtobuf),
            },
    {
        match unframe(bytes) {
            Some(body) => Self::from_bytes(body),
            None => Err(Error::InvalidProtobuf),
        }
    }
}

impl<'a> Message for InstrumentationScope<'a> {
    open spec fn wire_of(v: InstrumentationScopeView) -> Seq<u8> {
        v.wire()
    }

    fn to_bytes(&self) -> (r: Vec<u8>)
        ensures
            r@ == self@.wire(),
    {
        let mut out: Vec<u8> = Vec::new();
        self.write(&mut out);
        assert(out@ =~= self@.wire());
        out
    }
}

impl<'a> Resource<'a> {
    /// Merges one field that was read into the message. Returns whether the field was
    /// in order; if not, the message is left in no particular state.
    fn merge_field(&mut self, field: FieldRef<'a>) -> (ok: bool)
        ensures
            match ResourceView::merge(old(self)@, field@) {
                Some(v) => ok && final(self)@ == v,
                None => !ok,
            },
    {
        match field.chunk {
            Chunk::Varint(x) => {
                if field.number == 2 {
                    self.dropped_attributes_count = low32_of(x);
                    true
                } else {
                    true
                }
            },
            Chunk::Fixed64(_) => true,
            Chunk::Fixed32(_) => true,
            Chunk::Run(r) => {
                if field.number == 1 {
                    match KeyValue::from_bytes(r) {
                        Ok(item) => {
                            self.attributes.push(item);
                            assert(self@.attributes =~= old(self)@.attributes.push(item@));
                            true
                        },
                        Err(_) => false,
                    }
                } else {
                    true
                }
            },
        }
    }

    /// Decodes a message body. Members whose fields are missing are at their zero
    /// value, and fields of no member are passed over.
    pub fn from_bytes(bytes: &'a [u8]) -> (r: Result<Self, Error>)
        ensures
            match ResourceView::decode(bytes@) {
                Some(v) => r matches Ok(m) && m@ == v,
                None => r == Err::<Self, Error>(Error::InvalidProtobuf),
            },
    {
        reveal(ResourceView::decode);
        let mut msg = Self::default();
        let mut pos: usize = 0;
        let ghost merge = ResourceView::merge_fn();
        assert(bytes@.skip(0) =~= bytes@);
        while pos < bytes.len()
            invariant
                pos <= bytes@.len(),
                bytes@.len() == bytes.len(),
                merge == ResourceView::merge_fn(),
                decode_with(merge, msg@, bytes@.skip(pos as int)) == ResourceView::decode(bytes@),
            decreases bytes.len() - pos,
        {
            proof {
                lemma_decode_step(merge, msg@, bytes@.skip(pos as int));
            }
            match read_field(bytes, pos) {
                Some((field, next)) => {
                    if !msg.merge_field(field) {
                        return Err(Error::InvalidProtobuf);
                    }
                    assert(bytes@.skip(pos as int).skip(next - pos) =~= bytes@.skip(next as int));
                    pos = next;
                },
                None => {
                    return Err(Error::InvalidProtobuf);
                },
            }
        }
        proof {
            lemma_decode_empty(merge, msg@, bytes@.skip(pos as int));
        }
        Ok(msg)
    }

    /// Appends the body of the message to `out`: every member that is not at its zero
    /// value, in the order of the schema.
    pub fn write(&self, out: &mut Vec<u8>)
        ensures
            final(out)@ == old(out)@ + self@.wire(),
    {
        let ghost s0 = out@;
        let ghost f1 = KeyValueView::repeated(1, self@.attributes);
        let ghost f2 = varint_member(2, self@.dropped_attributes_count as u64);
        let ghost p2 = f1 + f2;
        write_repeated(out, 1, &self.attributes);
        assert(out@ == s0 + fields_bytes(f1)) by {
            assert(bodies_of(self.attributes@) =~= KeyValueView::bodies(self@.attributes));
        }
        let ghost s1 = out@;
        write_member_varint(out, 2, self.dropped_attributes_count as u64);
        assert(out@ == s0 + fields_bytes(p2)) by {
            lemma_written(s0, f1, f2, s1, out@);
        }
        proof {
            reveal(ResourceView::wire);
        }
    }

    /// The message with its length in front. The body of a message in memory is short
    /// enough for its length to be written.
    pub fn encode(&self) -> (r: Vec<u8>)
        ensures
            r@ == framed(self@.wire()),
            self@.wire().len() <= u64::MAX,
    {
        let body = self.to_bytes();
        assert(body@.len() == body.len());
        frame(body.as_slice())
    }

    /// Decodes the message that stands, its length in front, at the start of `bytes`.
    /// What follows the message is not read.
    pub fn decode(bytes: &'a [u8]) -> (r: Result<Self, Error>)
        ensures
            match parse_framed(bytes@) {
                Some(body) => match ResourceView::decode(body) {
                    Some(v) => r matches Ok(m) && m@ == v,
                    None => r == Err::<Self, Error>(Error::InvalidProtobuf),
                },
                None => r == Err::<Self, Error>(Error::InvalidProtobuf),
            },
    {
        match unframe(bytes) {
            Some(body) => Self::from_bytes(body),
            None => Err(Error::InvalidProtobuf),
        }
    }
}

impl<'a> Message for Resource<'a> {
    open spec fn wire_of(v: ResourceView) -> Seq<u8> {
        v.wire()
    }

    fn to_bytes(&self) -> (r: Vec<u8>)
        ensures
            r@ == self@.wire(),
    {
        let mut out: Vec<u8> = Vec::new();
        self.write(&mut out);
        assert(out@ =~= self@.wire());
        out
    }
}

} // verus!
