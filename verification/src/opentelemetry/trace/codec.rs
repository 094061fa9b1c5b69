//! Reading and writing the messages of the trace family.

use crate::error::Error;
use crate::field::{
    Chunk, FieldRef, decode_with, fields_bytes, lemma_decode_empty, lemma_decode_step,
    lemma_written, read_field,
};
use crate::member::{
    fixed64_member, frame, framed, parse_framed, run_member, unframe, varint_member,
    write_member_fixed64, write_member_run, write_member_varint,
};
use crate::message::{Message, bodies_of, body_of, write_optional, write_repeated};
use crate::opentelemetry::common::types::{
    InstrumentationScope, InstrumentationScopeView, KeyValue, KeyValueView, Resource, ResourceView,
};
use crate::opentelemetry::trace::types::{
    ExportTraceServiceRequest, ExportTraceServiceRequestView, ResourceSpans, ResourceSpansView,
    ScopeSpans, ScopeSpansView, Span, SpanEvent, SpanEventView, SpanKind, SpanLink, SpanLinkView,
    SpanView, Status, StatusCode, StatusView,
};
use crate::text::{run_bytes, text_bytes, text_of};
use crate::wire::{low32_of, low32_signed_of};
use std::borrow::Cow;
use vstd::prelude::*;
use vstd::utf8::encode_utf8;

verus! {

impl<'a> Status<'a> {
    /// Merges one field that was read into the message. Returns whether the field was
    /// in order; if not, the message is left in no particular state.
    fn merge_field(&mut self, field: FieldRef<'a>) -> (ok: bool)
        ensures
            match StatusView::merge(old(self)@, field@) {
                Some(v) => ok && final(self)@ == v,
                None => !ok,
            },
    {
        match field.chunk {
            Chunk::Varint(x) => {
                if field.number == 3 {
                    self.code = StatusCode::from_number(low32_signed_of(x));
                    true
                } else {
                    true
                }
            },
            Chunk::Fixed64(_) => true,
            Chunk::Fixed32(_) => true,
            Chunk::Run(r) => {
                if field.number == 2 {
                    match text_of(r) {
                        Some(s) => {
                            self.message = s;
                            true
                        },
                        None => false,
                    }
                } else {
                    true
                }
            },
        }
    }

    /// Decodes a message body. Members whose fields are missing are at their zero
    /// value, and fields of no member are passed over.
    pub fn from_bytes(bytes: &'a [u8]) -> (r: Result<Self, Error>)
        ensures
            match StatusView::decode(bytes@) {
                Some(v) => r matches Ok(m) && m@ == v,
                None => r == Err::<Self, Error>(Error::InvalidProtobuf),
            },
    {
        reveal(StatusView::decode);
        let mut msg = Self::default();
        let mut pos: usize = 0;
        let ghost merge = StatusView::merge_fn();
        assert(bytes@.skip(0) =~= bytes@);
        while pos < bytes.len()
            invariant
                pos <= bytes@.len(),
                bytes@.len() == bytes.len(),
                merge == StatusView::merge_fn(),
                decode_with(merge, msg@, bytes@.skip(pos as int)) == StatusView::decode(bytes@),
            decreases bytes.len() - pos,
        {
            proof {
                lemma_decode_step(merge, msg@, bytes@.skip(pos as int));
            }
            match read_field(bytes, pos) {
                Some((field, next)) => {
                    if !msg.merge_field(field) {
                        return Err(Error::InvalidProtobuf);
                    }
                    assert(bytes@.skip(pos as int).skip(next - pos) =~= bytes@.skip(next as int));
                    pos = next;
                },
                None => {
                    return Err(Error::InvalidProtobuf);
                },
            }
        }
        proof {
            lemma_decode_empty(merge, msg@, bytes@.skip(pos as int));
        }
        Ok(msg)
    }

    /// Appends the body of the message to `out`: every member that is not at its zero
    /// value, in the order of the schema.
    pub fn write(&self, out: &mut Vec<u8>)
        ensures
            final(out)@ == old(out)@ + self@.wire(),
    {
        let ghost s0 = out@;
        let ghost f1 = run_member(2, encode_utf8(self@.message));
        let ghost f2 = varint_member(3, self@.code.spec_number() as u64);
        let ghost p2 = f1 + f2;
        write_member_run(out, 2, text_bytes(&self.message));
        let ghost s1 = out@;
        write_member_varint(out, 3, self.code.number() as u64);
        assert(out@ == s0 + fields_bytes(p2)) by {
            lemma_written(s0, f1, f2, s1, out@);
        }
        proof {
            reveal(StatusView::wire);
        }
    }

    /// The message with its length in front. The body of a message in memory is short
    /// enough for its length to be written.
    pub fn encode(&self) -> (r: Vec<u8>)
        ensures
            r@ == framed(self@.wire()),
            self@.wire().len() <= u64::MAX,
    {
        let body = self.to_bytes();
        assert(body@.len() == body.len());
        frame(body.as_slice())
    }

    /// Decodes the message that stands, its length in front, at the start of `bytes`.
    /// What follows the message is not read.
    pub fn decode(bytes: &'a [u8]) -> (r: Result<Self, Error>)
        ensures
            match parse_framed(bytes@) {
                Some(body) => match StatusView::decode(body) {
                    Some(v) => r matches Ok(m) && m@ == v,
                    None => r == Err::<Self, Error>(Error::InvalidProtobuf),
                },
                None => r == Err::<Self, Error>(Error::InvalidProtobuf),
            },
    {
        match unframe(bytes) {
            Some(body) => Self::from_bytes(body),
            None => Err(Error::InvalidProtobuf),
        }
    }
}

impl<'a> Message for Status<'a> {
    open spec fn wire_of(v: StatusView) -> Seq<u8> {
        v.wire()
    }

    fn to_bytes(&self) -> (r: Vec<u8>)
        ensures
            r@ == self@.wire(),
    {
        let mut out: Vec<u8> = Vec::new();
        self.write(&mut out);
        assert(out@ =~= self@.wire());
        out
    }
}

impl<'a> SpanEvent<'a> {
    /// Merges one field that was read into the message. Returns whether the field was
    /// in order; if not, the message is left in no particular state.
    fn merge_field(&mut self, field: FieldRef<'a>) -> (ok: bool)
        ensures
            match SpanEventView::merge(old(self)@, field@) {
                Some(v) => ok && final(self)@ == v,
                None => !ok,
            },
    {
        match field.chunk {
            Chunk::Varint(x) => {
                if field.number == 4 {
                    self.dropped_attributes_count = low32_of(x);
                    true
                } else {
                    true
                }
            },
            Chunk::Fixed64(x) => {
                if field.number == 1 {
                    self.time_unix_nano = x;
                    true
                } else {
                    true
                }
            },
            Chunk::Fixed32(_) => true,
            Chunk::Run(r) => {
                if field.number == 2 {
                    match text_of(r) {
                        Some(s) => {
                            self.name = s;
                            true
                        },
                        None => false,
                    }
                } else if field.number == 3 {
                    match KeyValue::from_bytes(r) {
                        Ok(item) => {
                            self.attributes.push(item);
                            assert(self@.attributes =~= old(self)@.attributes.push(item@));
                            true
                        },
                        Err(_) => false,
                    }
                } else {
                    true
                }
            },
        }
    }

    /// Decodes a message body. Members whose fields are missing are at their zero
    /// value, and fields of no member are passed over.
    pub fn from_bytes(bytes: &'a [u8]) -> (r: Result<Self, Error>)
        ensures
            match SpanEventView::decode(bytes@) {
                Some(v) => r matches Ok(m) && m@ == v,
                None => r == Err::<Self, Error>(Error::InvalidProtobuf),
            },
    {
        reveal(SpanEventView::decode);
        let mut msg = Self::default();
        let mut pos: usize = 0;
        let ghost merge = SpanEventView::merge_fn();
        assert(bytes@.skip(0) =~= bytes@);
        while pos < bytes.len()
            invariant
                pos <= bytes@.len(),
                bytes@.len() == bytes.len(),
                merge == SpanEventView::merge_fn(),
                decode_with(merge, msg@, bytes@.skip(pos as int)) == SpanEventView::decode(bytes@),
            decreases bytes.len() - pos,
        {
            proof {
                lemma_decode_step(merge, msg@, bytes@.skip(pos as int));
            }
            match read_field(bytes, pos) {
                Some((field, next)) => {
                    if !msg.merge_field(field) {
                        return Err(Error::InvalidProtobuf);
                    }
                    assert(bytes@.skip(pos as int).skip(next - pos) =~= bytes@.skip(next as int));
                    pos = next;
                },
                None => {
                    return Err(Error::InvalidProtobuf);
                },
            }
        }
        proof {
            lemma_decode_empty(merge, msg@, bytes@.skip(pos as int));
        }
        Ok(msg)
    }

    /// Appends the body of the message to `out`: every member that is not at its zero
    /// value, in the order of the schema.
    pub fn write(&self, out: &mut Vec<u8>)
        ensures
            final(out)@ == old(out)@ + self@.wire(),
    {
        let ghost s0 = out@;
        let ghost f1 = fixed64_member(1, self@.time_unix_nano);
        let ghost f2 = run_member(2, encode_utf8(self@.name));
        let ghost f3 = KeyValueView::repeated(3, self@.attributes);
        let ghost f4 = varint_member(4, self@.dropped_attributes_count as u64);
        let ghost p2 = f1 + f2;
        let ghost p3 = p2 + f3;
        let ghost p4 = p3 + f4;
        write_member_fixed64(out, 1, self.time_unix_nano);
        let ghost s1 = out@;
        write_member_run(out, 2, text_bytes(&self.name));
        assert(out@ == s0 + fields_bytes(p2)) by {
            lemma_written(s0, f1, f2, s1, out@);
        }
        let ghost s2 = out@;
        write_repeated(out, 3, &self.attributes);
        assert(out@ == s0 + fields_bytes(p3)) by {
            assert(bodies_of(self.attributes@) =~= KeyValueView::bodies(self@.attributes));
            lemma_written(s0, p2, f3, s2, out@);
        }
        let ghost s3 = out@;
        write_member_varint(out, 4, self.dropped_attributes_count as u64);
        assert(out@ == s0 + fields_bytes(p4)) by {
            lemma_written(s0, p3, f4, s3, out@);
        }
        proof {
            reveal(SpanEventView::wire);
        }
    }

    /// The message with its length in front. The body of a message in memory is short
    /// enough for its length to be written.
    pub fn encode(&self) -> (r: Vec<u8>)
        ensures
            r@ == framed(self@.wire()),
            self@.wire().len() <= u64::MAX,
    {
        let body = self.to_bytes();
        assert(body@.len() == body.len());
        frame(body.as_slice())
    }

    /// Decodes the message that stands, its length in front, at the start of `bytes`.
    /// What follows the message is not read.
    pub fn decode(bytes: &'a [u8]) -> (r: Result<Self, Error>)
        ensures
            match parse_framed(bytes@) {
                Some(body) => match SpanEventView::decode(body) {
                    Some(v) => r matches Ok(m) && m@ == v,
                    None => r == Err::<Self, Error>(Error::InvalidProtobuf),
                },
                None => r == Err::<Self, Error>(Error::InvalidProtobuf),
            },
    {
        match unframe(bytes) {
            Some(body) => Self::from_bytes(body),
            None => Err(Error::InvalidProtobuf),
        }
    }
}

impl<'a> Message for SpanEvent<'a> {
    open spec fn wire_of(v: SpanEventView) -> Seq<u8> {
        v.wire()
    }

    fn to_bytes(&self) -> (r: Vec<u8>)
        ensures
            r@ == self@.wire(),
    {
        let mut out: Vec<u8> = Vec::new();
        self.write(&mut out);
        assert(out@ =~= self@.wire());
        out
    }
}

impl<'a> SpanLink<'a> {
    /// Merges one field that was read into the message. Returns whether the field was
    /// in order; if not, the message is left in no particular state.
    fn merge_field(&mut self, field: FieldRef<'a>) -> (ok: bool)
        ensures
            match SpanLinkView::merge(old(self)@, field@) {
                Some(v) => ok && final(self)@ == v,
                None => !ok,
            },
    {
        match field.chunk {
            Chunk::Varint(x) => {
                if field.number == 5 {
                    self.dropped_attributes_count = low32_of(x);
                    true
                } else {
                    true
                }
            },
            Chunk::Fixed64(_) => true,
            Chunk::Fixed32(_) => true,
            Chunk::Run(r) => {
                if field.number == 1 {
                    self.trace_id = Cow::Borrowed(r);
                    true
                } else if field.number == 2 {
                    self.span_id = Cow::Borrowed(r);
                    true
                } else if field.number == 3 {
                    match text_of(r) {
                        Some(s) => {
                            self.trace_state = s;
                            true
                        },
                        None => false,
                    }
                } else if field.number == 4 {
                    match KeyValue::from_bytes(r) {
                        Ok(item) => {
                            self.attributes.push(item);
                            assert(self@.attributes =~= old(self)@.attributes.push(item@));
                            true
                        },
                        Err(_) => false,
                    }
                } else {
                    true
                }
            },
        }
    }

    /// Decodes a message body. Members whose fields are missing are at their zero
    /// value, and fields of no member are passed over.
    pub fn from_bytes(bytes: &'a [u8]) -> (r: Result<Self, Error>)
        ensures
            match SpanLinkView::decode(bytes@) {
                Some(v) => r matches Ok(m) && m@ == v,
                None => r == Err::<Self, Error>(Error::InvalidProtobuf),
            },
    {
        reveal(SpanLinkView::decode);
        let mut msg = Self::default();
        let mut pos: usize = 0;
        let ghost merge = SpanLinkView::merge_fn();
        assert(bytes@.skip(0) =~= bytes@);
        while pos < bytes.len()
            invariant
                pos <= bytes@.len(),
                bytes@.len() == bytes.len(),
                merge == SpanLinkView::merge_fn(),
                decode_with(merge, msg@, bytes@.skip(pos as int)) == SpanLinkView::decode(bytes@),
            decreases bytes.len() - pos,
        {
            proof {
                lemma_decode_step(merge, msg@, bytes@.skip(pos as int));
            }
            match read_field(bytes, pos) {
                Some((field, next)) => {
                    if !msg.merge_field(field) {
                        return Err(Error::InvalidProtobuf);
                    }
                    assert(bytes@.skip(pos as int).skip(next - pos) =~= bytes@.skip(next as int));
                    pos = next;
                },
                None => {
                    return Err(Error::InvalidProtobuf);
                },
            }
        }
        proof {
            lemma_decode_empty(merge, msg@, bytes@.skip(pos as int));
        }
        Ok(msg)
    }

    /// Appends the body of the message to `out`: every member that is not at its zero
    /// value, in the order of the schema.
    pub fn write(&self, out: &mut Vec<u8>)
        ensures
            final(out)@ == old(out)@ + self@.wire(),
    {
        let ghost s0 = out@;
        let ghost f1 = run_member(1, self@.trace_id);
        let ghost f2 = run_member(2, self@.span_id);
        let ghost f3 = run_member(3, encode_utf8(self@.trace_state));
        let ghost f4 = KeyValueView::repeated(4, self@.attributes);
        let ghost f5 = varint_member(5, self@.dropped_attributes_count as u64);
        let ghost p2 = f1 + f2;
        let ghost p3 = p2 + f3;
        let ghost p4 = p3 + f4;
        let ghost p5 = p4 + f5;
        write_member_run(out, 1, run_bytes(&self.trace_id));
        let ghost s1 = out@;
        write_member_run(out, 2, run_bytes(&self.span_id));
        assert(out@ == s0 + fields_bytes(p2)) by {
            lemma_written(s0, f1, f2, s1, out@);
        }
        let ghost s2 = out@;
        write_member_run(out, 3, text_bytes(&self.trace_state));
        assert(out@ == s0 + fields_bytes(p3)) by {
            lemma_written(s0, p2, f3, s2, out@);
        }
        let ghost s3 = out@;
        write_repeated(out, 4, &self.attributes);
        assert(out@ == s0 + fields_bytes(p4)) by {
            assert(bodies_of(self.attributes@) =~= KeyValueView::bodies(self@.attributes));
            lemma_written(s0, p3, f4, s3, out@);
        }
        let ghost s4 = out@;
        write_member_varint(out, 5, self.dropped_attributes_count as u64);
        assert(out@ == s0 + fields_bytes(p5)) by {
            lemma_written(s0, p4, f5, s4, out@);
        }
        proof {
            reveal(SpanLinkView::wire);
        }
    }

    /// The message with its length in front. The body of a message in memory is short
    /// enough for its length to be written.
    pub fn encode(&self) -> (r: Vec<u8>)
        ensures
            r@ == framed(self@.wire()),
            self@.wire().len() <= u64::MAX,
    {
        let body = self.to_bytes();
        assert(body@.len() == body.len());
        frame(body.as_slice())
    }

    /// Decodes the message that stands, its length in front, at the start of `bytes`.
    /// What follows the message is not read.
    pub fn decode(bytes: &'a [u8]) -> (r: Result<Self, Error>)
        ensures
            match parse_framed(bytes@) {
                Some(body) => match SpanLinkView::decode(body) {
                    Some(v) => r matches Ok(m) && m@ == v,
                    None => r == Err::<Self, Error>(Error::InvalidProtobuf),
                },
                None => r == Err::<Self, Error>(Error::InvalidProtobuf),
            },
    {
        match unframe(bytes) {
            Some(body) => Self::from_bytes(body),
            None => Err(Error::InvalidProtobuf),
        }
    }
}

impl<'a> Message for SpanLink<'a> {
    open spec fn wire_of(v: SpanLinkView) -> Seq<u8> {
        v.wire()
    }

    fn to_bytes(&self) -> (r: Vec<u8>)
        ensures
            r@ == self@.wire(),
    {
        let mut out: Vec<u8> = Vec::new();
        self.write(&mut out);
        assert(out@ =~= self@.wire());
        out
    }
}

impl<'a> Span<'a> {
    /// Merges one field that was read into the message. Returns whether the field was
    /// in order; if not, the message is left in no particular state.
    fn merge_field(&mut self, field: FieldRef<'a>) -> (ok: bool)
        ensures
            match SpanView::merge(old(self)@, field@) {
                Some(v) => ok && final(self)@ == v,
                None => !ok,
            },
    {
        match field.chunk {
            Chunk::Varint(x) => {
                if field.number == 6 {
                    self.kind = SpanKind::from_number(low32_signed_of(x));
                    true
                } else if field.number == 10 {
                    self.dropped_attributes_count = low32_of(x);
                    true
                } else if field.number == 12 {
                    self.dropped_events_count = low32_of(x);
                    true
                } else if field.number == 14 {
                    self.dropped_links_count = low32_of(x);
                    true
                } else {
                    true
                }
            },
            Chunk::Fixed64(x) => {
                if field.number == 7 {
                    self.start_time_unix_nano = x;
                    true
                } else if field.number == 8 {
                    self.end_time_unix_nano = x;
                    true
                } else {
                    true
                }
            },
            Chunk::Fixed32(_) => true,
            Chunk::Run(r) => {
                if field.number == 1 {
                    self.trace_id = Cow::Borrowed(r);
                    true
                } else if field.number == 2 {
                    self.span_id = Cow::Borrowed(r);
                    true
                } else if field.number == 3 {
                    match text_of(r) {
                        Some(s) => {
                            self.trace_state = s;
                            true
                        },
                        None => false,
                    }
                } else if field.number == 4 {
                    self.parent_span_id = Cow::Borrowed(r);
                    true
                } else if field.number == 5 {
                    match text_of(r) {
                        Some(s) => {
                            self.name = s;
                            true
                        },
                        None => false,
                    }
                } else if field.number == 9 {
                    match KeyValue::from_bytes(r) {
                        Ok(item) => {
                            self.attributes.push(item);
                            assert(self@.attributes =~= old(self)@.attributes.push(item@));
                            true
                        },
                        Err(_) => false,
                    }
                } else if field.number == 11 {
                    match SpanEvent::from_bytes(r) {
                        Ok(item) => {
                            self.events.push(item);
                            assert(self@.events =~= old(self)@.events.push(item@));
                            true
                        },
                        Err(_) => false,
                    }
                } else if field.number == 13 {
                    match SpanLink::from_bytes(r) {
                        Ok(item) => {
                            self.links.push(item);
                            assert(self@.links =~= old(self)@.links.push(item@));
                            true
                        },
                        Err(_) => false,
                    }
                } else if field.number == 15 {
                    match Status::from_bytes(r) {
                        Ok(item) => {
                            self.status = Some(item);
                            true
                        },
                        Err(_) => false,
                    }
                } else {
                    true
                }
            },
        }
    }

    /// Decodes a message body. Members whose fields are missing are at their zero
    /// value, and fields of no member are passed over.
    pub fn from_bytes(bytes: &'a [u8]) -> (r: Result<Self, Error>)
        ensures
            match SpanView::decode(bytes@) {
                Some(v) => r matches Ok(m) && m@ == v,
                None => r == Err::<Self, Error>(Error::InvalidProtobuf),
            },
    {
        reveal(SpanView::decode);
        let mut msg = Self::default();
        let mut pos: usize = 0;
        let ghost merge = SpanView::merge_fn();
        assert(bytes@.skip(0) =~= bytes@);
        while pos < bytes.len()
            invariant
                pos <= bytes@.len(),
                bytes@.len() == bytes.len(),
                merge == SpanView::merge_fn(),
                decode_with(merge, msg@, bytes@.skip(pos as int)) == SpanView::decode(bytes@),
            decreases bytes.len() - pos,
        {
            proof {
                lemma_decode_step(merge, msg@, bytes@.skip(pos as int));
            }
            match read_field(bytes, pos) {
                Some((field, next)) => {
                    if !msg.merge_field(field) {
                        return Err(Error::InvalidProtobuf);
                    }
                    assert(bytes@.skip(pos as int).skip(next - pos) =~= bytes@.skip(next as int));
                    pos = next;
                },
                None => {
                    return Err(Error::InvalidProtobuf);
                },
            }
        }
        proof {
            lemma_decode_empty(merge, msg@, bytes@.skip(pos as int));
        }
        Ok(msg)
    }

    /// Appends the body of the message to `out`: every member that is not at its zero
    /// value, in the order of the schema.
    pub fn write(&self, out: &mut Vec<u8>)
        ensures
            final(out)@ == old(out)@ + self@.wire(),
    {
        let ghost s0 = out@;
        let ghost f1 = run_member(1, self@.trace_id);
        let ghost f2 = run_member(2, self@.span_id);
        let ghost f3 = run_member(3, encode_utf8(self@.trace_state));
        let ghost f4 = run_member(4, self@.parent_span_id);
        let ghost f5 = run_member(5, encode_utf8(self@.name));
        let ghost f6 = varint_member(6, self@.kind.spec_number() as u64);
        let ghost f7 = fixed64_member(7, self@.start_time_unix_nano);
        let ghost f8 = fixed64_member(8, self@.end_time_unix_nano);
        let ghost f9 = KeyValueView::repeated(9, self@.attributes);
        let ghost f10 = varint_member(10, self@.dropped_attributes_count as u64);
        let ghost f11 = SpanEventView::repeated(11, self@.events);
        let ghost f12 = varint_member(12, self@.dropped_events_count as u64);
        let ghost f13 = SpanLinkView::repeated(13, self@.links);
        let ghost f14 = varint_member(14, self@.dropped_links_count as u64);
        let ghost f15 = StatusView::optional(15, self@.status);
        let ghost p2 = f1 + f2;
        let ghost p3 = p2 + f3;
        let ghost p4 = p3 + f4;
        let ghost p5 = p4 + f5;
        let ghost p6 = p5 + f6;
        let ghost p7 = p6 + f7;
        let ghost p8 = p7 + f8;
        let ghost p9 = p8 + f9;
        let ghost p10 = p9 + f10;
        let ghost p11 = p10 + f11;
        let ghost p12 = p11 + f12;
        let ghost p13 = p12 + f13;
        let ghost p14 = p13 + f14;
        let ghost p15 = p14 + f15;
        write_member_run(out, 1, run_bytes(&self.trace_id));
        let ghost s1 = out@;
        write_member_run(out, 2, run_bytes(&self.span_id));
        assert(out@ == s0 + fields_bytes(p2)) by {
            lemma_written(s0, f1, f2, s1, out@);
        }
        let ghost s2 = out@;
        write_member_run(out, 3, text_bytes(&self.trace_state));
        assert(out@ == s0 + fields_bytes(p3)) by {
            lemma_written(s0, p2, f3, s2, out@);
        }
        let ghost s3 = out@;
        write_member_run(out, 4, run_bytes(&self.parent_span_id));
        assert(out@ == s0 + fields_bytes(p4)) by {
            lemma_written(s0, p3, f4, s3, out@);
        }
        let ghost s4 = out@;
        write_member_run(out, 5, text_bytes(&self.name));
        assert(out@ == s0 + fields_bytes(p5)) by {
            lemma_written(s0, p4, f5, s4, out@);
        }
        let ghost s5 = out@;
        write_member_varint(out, 6, self.kind.number() as u64);
        assert(out@ == s0 + fields_bytes(p6)) by {
            lemma_written(s0, p5, f6, s5, out@);
        }
        let ghost s6 = out@;
        write_member_fixed64(out, 7, self.start_time_unix_nano);
        assert(out@ == s0 + fields_bytes(p7)) by {
            lemma_written(s0, p6, f7, s6, out@);
        }
        let ghost s7 = out@;
        write_member_fixed64(out, 8, self.end_time_unix_nano);
        assert(out@ == s0 + fields_bytes(p8)) by {
            lemma_written(s0, p7, f8, s7, out@);
        }
        let ghost s8 = out@;
        write_repeated(out, 9, &self.attributes);
        assert(out@ == s0 + fields_bytes(p9)) by {
            assert(bodies_of(self.attributes@) =~= KeyValueView::bodies(self@.attributes));
            lemma_written(s0, p8, f9, s8, out@);
        }
        let ghost s9 = out@;
        write_member_varint(out, 10, self.dropped_attributes_count as u64);
        assert(out@ == s0 + fields_bytes(p10)) by {
            lemma_written(s0, p9, f10, s9, out@);
        }
        let ghost s10 = out@;
        write_repeated(out, 11, &self.events);
        assert(out@ == s0 + fields_bytes(p11)) by {
            assert(bodies_of(self.events@) =~= SpanEventView::bodies(self@.events));
            lemma_written(s0, p10, f11, s10, out@);
        }
        let ghost s11 = out@;
        write_member_varint(out, 12, self.dropped_events_count as u64);
        assert(out@ == s0 + fields_bytes(p12)) by {
            lemma_written(s0, p11, f12, s11, out@);
        }
        let ghost s12 = out@;
        write_repeated(out, 13, &self.links);
        assert(out@ == s0 + fields_bytes(p13)) by {
            assert(bodies_of(self.links@) =~= SpanLinkView::bodies(self@.links));
            lemma_written(s0, p12, f13, s12, out@);
        }
        let ghost s13 = out@;
        write_member_varint(out, 14, self.dropped_links_count as u64);
        assert(out@ == s0 + fields_bytes(p14)) by {
            lemma_written(s0, p13, f14, s13, out@);
        }
        let ghost s14 = out@;
        write_optional(out, 15, &self.status);
        assert(out@ == s0 + fields_bytes(p15)) by {
            assert(body_of(self.status) == match self@.status {
                Some(x) => Some(x.wire()),
                None => None,
            });
            lemma_written(s0, p14, f15, s14, out@);
        }
        proof {
            reveal(SpanView::wire);
        }
    }

    /// The message with its length in front. The body of a message in memory is short
    /// enough for its length to be written.
    pub fn encode(&self) -> (r: Vec<u8>)
        ensures
            r@ == framed(self@.wire()),
            self@.wire().len() <= u64::MAX,
    {
        let body = self.to_bytes();
        assert(body@.len() == body.len());
        frame(body.as_slice())
    }

    /// Decodes the message that stands, its length in front, at the start of `bytes`.
    /// What follows the message is not read.
    pub fn decode(bytes: &'a [u8]) -> (r: Result<Self, Error>)
        ensures
            match parse_framed(bytes@) {
                Some(body) => match SpanView::decode(body) {
                    Some(v) => r matches Ok(m) && m@ == v,
                    None => r == Err::<Self, Error>(Error::InvalidProtobuf),
                },
                None => r == Err::<Self, Error>(Error::InvalidProtobuf),
            },
    {
        match unframe(bytes) {
            Some(body) => Self::from_bytes(body),
            None => Err(Error::InvalidProtobuf),
        }
    }
}

impl<'a> Message for Span<'a> {
    open spec fn wire_of(v: SpanView) -> Seq<u8> {
        v.wire()
    }

    fn to_bytes(&self) -> (r: Vec<u8>)
        ensures
            r@ == self@.wire(),
    {
        let mut out: Vec<u8> = Vec::new();
        self.write(&mut out);
        assert(out@ =~= self@.wire());
        out
    }
}

impl<'a> ScopeSpans<'a> {
    /// Merges one field that was read into the message. Returns whether the field was
    /// in order; if not, the message is left in no particular state.
    fn merge_field(&mut self, field: FieldRef<'a>) -> (ok: bool)
        ensures
            match ScopeSpansView::merge(old(self)@, field@) {
                Some(v) => ok && final(self)@ == v,
                None => !ok,
            },
    {
        match field.chunk {
            Chunk::Varint(_) => true,
            Chunk::Fixed64(_) => true,
            Chunk::Fixed32(_) => true,
            Chunk::Run(r) => {
                if field.number == 1 {
                    match InstrumentationScope::from_bytes(r) {
                        Ok(item) => {
                            self.scope = Some(item);
                            true
                        },
                        Err(_) => false,
                    }
                } else if field.number == 2 {
                    match Span::from_bytes(r) {
                        Ok(item) => {
                            self.spans.push(item);
                            assert(self@.spans =~= old(self)@.spans.push(item@));
                            true
                        },
                        Err(_) => false,
                    }
                } else if field.number == 3 {
                    match text_of(r) {
                        Some(s) => {
                            self.schema_url = s;
                            true
                        },
                        None => false,
                    }
                } else {
                    true
                }
            },
        }
    }

    /// Decodes a message body. Members whose fields are missing are at their zero
    /// value, and fields of no member are passed over.
    pub fn from_bytes(bytes: &'a [u8]) -> (r: Result<Self, Error>)
        ensures
            match ScopeSpansView::decode(bytes@) {
                Some(v) => r matches Ok(m) && m@ == v,
                None => r == Err::<Self, Error>(Error::InvalidProtobuf),
            },
    {
        reveal(ScopeSpansView::decode);
        let mut msg = Self::default();
        let mut pos: usize = 0;
        let ghost merge = ScopeSpansView::merge_fn();
        assert(bytes@.skip(0) =~= bytes@);
        while pos < bytes.len()
            invariant
                pos <= bytes@.len(),
                bytes@.len() == bytes.len(),
                merge == ScopeSpansView::merge_fn(),
                decode_with(merge, msg@, bytes@.skip(pos as int)) == ScopeSpansView::decode(bytes@),
            decreases bytes.len() - pos,
        {
            proof {
                lemma_decode_step(merge, msg@, bytes@.skip(pos as int));
            }
            match read_field(bytes, pos) {
                Some((field, next)) => {
                    if !msg.merge_field(field) {
                        return Err(Error::InvalidProtobuf);
                    }
                    assert(bytes@.skip(pos as int).skip(next - pos) =~= bytes@.skip(next as int));
                    pos = next;
                },
                None => {
                    return Err(Error::InvalidProtobuf);
                },
            }
        }
        proof {
            lemma_decode_empty(merge, msg@, bytes@.skip(pos as int));
        }
        Ok(msg)
    }

    /// Appends the body of the message to `out`: every member that is not at its zero
    /// value, in the order of the schema.
    pub fn write(&self, out: &mut Vec<u8>)
        ensures
            final(out)@ == old(out)@ + self@.wire(),
    {
        let ghost s0 = out@;
        let ghost f1 = InstrumentationScopeView::optional(1, self@.scope);
        let ghost f2 = SpanView::repeated(2, self@.spans);
        let ghost f3 = run_member(3, encode_utf8(self@.schema_url));
        let ghost p2 = f1 + f2;
        let ghost p3 = p2 + f3;
        write_optional(out, 1, &self.scope);
        assert(out@ == s0 + fields_bytes(f1)) by {
            assert(body_of(self.scope) == match self@.scope {
                Some(x) => Some(x.wire()),
                None => None,
            });
        }
        let ghost s1 = out@;
        write_repeated(out, 2, &self.spans);
        assert(out@ == s0 + fields_bytes(p2)) by {
            assert(bodies_of(self.spans@) =~= SpanView::bodies(self@.spans));
            lemma_written(s0, f1, f2, s1, out@);
        }
        let ghost s2 = out@;
        write_member_run(out, 3, text_bytes(&self.schema_url));
        assert(out@ == s0 + fields_bytes(p3)) by {
            lemma_written(s0, p2, f3, s2, out@);
        }
        proof {
            reveal(ScopeSpansView::wire);
        }
    }

    /// The message with its length in front. The body of a message in memory is short
    /// enough for its length to be written.
    pub fn encode(&self) -> (r: Vec<u8>)
        ensures
            r@ == framed(self@.wire()),
            self@.wire().len() <= u64::MAX,
    {
        let body = self.to_bytes();
        assert(body@.len() == body.len());
        frame(body.as_slice())
    }

    /// Decodes the message that stands, its length in front, at the start of `bytes`.
    /// What follows the message is not read.
    pub fn decode(bytes: &'a [u8]) -> (r: Result<Self, Error>)
        ensures
            match parse_framed(bytes@) {
                Some(body) => match ScopeSpansView::decode(body) {
                    Some(v) => r matches Ok(m) && m@ == v,
                    None => r == Err::<Self, Error>(Error::InvalidProtobuf),
                },
                None => r == Err::<Self, Error>(Error::InvalidProtobuf),
            },
    {
        match unframe(bytes) {
            Some(body) => Self::from_bytes(body),
            None => Err(Error::InvalidProtobuf),
        }
    }
}

impl<'a> Message for ScopeSpans<'a> {
    open spec fn wire_of(v: ScopeSpansView) -> Seq<u8> {
        v.wire()
    }

    fn to_bytes(&self) -> (r: Vec<u8>)
        ensures
            r@ == self@.wire(),
    {
        let mut out: Vec<u8> = Vec::new();
        self.write(&mut out);
        assert(out@ =~= self@.wire());
        out
    }
}

impl<'a> ResourceSpans<'a> {
    /// Merges one field that was read into the message. Returns whether the field was
    /// in order; if not, the message is left in no particular state.
    fn merge_field(&mut self, field: FieldRef<'a>) -> (ok: bool)
        ensures
            match ResourceSpansView::merge(old(self)@, field@) {
                Some(v) => ok && final(self)@ == v,
                None => !ok,
            },
    {
        match field.chunk {
            Chunk::Varint(_) => true,
            Chunk::Fixed64(_) => true,
            Chunk::Fixed32(_) => true,
            Chunk::Run(r) => {
                if field.number == 1 {
                    match Resource::from_bytes(r) {
                        Ok(item) => {
                            self.resource = Some(item);
                            true
                        },
                        Err(_) => false,
                    }
                } else if field.number == 2 {
                    match ScopeSpans::from_bytes(r) {
                        Ok(item) => {
                            self.scope_spans.push(item);
                            assert(self@.scope_spans =~= old(self)@.scope_spans.push(item@));
                            true
                        },
                        Err(_) => false,
                    }
                } else if field.number == 3 {
                    match text_of(r) {
                        Some(s) => {
                            self.schema_url = s;
                            true
                        },
                        None => false,
                    }
                } else {
                    true
                }
            },
        }
    }

    /// Decodes a message body. Members whose fields are missing are at their zero
    /// value, and fields of no member are passed over.
    pub fn from_bytes(bytes: &'a [u8]) -> (r: Result<Self, Error>)
        ensures
            match ResourceSpansView::decode(bytes@) {
                Some(v) => r matches Ok(m) && m@ == v,
                None => r == Err::<Self, Error>(Error::InvalidProtobuf),
            },
    {
        reveal(ResourceSpansView::decode);
        let mut msg = Self::default();
        let mut pos: usize = 0;
        let ghost merge = ResourceSpansView::merge_fn();
        assert(bytes@.skip(0) =~= bytes@);
        while pos < bytes.len()
            invariant
                pos <= bytes@.len(),
                bytes@.len() == bytes.len(),
                merge == ResourceSpansView::merge_fn(),
                decode_with(merge, msg@, bytes@.skip(pos as int)) == ResourceSpansView::decode(
                    bytes@,
                ),
            decreases bytes.len() - pos,
        {
            proof {
                lemma_decode_step(merge, msg@, bytes@.skip(pos as int));
            }
            match read_field(bytes, pos) {
                Some((field, next)) => {
                    if !msg.merge_field(field) {
                        return Err(Error::InvalidProtobuf);
                    }
                    assert(bytes@.skip(pos as int).skip(next - pos) =~= bytes@.skip(next as int));
                    pos = next;
                },
                None => {
                    return Err(Error::InvalidProtobuf);
                },
            }
        }
        proof {
            lemma_decode_empty(merge, msg@, bytes@.skip(pos as int));
        }
        Ok(msg)
    }

    /// Appends the body of the message to `out`: every member that is not at its zero
    /// value, in the order of the schema.
    pub fn write(&self, out: &mut Vec<u8>)
        ensures
            final(out)@ == old(out)@ + self@.wire(),
    {
        let ghost s0 = out@;
        let ghost f1 = ResourceView::optional(1, self@.resource);
        let ghost f2 = ScopeSpansView::repeated(2, self@.scope_spans);
        let ghost f3 = run_member(3, encode_utf8(self@.schema_url));
        let ghost p2 = f1 + f2;
        let ghost p3 = p2 + f3;
        write_optional(out, 1, &self.resource);
        assert(out@ == s0 + fields_bytes(f1)) by {
            assert(body_of(self.resource) == match self@.resource {
                Some(x) => Some(x.wire()),
                None => None,
            });
        }
        let ghost s1 = out@;
        write_repeated(out, 2, &self.scope_spans);
        assert(out@ == s0 + fields_bytes(p2)) by {
            assert(bodies_of(self.scope_spans@) =~= ScopeSpansView::bodies(self@.scope_spans));
            lemma_written(s0, f1, f2, s1, out@);
        }
        let ghost s2 = out@;
        write_member_run(out, 3, text_bytes(&self.schema_url));
        assert(out@ == s0 + fields_bytes(p3)) by {
            lemma_written(s0, p2, f3, s2, out@);
        }
        proof {
            reveal(ResourceSpansView::wire);
        }
    }

    /// The message with its length in front. The body of a message in memory is short
    /// enough for its length to be written.
    pub fn encode(&self) -> (r: Vec<u8>)
        ensures
            r@ == framed(self@.wire()),
            self@.wire().len() <= u64::MAX,
    {
        let body = self.to_bytes();
        assert(body@.len() == body.len());
        frame(body.as_slice())
    }

    /// Decodes the message that stands, its length in front, at the start of `bytes`.
    /// What follows the message is not read.
    pub fn decode(bytes: &'a [u8]) -> (r: Result<Self, Error>)
        ensures
            match parse_framed(bytes@) {
                Some(body) => match ResourceSpansView::decode(body) {
                    Some(v) => r matches Ok(m) && m@ == v,
                    None => r == Err::<Self, Error>(Error::InvalidProtobuf),
                },
                None => r == Err::<Self, Error>(Error::InvalidProtobuf),
            },
    {
        match unframe(bytes) {
            Some(body) => Self::from_bytes(body),
            None => Err(Error::InvalidProtobuf),
        }
    }
}

impl<'a> Message for ResourceSpans<'a> {
    open spec fn wire_of(v: ResourceSpansView) -> Seq<u8> {
        v.wire()
    }

    fn to_bytes(&self) -> (r: Vec<u8>)
        ensures
            r@ == self@.wire(),
    {
        let mut out: Vec<u8> = Vec::new();
        self.write(&mut out);
        assert(out@ =~= self@.wire());
        out
    }
}

impl<'a> ExportTraceServiceRequest<'a> {
    /// Merges one field that was read into the message. Returns whether the field was
    /// in order; if not, the message is left in no particular state.
    fn merge_field(&mut self, field: FieldRef<'a>) -> (ok: bool)
        ensures
            match ExportTraceServiceRequestView::merge(old(self)@, field@) {
                Some(v) => ok && final(self)@ == v,
                None => !ok,
            },
    {
        match field.chunk {
            Chunk::Varint(_) => true,
            Chunk::Fixed64(_) => true,
            Chunk::Fixed32(_) => true,
            Chunk::Run(r) => {
                if field.number == 1 {
                    match ResourceSpans::from_bytes(r) {
                        Ok(item) => {
                            self.resource_spans.push(item);
                            assert(self@.resource_spans =~= old(self)@.resource_spans.push(item@));
                            true
                        },
                        Err(_) => false,
                    }
                } else {
                    true
                }
            },
        }
    }

    /// Decodes a message body. Members whose fields are missing are at their zero
    /// value, and fields of no member are passed over.
    pub fn from_bytes(bytes: &'a [u8]) -> (r: Result<Self, Error>)
        ensures
            match ExportTraceServiceRequestView::decode(bytes@) {
                Some(v) => r matches Ok(m) && m@ == v,
                None => r == Err::<Self, Error>(Error::InvalidProtobuf),
            },
    {
        reveal(ExportTraceServiceRequestView::decode);
        let mut msg = Self::default();
        let mut pos: usize = 0;
        let ghost merge = ExportTraceServiceRequestView::merge_fn();
        assert(bytes@.skip(0) =~= bytes@);
        while pos < bytes.len()
            invariant
                pos <= bytes@.len(),
                bytes@.len() == bytes.len(),
                merge == ExportTraceServiceRequestView::merge_fn(),
                decode_with(merge, msg@, bytes@.skip(pos as int))
                    == ExportTraceServiceRequestView::decode(bytes@),
            decreases bytes.len() - pos,
        {
            proof {
                lemma_decode_step(merge, msg@, bytes@.skip(pos as int));
            }
            match read_field(bytes, pos) {
                Some((field, next)) => {
                    if !msg.merge_field(field) {
                        return Err(Error::InvalidProtobuf);
                    }
                    assert(bytes@.skip(pos as int).skip(next - pos) =~= bytes@.skip(next as int));
                    pos = next;
                },
                None => {
                    return Err(Error::InvalidProtobuf);
                },
            }
        }
        proof {
            lemma_decode_empty(merge, msg@, bytes@.skip(pos as int));
        }
        Ok(msg)
    }

    /// Appends the body of the message to `out`: every member that is not at its zero
    /// value, in the order of the schema.
    pub fn write(&self, out: &mut Vec<u8>)
        ensures
            final(out)@ == old(out)@ + self@.wire(),
    {
        let ghost s0 = out@;
        let ghost f1 = ResourceSpansView::repeated(1, self@.resource_spans);
        write_repeated(out, 1, &self.resource_spans);
        assert(out@ == s0 + fields_bytes(f1)) by {
            assert(
                bodies_of(self.resource_spans@) =~= ResourceSpansView::bodies(self@.resource_spans)
            );
        }
        proof {
            reveal(ExportTraceServiceRequestView::wire);
        }
    }

    /// The message with its length in front. The body of a message in memory is short
    /// enough for its length to be written.
    pub fn encode(&self) -> (r: Vec<u8>)
        ensures
            r@ == framed(self@.wire()),
            self@.wire().len() <= u64::MAX,
    {
        let body = self.to_bytes();
        assert(body@.len() == body.len());
        frame(body.as_slice())
    }

    /// Decodes the message that stands, its length in front, at the start of `bytes`.
    /// What follows the message is not read.
    pub fn decode(bytes: &'a [u8]) -> (r: Result<Self, Error>)
        ensures
            match parse_framed(bytes@) {
                Some(body) => match ExportTraceServiceRequestView::decode(body) {
                    Some(v) => r matches Ok(m) && m@ == v,
                    None => r == Err::<Self, Error>(Error::InvalidProtobuf),
                },
                None => r == Err::<Self, Error>(Error::InvalidProtobuf),
            },
    {
        match unframe(bytes) {
            Some(body) => Self::from_bytes(body),
            None => Err(Error::InvalidProtobuf),
        }
    }
}

impl<'a> Message for ExportTraceServiceRequest<'a> {
    open spec fn wire_of(v: ExportTraceServiceRequestView) -> Seq<u8> {
        v.wire()
    }

    fn to_bytes(&self) -> (r: Vec<u8>)
        ensures
            r@ == self@.wire(),
    {
        let mut out: Vec<u8> = Vec::new();
        self.write(&mut out);
        assert(out@ =~= self@.wire());
        out
    }
}

} // verus!
