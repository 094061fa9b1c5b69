//! Reading and writing the messages of the logs family.

use crate::error::Error;
use crate::field::{
    Chunk, FieldRef, decode_with, fields_bytes, lemma_decode_empty, lemma_decode_step,
    lemma_written, read_field,
};
use crate::member::{
    fixed32_member, fixed64_member, frame, framed, parse_framed, run_member, unframe, varint_member,
    write_member_fixed32, write_member_fixed64, write_member_run, write_member_varint,
};
use crate::message::{Message, bodies_of, body_of, write_optional, write_repeated};
use crate::opentelemetry::common::types::{
    AnyValue, AnyValueView, InstrumentationScope, InstrumentationScopeView, KeyValue, KeyValueView,
    Resource, ResourceView,
};
use crate::opentelemetry::logs::types::{
    ExportLogsServiceRequest, ExportLogsServiceRequestView, LogRecord, LogRecordView, ResourceLogs,
    ResourceLogsView, ScopeLogs, ScopeLogsView, SeverityNumber,
};
use crate::text::{run_bytes, text_bytes, text_of};
use crate::wire::{low32_of, low32_signed_of};
use std::borrow::Cow;
use vstd::prelude::*;
use vstd::utf8::encode_utf8;

verus! {

impl<'a> LogRecord<'a> {
    /// Merges one field that was read into the message. Returns whether the field was
    /// in order; if not, the message is left in no particular state.
    fn merge_field(&mut self, field: FieldRef<'a>) -> (ok: bool)
        ensures
            match LogRecordView::merge(old(self)@, field@) {
                Some(v) => ok && final(self)@ == v,
                None => !ok,
            },
    {
        match field.chunk {
            Chunk::Varint(x) => {
                if field.number == 2 {
                    self.severity_number = SeverityNumber::from_number(low32_signed_of(x));
                    true
                } else if field.number == 7 {
                    self.dropped_attributes_count = low32_of(x);
                    true
                } else {
                    true
                }
            },
            Chunk::Fixed64(x) => {
                if field.number == 1 {
                    self.time_unix_nano = x;
                    true
                } else if field.number == 11 {
                    self.observed_time_unix_nano = x;
                    true
                } else {
                    true
                }
            },
            Chunk::Fixed32(x) => {
                if field.number == 8 {
                    self.flags = x;
                    true
                } else {
                    true
                }
            },
            Chunk::Run(r) => {
                if field.number == 3 {
                    match text_of(r) {
                        Some(s) => {
                            self.severity_text = s;
                            true
                        },
                        None => false,
                    }
                } else if field.number == 5 {
                    match AnyValue::from_bytes(r) {
                        Ok(item) => {
                            self.body = Some(item);
                            true
                        },
                        Err(_) => false,
                    }
                } else if field.number == 6 {
                    match KeyValue::from_bytes(r) {
                        Ok(item) => {
                            self.attributes.push(item);
                            assert(self@.attributes =~= old(self)@.attributes.push(item@));
                            true
                        },
                        Err(_) => false,
                    }
                } else if field.number == 9 {
                    self.trace_id = Cow::Borrowed(r);
                    true
                } else if field.number == 10 {
                    self.span_id = Cow::Borrowed(r);
                    true
                } else {
                    true
                }
            },
        }
    }

    /// Decodes a message body. Members whose fields are missing are at their zero
    /// value, and fields of no member are passed over.
    pub fn from_bytes(bytes: &'a [u8]) -> (r: Result<Self, Error>)
        ensures
            match LogRecordView::decode(bytes@) {
                Some(v) => r matches Ok(m) && m@ == v,
                None => r == Err::<Self, Error>(Error::InvalidProtobuf),
            },
    {
        reveal(LogRecordView::decode);
        let mut msg = Self::default();
        let mut pos: usize = 0;
        let ghost merge = LogRecordView::merge_fn();
        assert(bytes@.skip(0) =~= bytes@);
        while pos < bytes.len()
            invariant
                pos <= bytes@.len(),
                bytes@.len() == bytes.len(),
                merge == LogRecordView::merge_fn(),
                decode_with(merge, msg@, bytes@.skip(pos as int)) == LogRecordView::decode(bytes@),
            decreases bytes.len() - pos,
        {
            proof {
                lemma_decode_step(merge, msg@, bytes@.skip(pos as int));
            }
            match read_field(bytes, pos) {
                Some((field, next)) => {
                    if !msg.merge_field(field) {
                        return Err(Error::InvalidProtobuf);
                    }
                    assert(bytes@.skip(pos as int).skip(next - pos) =~= bytes@.skip(next as int));
                    pos = next;
                },
                None => {
                    return Err(Error::InvalidProtobuf);
                },
            }
        }
        proof {
            lemma_decode_empty(merge, msg@, bytes@.skip(pos as int));
        }
        Ok(msg)
    }

    /// Appends the body of the message to `out`: every member that is not at its zero
    /// value, in the order of the schema.
    pub fn write(&self, out: &mut Vec<u8>)
        ensures
            final(out)@ == old(out)@ + self@.wire(),
    {
        let ghost s0 = out@;
        let ghost f1 = fixed64_member(1, self@.time_unix_nano);
        let ghost f2 = fixed64_member(11, self@.observed_time_unix_nano);
        let ghost f3 = varint_member(2, self@.severity_number.spec_number() as u64);
        let ghost f4 = run_member(3, encode_utf8(self@.severity_text));
        let ghost f5 = AnyValueView::optional(5, self@.body);
        let ghost f6 = KeyValueView::repeated(6, self@.attributes);
        let ghost f7 = varint_member(7, self@.dropped_attributes_count as u64);
        let ghost f8 = fixed32_member(8, self@.flags);
        let ghost f9 = run_member(9, self@.trace_id);
        let ghost f10 = run_member(10, self@.span_id);
        let ghost p2 = f1 + f2;
        let ghost p3 = p2 + f3;
        let ghost p4 = p3 + f4;
        let ghost p5 = p4 + f5;
        let ghost p6 = p5 + f6;
        let ghost p7 = p6 + f7;
        let ghost p8 = p7 + f8;
        let ghost p9 = p8 + f9;
        let ghost p10 = p9 + f10;
        write_member_fixed64(out, 1, self.time_unix_nano);
        let ghost s1 = out@;
        write_member_fixed64(out, 11, self.observed_time_unix_nano);
        assert(out@ == s0 + fields_bytes(p2)) by {
            lemma_written(s0, f1, f2, s1, out@);
        }
        let ghost s2 = out@;
        write_member_varint(out, 2, self.severity_number.number() as u64);
        assert(out@ == s0 + fields_bytes(p3)) by {
            lemma_written(s0, p2, f3, s2, out@);
        }
        let ghost s3 = out@;
        write_member_run(out, 3, text_bytes(&self.severity_text));
        assert(out@ == s0 + fields_bytes(p4)) by {
            lemma_written(s0, p3, f4, s3, out@);
        }
        let ghost s4 = out@;
        write_optional(out, 5, &self.body);
        assert(out@ == s0 + fields_bytes(p5)) by {
            assert(body_of(self.body) == match self@.body {
                Some(x) => Some(x.wire()),
                None => None,
            });
            lemma_written(s0, p4, f5, s4, out@);
        }
        let ghost s5 = out@;
        write_repeated(out, 6, &self.attributes);
        assert(out@ == s0 + fields_bytes(p6)) by {
            assert(bodies_of(self.attributes@) =~= KeyValueView::bodies(self@.attributes));
            lemma_written(s0, p5, f6, s5, out@);
        }
        let ghost s6 = out@;
        write_member_varint(out, 7, self.dropped_attributes_count as u64);
        assert(out@ == s0 + fields_bytes(p7)) by {
            lemma_written(s0, p6, f7, s6, out@);
        }
        let ghost s7 = out@;
        write_member_fixed32(out, 8, self.flags);
        assert(out@ == s0 + fields_bytes(p8)) by {
            lemma_written(s0, p7, f8, s7, out@);
        }
        let ghost s8 = out@;
        write_member_run(out, 9, run_bytes(&self.trace_id));
        assert(out@ == s0 + fields_bytes(p9)) by {
            lemma_written(s0, p8, f9, s8, out@);
        }
        let ghost s9 = out@;
        write_member_run(out, 10, run_bytes(&self.span_id));
        assert(out@ == s0 + fields_bytes(p10)) by {
            lemma_written(s0, p9, f10, s9, out@);
        }
        proof {
            reveal(LogRecordView::wire);
        }
    }

    /// The message with its length in front. The body of a message in memory is short
    /// enough for its length to be written.
    pub fn encode(&self) -> (r: Vec<u8>)
        ensures
            r@ == framed(self@.wire()),
            self@.wire().len() <= u64::MAX,
    {
        let body = self.to_bytes();
        assert(body@.len() == body.len());
        frame(body.as_slice())
    }

    /// Decodes the message that stands, its length in front, at the start of `bytes`.
    /// What follows the message is not read.
    pub fn decode(bytes: &'a [u8]) -> (r: Result<Self, Error>)
        ensures
            match parse_framed(bytes@) {
                Some(body) => match LogRecordView::decode(body) {
                    Some(v) => r matches Ok(m) && m@ == v,
                    None => r == Err::<Self, Error>(Error::InvalidProtobuf),
                },
                None => r == Err::<Self, Error>(Error::InvalidProtobuf),
            },
    {
        match unframe(bytes) {
            Some(body) => Self::from_bytes(body),
            None => Err(Error::InvalidProtobuf),
        }
    }
}

impl<'a> Message for LogRecord<'a> {
    open spec fn wire_of(v: LogRecordView) -> Seq<u8> {
        v.wire()
    }

    fn to_bytes(&self) -> (r: Vec<u8>)
        ensures
            r@ == self@.wire(),
    {
        let mut out: Vec<u8> = Vec::new();
        self.write(&mut out);
        assert(out@ =~= self@.wire());
        out
    }
}

impl<'a> ScopeLogs<'a> {
    /// Merges one field that was read into the message. Returns whether the field was
    /// in order; if not, the message is left in no particular state.
    fn merge_field(&mut self, field: FieldRef<'a>) -> (ok: bool)
        ensures
            match ScopeLogsView::merge(old(self)@, field@) {
                Some(v) => ok && final(self)@ == v,
                None => !ok,
            },
    {
        match field.chunk {
            Chunk::Varint(_) => true,
            Chunk::Fixed64(_) => true,
            Chunk::Fixed32(_) => true,
            Chunk::Run(r) => {
                if field.number == 1 {
                    match InstrumentationScope::from_bytes(r) {
                        Ok(item) => {
                            self.scope = Some(item);
                            true
                        },
                        Err(_) => false,
                    }
                } else if field.number == 2 {
                    match LogRecord::from_bytes(r) {
                        Ok(item) => {
                            self.log_records.push(item);
                            assert(self@.log_records =~= old(self)@.log_records.push(item@));
                            true
                        },
                        Err(_) => false,
                    }
                } else if field.number == 3 {
                    match text_of(r) {
                        Some(s) => {
                            self.schema_url = s;
                            true
                        },
                        None => false,
                    }
                } else {
                    true
                }
            },
        }
    }

    /// Decodes a message body. Members whose fields are missing are at their zero
    /// value, and fields of no member are passed over.
    pub fn from_bytes(bytes: &'a [u8]) -> (r: Result<Self, Error>)
        ensures
            match ScopeLogsView::decode(bytes@) {
                Some(v) => r matches Ok(m) && m@ == v,
                None => r == Err::<Self, Error>(Error::InvalidProtobuf),
            },
    {
        reveal(ScopeLogsView::decode);
        let mut msg = Self::default();
        let mut pos: usize = 0;
        let ghost merge = ScopeLogsView::merge_fn();
        assert(bytes@.skip(0) =~= bytes@);
        while pos < bytes.len()
            invariant
                pos <= bytes@.len(),
                bytes@.len() == bytes.len(),
                merge == ScopeLogsView::merge_fn(),
                decode_with(merge, msg@, bytes@.skip(pos as int)) == ScopeLogsView::decode(bytes@),
            decreases bytes.len() - pos,
        {
            proof {
                lemma_decode_step(merge, msg@, bytes@.skip(pos as int));
            }
            match read_field(bytes, pos) {
                Some((field, next)) => {
                    if !msg.merge_field(field) {
                        return Err(Error::InvalidProtobuf);
                    }
                    assert(bytes@.skip(pos as int).skip(next - pos) =~= bytes@.skip(next as int));
                    pos = next;
                },
                None => {
                    return Err(Error::InvalidProtobuf);
                },
            }
        }
        proof {
            lemma_decode_empty(merge, msg@, bytes@.skip(pos as int));
        }
        Ok(msg)
    }

    /// Appends the body of the message to `out`: every member that is not at its zero
    /// value, in the order of the schema.
    pub fn write(&self, out: &mut Vec<u8>)
        ensures
            final(out)@ == old(out)@ + self@.wire(),
    {
        let ghost s0 = out@;
        let ghost f1 = InstrumentationScopeView::optional(1, self@.scope);
        let ghost f2 = LogRecordView::repeated(2, self@.log_records);
        let ghost f3 = run_member(3, encode_utf8(self@.schema_url));
        let ghost p2 = f1 + f2;
        let ghost p3 = p2 + f3;
        write_optional(out, 1, &self.scope);
        assert(out@ == s0 + fields_bytes(f1)) by {
            assert(body_of(self.scope) == match self@.scope {
                Some(x) => Some(x.wire()),
                None => None,
            });
        }
        let ghost s1 = out@;
        write_repeated(out, 2, &self.log_records);
        assert(out@ == s0 + fields_bytes(p2)) by {
            assert(bodies_of(self.log_records@) =~= LogRecordView::bodies(self@.log_records));
            lemma_written(s0, f1, f2, s1, out@);
        }
        let ghost s2 = out@;
        write_member_run(out, 3, text_bytes(&self.schema_url));
        assert(out@ == s0 + fields_bytes(p3)) by {
            lemma_written(s0, p2, f3, s2, out@);
        }
        proof {
            reveal(ScopeLogsView::wire);
        }
    }

    /// The message with its length in front. The body of a message in memory is short
    /// enough for its length to be written.
    pub fn encode(&self) -> (r: Vec<u8>)
        ensures
            r@ == framed(self@.wire()),
            self@.wire().len() <= u64::MAX,
    {
        let body = self.to_bytes();
        assert(body@.len() == body.len());
        frame(body.as_slice())
    }

    /// Decodes the message that stands, its length in front, at the start of `bytes`.
    /// What follows the message is not read.
    pub fn decode(bytes: &'a [u8]) -> (r: Result<Self, Error>)
        ensures
            match parse_framed(bytes@) {
                Some(body) => match ScopeLogsView::decode(body) {
                    Some(v) => r matches Ok(m) && m@ == v,
                    None => r == Err::<Self, Error>(Error::InvalidProtobuf),
                },
                None => r == Err::<Self, Error>(Error::InvalidProtobuf),
            },
    {
        match unframe(bytes) {
            Some(body) => Self::from_bytes(body),
            None => Err(Error::InvalidProtobuf),
        }
    }
}

impl<'a> Message for ScopeLogs<'a> {
    open spec fn wire_of(v: ScopeLogsView) -> Seq<u8> {
        v.wire()
    }

    fn to_bytes(&self) -> (r: Vec<u8>)
        ensures
            r@ == self@.wire(),
    {
        let mut out: Vec<u8> = Vec::new();
        self.write(&mut out);
        assert(out@ =~= self@.wire());
        out
    }
}

impl<'a> ResourceLogs<'a> {
    /// Merges one field that was read into the message. Returns whether the field was
    /// in order; if not, the message is left in no particular state.
    fn merge_field(&mut self, field: FieldRef<'a>) -> (ok: bool)
        ensures
            match ResourceLogsView::merge(old(self)@, field@) {
                Some(v) => ok && final(self)@ == v,
                None => !ok,
            },
    {
        match field.chunk {
            Chunk::Varint(_) => true,
            Chunk::Fixed64(_) => true,
            Chunk::Fixed32(_) => true,
            Chunk::Run(r) => {
                if field.number == 1 {
                    match Resource::from_bytes(r) {
                        Ok(item) => {
                            self.resource = Some(item);
                            true
                        },
                        Err(_) => false,
                    }
                } else if field.number == 2 {
                    match ScopeLogs::from_bytes(r) {
                        Ok(item) => {
                            self.scope_logs.push(item);
                            assert(self@.scope_logs =~= old(self)@.scope_logs.push(item@));
                            true
                        },
                        Err(_) => false,
                    }
                } else if field.number == 3 {
                    match text_of(r) {
                        Some(s) => {
                            self.schema_url = s;
                            true
                        },
                        None => false,
                    }
                } else {
                    true
                }
            },
        }
    }

    /// Decodes a message body. Members whose fields are missing are at their zero
    /// value, and fields of no member are passed over.
    pub fn from_bytes(bytes: &'a [u8]) -> (r: Result<Self, Error>)
        ensures
            match ResourceLogsView::decode(bytes@) {
                Some(v) => r matches Ok(m) && m@ == v,
                None => r == Err::<Self, Error>(Error::InvalidProtobuf),
            },
    {
        reveal(ResourceLogsView::decode);
        let mut msg = Self::default();
        let mut pos: usize = 0;
        let ghost merge = ResourceLogsView::merge_fn();
        assert(bytes@.skip(0) =~= bytes@);
        while pos < bytes.len()
            invariant
                pos <= bytes@.len(),
                bytes@.len() == bytes.len(),
                merge == ResourceLogsView::merge_fn(),
                decode_with(merge, msg@, bytes@.skip(pos as int)) == ResourceLogsView::decode(
                    bytes@,
                ),
            decreases bytes.len() - pos,
        {
            proof {
                lemma_decode_step(merge, msg@, bytes@.skip(pos as int));
            }
            match read_field(bytes, pos) {
                Some((field, next)) => {
                    if !msg.merge_field(field) {
                        return Err(Error::InvalidProtobuf);
                    }
                    assert(bytes@.skip(pos as int).skip(next - pos) =~= bytes@.skip(next as int));
                    pos = next;
                },
                None => {
                    return Err(Error::InvalidProtobuf);
                },
            }
        }
        proof {
            lemma_decode_empty(merge, msg@, bytes@.skip(pos as int));
        }
        Ok(msg)
    }

    /// Appends the body of the message to `out`: every member that is not at its zero
    /// value, in the order of the schema.
    pub fn write(&self, out: &mut Vec<u8>)
        ensures
            final(out)@ == old(out)@ + self@.wire(),
    {
        let ghost s0 = out@;
        let ghost f1 = ResourceView::optional(1, self@.resource);
        let ghost f2 = ScopeLogsView::repeated(2, self@.scope_logs);
        let ghost f3 = run_member(3, encode_utf8(self@.schema_url));
        let ghost p2 = f1 + f2;
        let ghost p3 = p2 + f3;
        write_optional(out, 1, &self.resource);
        assert(out@ == s0 + fields_bytes(f1)) by {
            assert(body_of(self.resource) == match self@.resource {
                Some(x) => Some(x.wire()),
                None => None,
            });
        }
        let ghost s1 = out@;
        write_repeated(out, 2, &self.scope_logs);
        assert(out@ == s0 + fields_bytes(p2)) by {
            assert(bodies_of(self.scope_logs@) =~= ScopeLogsView::bodies(self@.scope_logs));
            lemma_written(s0, f1, f2, s1, out@);
        }
        let ghost s2 = out@;
        write_member_run(out, 3, text_bytes(&self.schema_url));
        assert(out@ == s0 + fields_bytes(p3)) by {
            lemma_written(s0, p2, f3, s2, out@);
        }
        proof {
            reveal(ResourceLogsView::wire);
        }
    }

    /// The message with its length in front. The body of a message in memory is short
    /// enough for its length to be written.
    pub fn encode(&self) -> (r: Vec<u8>)
        ensures
            r@ == framed(self@.wire()),
            self@.wire().len() <= u64::MAX,
    {
        let body = self.to_bytes();
        assert(body@.len() == body.len());
        frame(body.as_slice())
    }

    /// Decodes the message that stands, its length in front, at the start of `bytes`.
    /// What follows the message is not read.
    pub fn decode(bytes: &'a [u8]) -> (r: Result<Self, Error>)
        ensures
            match parse_framed(bytes@) {
                Some(body) => match ResourceLogsView::decode(body) {
                    Some(v) => r matches Ok(m) && m@ == v,
                    None => r == Err::<Self, Error>(Error::InvalidProtobuf),
                },
                None => r == Err::<Self, Error>(Error::InvalidProtobuf),
            },
    {
        match unframe(bytes) {
            Some(body) => Self::from_bytes(body),
            None => Err(Error::InvalidProtobuf),
        }
    }
}

impl<'a> Message for ResourceLogs<'a> {
    open spec fn wire_of(v: ResourceLogsView) -> Seq<u8> {
        v.wire()
    }

    fn to_bytes(&self) -> (r: Vec<u8>)
        ensures
            r@ == self@.wire(),
    {
        let mut out: Vec<u8> = Vec::new();
        self.write(&mut out);
        assert(out@ =~= self@.wire());
        out
    }
}

impl<'a> ExportLogsServiceRequest<'a> {
    /// Merges one field that was read into the message. Returns whether the field was
    /// in order; if not, the message is left in no particular state.
    fn merge_field(&mut self, field: FieldRef<'a>) -> (ok: bool)
        ensures
            match ExportLogsServiceRequestView::merge(old(self)@, field@) {
                Some(v) => ok && final(self)@ == v,
                None => !ok,
            },
    {
        match field.chunk {
            Chunk::Varint(_) => true,
            Chunk::Fixed64(_) => true,
            Chunk::Fixed32(_) => true,
            Chunk::Run(r) => {
                if field.number == 1 {
                    match ResourceLogs::from_bytes(r) {
                        Ok(item) => {
                            self.resource_logs.push(item);
                            assert(self@.resource_logs =~= old(self)@.resource_logs.push(item@));
                            true
                        },
                        Err(_) => false,
                    }
                } else {
                    true
                }
            },
        }
    }

    /// Decodes a message body. Members whose fields are missing are at their zero
    /// value, and fields of no member are passed over.
    pub fn from_bytes(bytes: &'a [u8]) -> (r: Result<Self, Error>)
        ensures
            match ExportLogsServiceRequestView::decode(bytes@) {
                Some(v) => r matches Ok(m) && m@ == v,
                None => r == Err::<Self, Error>(Error::InvalidProtobuf),
            },
    {
        reveal(ExportLogsServiceRequestView::decode);
        let mut msg = Self::default();
        let mut pos: usize = 0;
        let ghost merge = ExportLogsServiceRequestView::merge_fn();
        assert(bytes@.skip(0) =~= bytes@);
        while pos < bytes.len()
            invariant
                pos <= bytes@.len(),
                bytes@.len() == bytes.len(),
                merge == ExportLogsServiceRequestView::merge_fn(),
                decode_with(merge, msg@, bytes@.skip(pos as int))
                    == ExportLogsServiceRequestView::decode(bytes@),
            decreases bytes.len() - pos,
        {
            proof {
                lemma_decode_step(merge, msg@, bytes@.skip(pos as int));
            }
            match read_field(bytes, pos) {
                Some((field, next)) => {
                    if !msg.merge_field(field) {
                        return Err(Error::InvalidProtobuf);
                    }
                    assert(bytes@.skip(pos as int).skip(next - pos) =~= bytes@.skip(next as int));
                    pos = next;
                },
                None => {
                    return Err(Error::InvalidProtobuf);
                },
            }
        }
        proof {
            lemma_decode_empty(merge, msg@, bytes@.skip(pos as int));
        }
        Ok(msg)
    }

    /// Appends the body of the message to `out`: every member that is not at its zero
    /// value, in the order of the schema.
    pub fn write(&self, out: &mut Vec<u8>)
        ensures
            final(out)@ == old(out)@ + self@.wire(),
    {
        let ghost s0 = out@;
        let ghost f1 = ResourceLogsView::repeated(1, self@.resource_logs);
        write_repeated(out, 1, &self.resource_logs);
        assert(out@ == s0 + fields_bytes(f1)) by {
            assert(
                bodies_of(self.resource_logs@) =~= ResourceLogsView::bodies(self@.resource_logs)
            );
        }
        proof {
            reveal(ExportLogsServiceRequestView::wire);
        }
    }

    /// The message with its length in front. The body of a message in memory is short
    /// enough for its length to be written.
    pub fn encode(&self) -> (r: Vec<u8>)
        ensures
            r@ == framed(self@.wire()),
            self@.wire().len() <= u64::MAX,
    {
        let body = self.to_bytes();
        assert(body@.len() == body.len());
        frame(body.as_slice())
    }

    /// Decodes the message that stands, its length in front, at the start of `bytes`.
    /// What follows the message is not read.
    pub fn decode(bytes: &'a [u8]) -> (r: Result<Self, Error>)
        ensures
            match parse_framed(bytes@) {
                Some(body) => match ExportLogsServiceRequestView::decode(body) {
                    Some(v) => r matches Ok(m) && m@ == v,
                    None => r == Err::<Self, Error>(Error::InvalidProtobuf),
                },
                None => r == Err::<Self, Error>(Error::InvalidProtobuf),
            },
    {
        match unframe(bytes) {
            Some(body) => Self::from_bytes(body),
            None => Err(Error::InvalidProtobuf),
        }
    }
}

impl<'a> Message for ExportLogsServiceRequest<'a> {
    open spec fn wire_of(v: ExportLogsServiceRequestView) -> Seq<u8> {
        v.wire()
    }

    fn to_bytes(&self) -> (r: Vec<u8>)
        ensures
            r@ == self@.wire(),
    {
        let mut out: Vec<u8> = Vec::new();
        self.write(&mut out);
        assert(out@ =~= self@.wire());
        out
    }
}

} // verus!
