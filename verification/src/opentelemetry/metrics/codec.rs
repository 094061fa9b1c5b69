//! Reading and writing the messages of the metrics family.

use crate::error::Error;
use crate::field::{
    Chunk, FieldRef, decode_with, fields_bytes, lemma_decode_empty, lemma_decode_step,
    lemma_written, read_field,
};
use crate::member::{
    fixed64_member, frame, framed, packed_fixed64_member, parse_framed, read_packed_fixed64,
    read_packed_varints, repeated_varints, run_member, unframe, varint_member, write_field_fixed64,
    write_member_fixed64, write_member_packed_fixed64, write_member_run, write_member_varint,
    write_repeated_varints,
};
use crate::message::{Message, bodies_of, body_of, write_message, write_optional, write_repeated};
use crate::opentelemetry::common::types::{
    InstrumentationScope, InstrumentationScopeView, KeyValue, KeyValueView, Resource, ResourceView,
};
use crate::opentelemetry::metrics::types::{
    AggregationTemporality, Exemplar, ExemplarOneOfvalue, ExemplarView, ExponentialHistogram,
    ExponentialHistogramDataPoint, ExponentialHistogramDataPointBuckets,
    ExponentialHistogramDataPointBucketsView, ExponentialHistogramDataPointView,
    ExponentialHistogramView, ExportMetricsServiceRequest, ExportMetricsServiceRequestView, Gauge,
    GaugeView, Histogram, HistogramDataPoint, HistogramDataPointView, HistogramView, Metric,
    MetricOneOfdata, MetricView, NumberDataPoint, NumberDataPointOneOfvalue, NumberDataPointView,
    ResourceMetrics, ResourceMetricsView, ScopeMetrics, ScopeMetricsView, Sum, SumView, Summary,
    SummaryDataPoint, SummaryDataPointValueAtQuantile, SummaryDataPointValueAtQuantileView,
    SummaryDataPointView, SummaryView,
};
use crate::text::{run_bytes, text_bytes, text_of};
use crate::wire::{
    low32_of, low32_signed_of, signed64_of, unsigned64_of, zigzag32, zigzag32_decode,
    zigzag32_encode,
};
use std::borrow::Cow;
use vstd::prelude::*;
use vstd::utf8::encode_utf8;

verus! {

impl ExemplarOneOfvalue {
    /// Appends the field of the variant in force to `out`: nothing where none is
    /// set.
    pub fn write(&self, out: &mut Vec<u8>)
        ensures
            final(out)@ == old(out)@ + fields_bytes(self@.fields()),
    {
        match self {
            ExemplarOneOfvalue::as_double(x) => {
                write_field_fixed64(out, 3, *x);
            },
            ExemplarOneOfvalue::as_int(x) => {
                write_field_fixed64(out, 6, unsigned64_of(*x));
            },
            ExemplarOneOfvalue::Unset => {
                assert(out@ =~= out@ + fields_bytes(Seq::empty()));
            },
        }
    }
}

impl<'a> Exemplar<'a> {
    /// Merges one field that was read into the message. Returns whether the field was
    /// in order; if not, the message is left in no particular state.
    fn merge_field(&mut self, field: FieldRef<'a>) -> (ok: bool)
        ensures
            match ExemplarView::merge(old(self)@, field@) {
                Some(v) => ok && final(self)@ == v,
                None => !ok,
            },
    {
        match field.chunk {
            Chunk::Varint(_) => true,
            Chunk::Fixed64(x) => {
                if field.number == 2 {
                    self.time_unix_nano = x;
                    true
                } else if field.number == 3 {
                    self.value = ExemplarOneOfvalue::as_double(x);
                    true
                } else if field.number == 6 {
                    self.value = ExemplarOneOfvalue::as_int(signed64_of(x));
                    true
                } else {
                    true
                }
            },
            Chunk::Fixed32(_) => true,
            Chunk::Run(r) => {
                if field.number == 7 {
                    match KeyValue::from_bytes(r) {
                        Ok(item) => {
                            self.filtered_attributes.push(item);
                            assert(
                                self@.filtered_attributes =~= old(self)@.filtered_attributes.push(
                                    item@,
                                )
                            );
                            true
                        },
                        Err(_) => false,
                    }
                } else if field.number == 4 {
                    self.span_id = Cow::Borrowed(r);
                    true
                } else if field.number == 5 {
                    self.trace_id = Cow::Borrowed(r);
                    true
                } else {
                    true
                }
            },
        }
    }

    /// Decodes a message body. Members whose fields are missing are at their zero
    /// value, and fields of no member are passed over.
    pub fn from_bytes(bytes: &'a [u8]) -> (r: Result<Self, Error>)
        ensures
            match ExemplarView::decode(bytes@) {
                Some(v) => r matches Ok(m) && m@ == v,
                None => r == Err::<Self, Error>(Error::InvalidProtobuf),
            },
    {
        reveal(ExemplarView::decode);
        let mut msg = Self::default();
        let mut pos: usize = 0;
        let ghost merge = ExemplarView::merge_fn();
        assert(bytes@.skip(0) =~= bytes@);
        while pos < bytes.len()
            invariant
                pos <= bytes@.len(),
                bytes@.len() == bytes.len(),
                merge == ExemplarView::merge_fn(),
                decode_with(merge, msg@, bytes@.skip(pos as int)) == ExemplarView::decode(bytes@),
            decreases bytes.len() - pos,
        {
            proof {
                lemma_decode_step(merge, msg@, bytes@.skip(pos as int));
            }
            match read_field(bytes, pos) {
                Some((field, next)) => {
                    if !msg.merge_field(field) {
                        return Err(Error::InvalidProtobuf);
                    }
                    assert(bytes@.skip(pos as int).skip(next - pos) =~= bytes@.skip(next as int));
                    pos = next;
                },
                None => {
                    return Err(Error::InvalidProtobuf);
                },
            }
        }
        proof {
            lemma_decode_empty(merge, msg@, bytes@.skip(pos as int));
        }
        Ok(msg)
    }

    /// Appends the body of the message to `out`: every member that is not at its zero
    /// value, in the order of the schema.
    pub fn write(&self, out: &mut Vec<u8>)
        ensures
            final(out)@ == old(out)@ + self@.wire(),
    {
        let ghost s0 = out@;
        let ghost f1 = KeyValueView::repeated(7, self@.filtered_attributes);
        let ghost f2 = fixed64_member(2, self@.time_unix_nano);
        let ghost f3 = run_member(4, self@.span_id);
        let ghost f4 = run_member(5, self@.trace_id);
        let ghost f5 = self@.value.fields();
        let ghost p2 = f1 + f2;
        let ghost p3 = p2 + f3;
        let ghost p4 = p3 + f4;
        let ghost p5 = p4 + f5;
        write_repeated(out, 7, &self.filtered_attributes);
        assert(out@ == s0 + fields_bytes(f1)) by {
            assert(
                bodies_of(self.filtered_attributes@) =~= KeyValueView::bodies(
                    self@.filtered_attributes,
                )
            );
        }
        let ghost s1 = out@;
        write_member_fixed64(out, 2, self.time_unix_nano);
        assert(out@ == s0 + fields_bytes(p2)) by {
            lemma_written(s0, f1, f2, s1, out@);
        }
        let ghost s2 = out@;
        write_member_run(out, 4, run_bytes(&self.span_id));
        assert(out@ == s0 + fields_bytes(p3)) by {
            lemma_written(s0, p2, f3, s2, out@);
        }
        let ghost s3 = out@;
        write_member_run(out, 5, run_bytes(&self.trace_id));
        assert(out@ == s0 + fields_bytes(p4)) by {
            lemma_written(s0, p3, f4, s3, out@);
        }
        let ghost s4 = out@;
        self.value.write(out);
        assert(out@ == s0 + fields_bytes(p5)) by {
            lemma_written(s0, p4, f5, s4, out@);
        }
        proof {
            reveal(ExemplarView::wire);
        }
    }

    /// The message with its length in front. The body of a message in memory is short
    /// enough for its length to be written.
    pub fn encode(&self) -> (r: Vec<u8>)
        ensures
            r@ == framed(self@.wire()),
            self@.wire().len() <= u64::MAX,
    {
        let body = self.to_bytes();
        assert(body@.len() == body.len());
        frame(body.as_slice())
    }

    /// Decodes the message that stands, its length in front, at the start of `bytes`.
    /// What follows the message is not read.
    pub fn decode(bytes: &'a [u8]) -> (r: Result<Self, Error>)
        ensures
            match parse_framed(bytes@) {
                Some(body) => match ExemplarView::decode(body) {
                    Some(v) => r matches Ok(m) && m@ == v,
                    None => r == Err::<Self, Error>(Error::InvalidProtobuf),
                },
                None => r == Err::<Self, Error>(Error::InvalidProtobuf),
            },
    {
        match unframe(bytes) {
            Some(body) => Self::from_bytes(body),
            None => Err(Error::InvalidProtobuf),
        }
    }
}

impl<'a> Message for Exemplar<'a> {
    open spec fn wire_of(v: ExemplarView) -> Seq<u8> {
        v.wire()
    }

    fn to_bytes(&self) -> (r: Vec<u8>)
        ensures
            r@ == self@.wire(),
    {
        let mut out: Vec<u8> = Vec::new();
        self.write(&mut out);
        assert(out@ =~= self@.wire());
        out
    }
}

impl NumberDataPointOneOfvalue {
    /// Appends the field of the variant in force to `out`: nothing where none is
    /// set.
    pub fn write(&self, out: &mut Vec<u8>)
        ensures
            final(out)@ == old(out)@ + fields_bytes(self@.fields()),
    {
        match self {
            NumberDataPointOneOfvalue::as_double(x) => {
                write_field_fixed64(out, 4, *x);
            },
            NumberDataPointOneOfvalue::as_int(x) => {
                write_field_fixed64(out, 6, unsigned64_of(*x));
            },
            NumberDataPointOneOfvalue::Unset => {
                assert(out@ =~= out@ + fields_bytes(Seq::empty()));
            },
        }
    }
}

impl<'a> NumberDataPoint<'a> {
    /// Merges one field that was read into the message. Returns whether the field was
    /// in order; if not, the message is left in no particular state.
    fn merge_field(&mut self, field: FieldRef<'a>) -> (ok: bool)
        ensures
            match NumberDataPointView::merge(old(self)@, field@) {
                Some(v) => ok && final(self)@ == v,
                None => !ok,
            },
    {
        match field.chunk {
            Chunk::Varint(x) => {
                if field.number == 8 {
                    self.flags = low32_of(x);
                    true
                } else {
                    true
                }
            },
            Chunk::Fixed64(x) => {
                if field.number == 2 {
                    self.start_time_unix_nano = x;
                    true
                } else if field.number == 3 {
                    self.time_unix_nano = x;
                    true
                } else if field.number == 4 {
                    self.value = NumberDataPointOneOfvalue::as_double(x);
                    true
                } else if field.number == 6 {
                    self.value = NumberDataPointOneOfvalue::as_int(signed64_of(x));
                    true
                } else {
                    true
                }
            },
            Chunk::Fixed32(_) => true,
            Chunk::Run(r) => {
                if field.number == 7 {
                    match KeyValue::from_bytes(r) {
                        Ok(item) => {
                            self.attributes.push(item);
                            assert(self@.attributes =~= old(self)@.attributes.push(item@));
                            true
                        },
                        Err(_) => false,
                    }
                } else if field.number == 5 {
                    match Exemplar::from_bytes(r) {
                        Ok(item) => {
                            self.exemplars.push(item);
                            assert(self@.exemplars =~= old(self)@.exemplars.push(item@));
                            true
                        },
                        Err(_) => false,
                    }
                } else {
                    true
                }
            },
        }
    }

    /// Decodes a message body. Members whose fields are missing are at their zero
    /// value, and fields of no member are passed over.
    pub fn from_bytes(bytes: &'a [u8]) -> (r: Result<Self, Error>)
        ensures
            match NumberDataPointView::decode(bytes@) {
                Some(v) => r matches Ok(m) && m@ == v,
                None => r == Err::<Self, Error>(Error::InvalidProtobuf),
            },
    {
        reveal(NumberDataPointView::decode);
        let mut msg = Self::default();
        let mut pos: usize = 0;
        let ghost merge = NumberDataPointView::merge_fn();
        assert(bytes@.skip(0) =~= bytes@);
        while pos < bytes.len()
            invariant
                pos <= bytes@.len(),
                bytes@.len() == bytes.len(),
                merge == NumberDataPointView::merge_fn(),
                decode_with(merge, msg@, bytes@.skip(pos as int)) == NumberDataPointView::decode(
                    bytes@,
                ),
            decreases bytes.len() - pos,
        {
            proof {
                lemma_decode_step(merge, msg@, bytes@.skip(pos as int));
            }
            match read_field(bytes, pos) {
                Some((field, next)) => {
                    if !msg.merge_field(field) {
                        return Err(Error::InvalidProtobuf);
                    }
                    assert(bytes@.skip(pos as int).skip(next - pos) =~= bytes@.skip(next as int));
                    pos = next;
                },
                None => {
                    return Err(Error::InvalidProtobuf);
                },
            }
        }
        proof {
            lemma_decode_empty(merge, msg@, bytes@.skip(pos as int));
        }
        Ok(msg)
    }

    /// Appends the body of the message to `out`: every member that is not at its zero
    /// value, in the order of the schema.
    pub fn write(&self, out: &mut Vec<u8>)
        ensures
            final(out)@ == old(out)@ + self@.wire(),
    {
        let ghost s0 = out@;
        let ghost f1 = KeyValueView::repeated(7, self@.attributes);
        let ghost f2 = fixed64_member(2, self@.start_time_unix_nano);
        let ghost f3 = fixed64_member(3, self@.time_unix_nano);
        let ghost f4 = ExemplarView::repeated(5, self@.exemplars);
        let ghost f5 = varint_member(8, self@.flags as u64);
        let ghost f6 = self@.value.fields();
        let ghost p2 = f1 + f2;
        let ghost p3 = p2 + f3;
        let ghost p4 = p3 + f4;
        let ghost p5 = p4 + f5;
        let ghost p6 = p5 + f6;
        write_repeated(out, 7, &self.attributes);
        assert(out@ == s0 + fields_bytes(f1)) by {
            assert(bodies_of(self.attributes@) =~= KeyValueView::bodies(self@.attributes));
        }
        let ghost s1 = out@;
        write_member_fixed64(out, 2, self.start_time_unix_nano);
        assert(out@ == s0 + fields_bytes(p2)) by {
            lemma_written(s0, f1, f2, s1, out@);
        }
        let ghost s2 = out@;
        write_member_fixed64(out, 3, self.time_unix_nano);
        assert(out@ == s0 + fields_bytes(p3)) by {
            lemma_written(s0, p2, f3, s2, out@);
        }
        let ghost s3 = out@;
        write_repeated(out, 5, &self.exemplars);
        assert(out@ == s0 + fields_bytes(p4)) by {
            assert(bodies_of(self.exemplars@) =~= ExemplarView::bodies(self@.exemplars));
            lemma_written(s0, p3, f4, s3, out@);
        }
        let ghost s4 = out@;
        write_member_varint(out, 8, self.flags as u64);
        assert(out@ == s0 + fields_bytes(p5)) by {
            lemma_written(s0, p4, f5, s4, out@);
        }
        let ghost s5 = out@;
        self.value.write(out);
        assert(out@ == s0 + fields_bytes(p6)) by {
            lemma_written(s0, p5, f6, s5, out@);
        }
        proof {
            reveal(NumberDataPointView::wire);
        }
    }

    /// The message with its length in front. The body of a message in memory is short
    /// enough for its length to be written.
    pub fn encode(&self) -> (r: Vec<u8>)
        ensures
            r@ == framed(self@.wire()),
            self@.wire().len() <= u64::MAX,
    {
        let body = self.to_bytes();
        assert(body@.len() == body.len());
        frame(body.as_slice())
    }

    /// Decodes the message that stands, its length in front, at the start of `bytes`.
    /// What follows the message is not read.
    pub fn decode(bytes: &'a [u8]) -> (r: Result<Self, Error>)
        ensures
            match parse_framed(bytes@) {
                Some(body) => match NumberDataPointView::decode(body) {
                    Some(v) => r matches Ok(m) && m@ == v,
                    None => r == Err::<Self, Error>(Error::InvalidProtobuf),
                },
                None => r == Err::<Self, Error>(Error::InvalidProtobuf),
            },
    {
        match unframe(bytes) {
            Some(body) => Self::from_bytes(body),
            None => Err(Error::InvalidProtobuf),
        }
    }
}

impl<'a> Message for NumberDataPoint<'a> {
    open spec fn wire_of(v: NumberDataPointView) -> Seq<u8> {
        v.wire()
    }

    fn to_bytes(&self) -> (r: Vec<u8>)
        ensures
            r@ == self@.wire(),
    {
        let mut out: Vec<u8> = Vec::new();
        self.write(&mut out);
        assert(out@ =~= self@.wire());
        out
    }
}

impl<'a> HistogramDataPoint<'a> {
    /// Merges one field that was read into the message. Returns whether the field was
    /// in order; if not, the message is left in no particular state.
    fn merge_field(&mut self, field: FieldRef<'a>) -> (ok: bool)
        ensures
            match HistogramDataPointView::merge(old(self)@, field@) {
                Some(v) => ok && final(self)@ == v,
                None => !ok,
            },
    {
        match field.chunk {
            Chunk::Varint(x) => {
                if field.number == 10 {
                    self.flags = low32_of(x);
                    true
                } else {
                    true
                }
            },
            Chunk::Fixed64(x) => {
                if field.number == 2 {
                    self.start_time_unix_nano = x;
                    true
                } else if field.number == 3 {
                    self.time_unix_nano = x;
                    true
                } else if field.number == 4 {
                    self.count = x;
                    true
                } else if field.number == 5 {
                    self.sum = x;
                    true
                } else if field.number == 6 {
                    self.bucket_counts.push(x);
                    true
                } else if field.number == 7 {
                    self.explicit_bounds.push(x);
                    true
                } else if field.number == 11 {
                    self.min = x;
                    true
                } else if field.number == 12 {
                    self.max = x;
                    true
                } else {
                    true
                }
            },
            Chunk::Fixed32(_) => true,
            Chunk::Run(r) => {
                if field.number == 9 {
                    match KeyValue::from_bytes(r) {
                        Ok(item) => {
                            self.attributes.push(item);
                            assert(self@.attributes =~= old(self)@.attributes.push(item@));
                            true
                        },
                        Err(_) => false,
                    }
                } else if field.number == 6 {
                    read_packed_fixed64(r, &mut self.bucket_counts)
                } else if field.number == 7 {
                    read_packed_fixed64(r, &mut self.explicit_bounds)
                } else if field.number == 8 {
                    match Exemplar::from_bytes(r) {
                        Ok(item) => {
                            self.exemplars.push(item);
                            assert(self@.exemplars =~= old(self)@.exemplars.push(item@));
                            true
                        },
                        Err(_) => false,
                    }
                } else {
                    true
                }
            },
        }
    }

    /// Decodes a message body. Members whose fields are missing are at their zero
    /// value, and fields of no member are passed over.
    pub fn from_bytes(bytes: &'a [u8]) -> (r: Result<Self, Error>)
        ensures
            match HistogramDataPointView::decode(bytes@) {
                Some(v) => r matches Ok(m) && m@ == v,
                None => r == Err::<Self, Error>(Error::InvalidProtobuf),
            },
    {
        reveal(HistogramDataPointView::decode);
        let mut msg = Self::default();
        let mut pos: usize = 0;
        let ghost merge = HistogramDataPointView::merge_fn();
        assert(bytes@.skip(0) =~= bytes@);
        while pos < bytes.len()
            invariant
                pos <= bytes@.len(),
                bytes@.len() == bytes.len(),
                merge == HistogramDataPointView::merge_fn(),
                decode_with(merge, msg@, bytes@.skip(pos as int)) == HistogramDataPointView::decode(
                    bytes@,
                ),
            decreases bytes.len() - pos,
        {
            proof {
                lemma_decode_step(merge, msg@, bytes@.skip(pos as int));
            }
            match read_field(bytes, pos) {
                Some((field, next)) => {
                    if !msg.merge_field(field) {
                        return Err(Error::InvalidProtobuf);
                    }
                    assert(bytes@.skip(pos as int).skip(next - pos) =~= bytes@.skip(next as int));
                    pos = next;
                },
                None => {
                    return Err(Error::InvalidProtobuf);
                },
            }
        }
        proof {
            lemma_decode_empty(merge, msg@, bytes@.skip(pos as int));
        }
        Ok(msg)
    }

    /// Appends the body of the message to `out`: every member that is not at its zero
    /// value, in the order of the schema.
    pub fn write(&self, out: &mut Vec<u8>)
        ensures
            final(out)@ == old(out)@ + self@.wire(),
    {
        let ghost s0 = out@;
        let ghost f1 = KeyValueView::repeated(9, self@.attributes);
        let ghost f2 = fixed64_member(2, self@.start_time_unix_nano);
        let ghost f3 = fixed64_member(3, self@.time_unix_nano);
        let ghost f4 = fixed64_member(4, self@.count);
        let ghost f5 = fixed64_member(5, self@.sum);
        let ghost f6 = packed_fixed64_member(6, self@.bucket_counts);
        let ghost f7 = packed_fixed64_member(7, self@.explicit_bounds);
        let ghost f8 = ExemplarView::repeated(8, self@.exemplars);
        let ghost f9 = varint_member(10, self@.flags as u64);
        let ghost f10 = fixed64_member(11, self@.min);
        let ghost f11 = fixed64_member(12, self@.max);
        let ghost p2 = f1 + f2;
        let ghost p3 = p2 + f3;
        let ghost p4 = p3 + f4;
        let ghost p5 = p4 + f5;
        let ghost p6 = p5 + f6;
        let ghost p7 = p6 + f7;
        let ghost p8 = p7 + f8;
        let ghost p9 = p8 + f9;
        let ghost p10 = p9 + f10;
        let ghost p11 = p10 + f11;
        write_repeated(out, 9, &self.attributes);
        assert(out@ == s0 + fields_bytes(f1)) by {
            assert(bodies_of(self.attributes@) =~= KeyValueView::bodies(self@.attributes));
        }
        let ghost s1 = out@;
        write_member_fixed64(out, 2, self.start_time_unix_nano);
        assert(out@ == s0 + fields_bytes(p2)) by {
            lemma_written(s0, f1, f2, s1, out@);
        }
        let ghost s2 = out@;
        write_member_fixed64(out, 3, self.time_unix_nano);
        assert(out@ == s0 + fields_bytes(p3)) by {
            lemma_written(s0, p2, f3, s2, out@);
        }
        let ghost s3 = out@;
        write_member_fixed64(out, 4, self.count);
        assert(out@ == s0 + fields_bytes(p4)) by {
            lemma_written(s0, p3, f4, s3, out@);
        }
        let ghost s4 = out@;
        write_member_fixed64(out, 5, self.sum);
        assert(out@ == s0 + fields_bytes(p5)) by {
            lemma_written(s0, p4, f5, s4, out@);
        }
        let ghost s5 = out@;
        write_member_packed_fixed64(out, 6, &self.bucket_counts);
        assert(out@ == s0 + fields_bytes(p6)) by {
            lemma_written(s0, p5, f6, s5, out@);
        }
        let ghost s6 = out@;
        write_member_packed_fixed64(out, 7, &self.explicit_bounds);
        assert(out@ == s0 + fields_bytes(p7)) by {
            lemma_written(s0, p6, f7, s6, out@);
        }
        let ghost s7 = out@;
        write_repeated(out, 8, &self.exemplars);
        assert(out@ == s0 + fields_bytes(p8)) by {
            assert(bodies_of(self.exemplars@) =~= ExemplarView::bodies(self@.exemplars));
            lemma_written(s0, p7, f8, s7, out@);
        }
        let ghost s8 = out@;
        write_member_varint(out, 10, self.flags as u64);
        assert(out@ == s0 + fields_bytes(p9)) by {
            lemma_written(s0, p8, f9, s8, out@);
        }
        let ghost s9 = out@;
        write_member_fixed64(out, 11, self.min);
        assert(out@ == s0 + fields_bytes(p10)) by {
            lemma_written(s0, p9, f10, s9, out@);
        }
        let ghost s10 = out@;
        write_member_fixed64(out, 12, self.max);
        assert(out@ == s0 + fields_bytes(p11)) by {
            lemma_written(s0, p10, f11, s10, out@);
        }
        proof {
            reveal(HistogramDataPointView::wire);
        }
    }

    /// The message with its length in front. The body of a message in memory is short
    /// enough for its length to be written.
    pub fn encode(&self) -> (r: Vec<u8>)
        ensures
            r@ == framed(self@.wire()),
            self@.wire().len() <= u64::MAX,
    {
        let body = self.to_bytes();
        assert(body@.len() == body.len());
        frame(body.as_slice())
    }

    /// Decodes the message that stands, its length in front, at the start of `bytes`.
    /// What follows the message is not read.
    pub fn decode(bytes: &'a [u8]) -> (r: Result<Self, Error>)
        ensures
            match parse_framed(bytes@) {
                Some(body) => match HistogramDataPointView::decode(body) {
                    Some(v) => r matches Ok(m) && m@ == v,
                    None => r == Err::<Self, Error>(Error::InvalidProtobuf),
                },
                None => r == Err::<Self, Error>(Error::InvalidProtobuf),
            },
    {
        match unframe(bytes) {
            Some(body) => Self::from_bytes(body),
            None => Err(Error::InvalidProtobuf),
        }
    }
}

impl<'a> Message for HistogramDataPoint<'a> {
    open spec fn wire_of(v: HistogramDataPointView) -> Seq<u8> {
        v.wire()
    }

    fn to_bytes(&self) -> (r: Vec<u8>)
        ensures
            r@ == self@.wire(),
    {
        let mut out: Vec<u8> = Vec::new();
        self.write(&mut out);
        assert(out@ =~= self@.wire());
        out
    }
}

impl ExponentialHistogramDataPointBuckets {
    /// Merges one field that was read into the message. Returns whether the field was
    /// in order; if not, the message is left in no particular state.
    fn merge_field<'b>(&mut self, field: FieldRef<'b>) -> (ok: bool)
        ensures
            match ExponentialHistogramDataPointBucketsView::merge(old(self)@, field@) {
                Some(v) => ok && final(self)@ == v,
                None => !ok,
            },
    {
        match field.chunk {
            Chunk::Varint(x) => {
                if field.number == 1 {
                    self.offset = zigzag32_decode(low32_of(x));
                    true
                } else if field.number == 2 {
                    self.bucket_counts.push(x);
                    true
                } else {
                    true
                }
            },
            Chunk::Fixed64(_) => true,
            Chunk::Fixed32(_) => true,
            Chunk::Run(r) => {
                if field.number == 2 {
                    read_packed_varints(r, &mut self.bucket_counts)
                } else {
                    true
                }
            },
        }
    }

    /// Decodes a message body. Members whose fields are missing are at their zero
    /// value, and fields of no member are passed over.
    pub fn from_bytes(bytes: &[u8]) -> (r: Result<Self, Error>)
        ensures
            match ExponentialHistogramDataPointBucketsView::decode(bytes@) {
                Some(v) => r matches Ok(m) && m@ == v,
                None => r == Err::<Self, Error>(Error::InvalidProtobuf),
            },
    {
        reveal(ExponentialHistogramDataPointBucketsView::decode);
        let mut msg = Self::default();
        let mut pos: usize = 0;
        let ghost merge = ExponentialHistogramDataPointBucketsView::merge_fn();
        assert(bytes@.skip(0) =~= bytes@);
        while pos < bytes.len()
            invariant
                pos <= bytes@.len(),
                bytes@.len() == bytes.len(),
                merge == ExponentialHistogramDataPointBucketsView::merge_fn(),
                decode_with(merge, msg@, bytes@.skip(pos as int))
                    == ExponentialHistogramDataPointBucketsView::decode(bytes@),
            decreases bytes.len() - pos,
        {
            proof {
                lemma_decode_step(merge, msg@, bytes@.skip(pos as int));
            }
            match read_field(bytes, pos) {
                Some((field, next)) => {
                    if !msg.merge_field(field) {
                        return Err(Error::InvalidProtobuf);
                    }
                    assert(bytes@.skip(pos as int).skip(next - pos) =~= bytes@.skip(next as int));
                    pos = next;
                },
                None => {
                    return Err(Error::InvalidProtobuf);
                },
            }
        }
        proof {
            lemma_decode_empty(merge, msg@, bytes@.skip(pos as int));
        }
        Ok(msg)
    }

    /// Appends the body of the message to `out`: every member that is not at its zero
    /// value, in the order of the schema.
    pub fn write(&self, out: &mut Vec<u8>)
        ensures
            final(out)@ == old(out)@ + self@.wire(),
    {
        let ghost s0 = out@;
        let ghost f1 = varint_member(1, zigzag32(self@.offset) as u64);
        let ghost f2 = repeated_varints(2, self@.bucket_counts);
        let ghost p2 = f1 + f2;
        write_member_varint(out, 1, zigzag32_encode(self.offset) as u64);
        let ghost s1 = out@;
        write_repeated_varints(out, 2, &self.bucket_counts);
        assert(out@ == s0 + fields_bytes(p2)) by {
            lemma_written(s0, f1, f2, s1, out@);
        }
        proof {
            reveal(ExponentialHistogramDataPointBucketsView::wire);
        }
    }

    /// The message with its length in front. The body of a message in memory is short
    /// enough for its length to be written.
    pub fn encode(&self) -> (r: Vec<u8>)
        ensures
            r@ == framed(self@.wire()),
            self@.wire().len() <= u64::MAX,
    {
        let body = self.to_bytes();
        assert(body@.len() == body.len());
        frame(body.as_slice())
    }

    /// Decodes the message that stands, its length in front, at the start of `bytes`.
    /// What follows the message is not read.
    pub fn decode(bytes: &[u8]) -> (r: Result<Self, Error>)
        ensures
            match parse_framed(bytes@) {
                Some(body) => match ExponentialHistogramDataPointBucketsView::decode(body) {
                    Some(v) => r matches Ok(m) && m@ == v,
                    None => r == Err::<Self, Error>(Error::InvalidProtobuf),
                },
                None => r == Err::<Self, Error>(Error::InvalidProtobuf),
            },
    {
        match unframe(bytes) {
            Some(body) => Self::from_bytes(body),
            None => Err(Error::InvalidProtobuf),
        }
    }
}

impl Message for ExponentialHistogramDataPointBuckets {
    open spec fn wire_of(v: ExponentialHistogramDataPointBucketsView) -> Seq<u8> {
        v.wire()
    }

    fn to_bytes(&self) -> (r: Vec<u8>)
        ensures
            r@ == self@.wire(),
    {
        let mut out: Vec<u8> = Vec::new();
        self.write(&mut out);
        assert(out@ =~= self@.wire());
        out
    }
}

impl<'a> ExponentialHistogramDataPoint<'a> {
    /// Merges one field that was read into the message. Returns whether the field was
    /// in order; if not, the message is left in no particular state.
    fn merge_field(&mut self, field: FieldRef<'a>) -> (ok: bool)
        ensures
            match ExponentialHistogramDataPointView::merge(old(self)@, field@) {
                Some(v) => ok && final(self)@ == v,
                None => !ok,
            },
    {
        match field.chunk {
            Chunk::Varint(x) => {
                if field.number == 6 {
                    self.scale = zigzag32_decode(low32_of(x));
                    true
                } else if field.number == 10 {
                    self.flags = low32_of(x);
                    true
                } else {
                    true
                }
            },
            Chunk::Fixed64(x) => {
                if field.number == 2 {
                    self.start_time_unix_nano = x;
                    true
                } else if field.number == 3 {
                    self.time_unix_nano = x;
                    true
                } else if field.number == 4 {
                    self.count = x;
                    true
                } else if field.number == 5 {
                    self.sum = x;
                    true
                } else if field.number == 7 {
                    self.zero_count = x;
                    true
                } else if field.number == 12 {
                    self.min = x;
                    true
                } else if field.number == 13 {
                    self.max = x;
                    true
                } else if field.number == 14 {
                    self.zero_threshold = x;
                    true
                } else {
                    true
                }
            },
            Chunk::Fixed32(_) => true,
            Chunk::Run(r) => {
                if field.number == 1 {
                    match KeyValue::from_bytes(r) {
                        Ok(item) => {
                            self.attributes.push(item);
                            assert(self@.attributes =~= old(self)@.attributes.push(item@));
                            true
                        },
                        Err(_) => false,
                    }
                } else if field.number == 8 {
                    match ExponentialHistogramDataPointBuckets::from_bytes(r) {
                        Ok(item) => {
                            self.positive = Some(item);
                            true
                        },
                        Err(_) => false,
                    }
                } else if field.number == 9 {
                    match ExponentialHistogramDataPointBuckets::from_bytes(r) {
                        Ok(item) => {
                            self.negative = Some(item);
                            true
                        },
                        Err(_) => false,
                    }
                } else if field.number == 11 {
                    match Exemplar::from_bytes(r) {
                        Ok(item) => {
                            self.exemplars.push(item);
                            assert(self@.exemplars =~= old(self)@.exemplars.push(item@));
                            true
                        },
                        Err(_) => false,
                    }
                } else {
                    true
                }
            },
        }
    }

    /// Decodes a message body. Members whose fields are missing are at their zero
    /// value, and fields of no member are passed over.
    pub fn from_bytes(bytes: &'a [u8]) -> (r: Result<Self, Error>)
        ensures
            match ExponentialHistogramDataPointView::decode(bytes@) {
                Some(v) => r matches Ok(m) && m@ == v,
                None => r == Err::<Self, Error>(Error::InvalidProtobuf),
            },
    {
        reveal(ExponentialHistogramDataPointView::decode);
        let mut msg = Self::default();
        let mut pos: usize = 0;
        let ghost merge = ExponentialHistogramDataPointView::merge_fn();
        assert(bytes@.skip(0) =~= bytes@);
        while pos < bytes.len()
            invariant
                pos <= bytes@.len(),
                bytes@.len() == bytes.len(),
                merge == ExponentialHistogramDataPointView::merge_fn(),
                decode_with(merge, msg@, bytes@.skip(pos as int))
                    == ExponentialHistogramDataPointView::decode(bytes@),
            decreases bytes.len() - pos,
        {
            proof {
                lemma_decode_step(merge, msg@, bytes@.skip(pos as int));
            }
            match read_field(bytes, pos) {
                Some((field, next)) => {
                    if !msg.merge_field(field) {
                        return Err(Error::InvalidProtobuf);
                    }
                    assert(bytes@.skip(pos as int).skip(next - pos) =~= bytes@.skip(next as int));
                    pos = next;
                },
                None => {
                    return Err(Error::InvalidProtobuf);
                },
            }
        }
        proof {
            lemma_decode_empty(merge, msg@, bytes@.skip(pos as int));
        }
        Ok(msg)
    }

    /// Appends the body of the message to `out`: every member that is not at its zero
    /// value, in the order of the schema.
    pub fn write(&self, out: &mut Vec<u8>)
        ensures
            final(out)@ == old(out)@ + self@.wire(),
    {
        let ghost s0 = out@;
        let ghost f1 = KeyValueView::repeated(1, self@.attributes);
        let ghost f2 = fixed64_member(2, self@.start_time_unix_nano);
        let ghost f3 = fixed64_member(3, self@.time_unix_nano);
        let ghost f4 = fixed64_member(4, self@.count);
        let ghost f5 = fixed64_member(5, self@.sum);
        let ghost f6 = varint_member(6, zigzag32(self@.scale) as u64);
        let ghost f7 = fixed64_member(7, self@.zero_count);
        let ghost f8 = ExponentialHistogramDataPointBucketsView::optional(8, self@.positive);
        let ghost f9 = ExponentialHistogramDataPointBucketsView::optional(9, self@.negative);
        let ghost f10 = varint_member(10, self@.flags as u64);
        let ghost f11 = ExemplarView::repeated(11, self@.exemplars);
        let ghost f12 = fixed64_member(12, self@.min);
        let ghost f13 = fixed64_member(13, self@.max);
        let ghost f14 = fixed64_member(14, self@.zero_threshold);
        let ghost p2 = f1 + f2;
        let ghost p3 = p2 + f3;
        let ghost p4 = p3 + f4;
        let ghost p5 = p4 + f5;
        let ghost p6 = p5 + f6;
        let ghost p7 = p6 + f7;
        let ghost p8 = p7 + f8;
        let ghost p9 = p8 + f9;
        let ghost p10 = p9 + f10;
        let ghost p11 = p10 + f11;
        let ghost p12 = p11 + f12;
        let ghost p13 = p12 + f13;
        let ghost p14 = p13 + f14;
        write_repeated(out, 1, &self.attributes);
        assert(out@ == s0 + fields_bytes(f1)) by {
            assert(bodies_of(self.attributes@) =~= KeyValueView::bodies(self@.attributes));
        }
        let ghost s1 = out@;
        write_member_fixed64(out, 2, self.start_time_unix_nano);
        assert(out@ == s0 + fields_bytes(p2)) by {
            lemma_written(s0, f1, f2, s1, out@);
        }
        let ghost s2 = out@;
        write_member_fixed64(out, 3, self.time_unix_nano);
        assert(out@ == s0 + fields_bytes(p3)) by {
            lemma_written(s0, p2, f3, s2, out@);
        }
        let ghost s3 = out@;
        write_member_fixed64(out, 4, self.count);
        assert(out@ == s0 + fields_bytes(p4)) by {
            lemma_written(s0, p3, f4, s3, out@);
        }
        let ghost s4 = out@;
        write_member_fixed64(out, 5, self.sum);
        assert(out@ == s0 + fields_bytes(p5)) by {
            lemma_written(s0, p4, f5, s4, out@);
        }
        let ghost s5 = out@;
        write_member_varint(out, 6, zigzag32_encode(self.scale) as u64);
        assert(out@ == s0 + fields_bytes(p6)) by {
            lemma_written(s0, p5, f6, s5, out@);
        }
        let ghost s6 = out@;
        write_member_fixed64(out, 7, self.zero_count);
        assert(out@ == s0 + fields_bytes(p7)) by {
            lemma_written(s0, p6, f7, s6, out@);
        }
        let ghost s7 = out@;
        write_optional(out, 8, &self.positive);
        assert(out@ == s0 + fields_bytes(p8)) by {
            assert(body_of(self.positive) == match self@.positive {
                Some(x) => Some(x.wire()),
                None => None,
            });
            lemma_written(s0, p7, f8, s7, out@);
        }
        let ghost s8 = out@;
        write_optional(out, 9, &self.negative);
        assert(out@ == s0 + fields_bytes(p9)) by {
            assert(body_of(self.negative) == match self@.negative {
                Some(x) => Some(x.wire()),
                None => None,
            });
            lemma_written(s0, p8, f9, s8, out@);
        }
        let ghost s9 = out@;
        write_member_varint(out, 10, self.flags as u64);
        assert(out@ == s0 + fields_bytes(p10)) by {
            lemma_written(s0, p9, f10, s9, out@);
        }
        let ghost s10 = out@;
        write_repeated(out, 11, &self.exemplars);
        assert(out@ == s0 + fields_bytes(p11)) by {
            assert(bodies_of(self.exemplars@) =~= ExemplarView::bodies(self@.exemplars));
            lemma_written(s0, p10, f11, s10, out@);
        }
        let ghost s11 = out@;
        write_member_fixed64(out, 12, self.min);
        assert(out@ == s0 + fields_bytes(p12)) by {
            lemma_written(s0, p11, f12, s11, out@);
        }
        let ghost s12 = out@;
        write_member_fixed64(out, 13, self.max);
        assert(out@ == s0 + fields_bytes(p13)) by {
            lemma_written(s0, p12, f13, s12, out@);
        }
        let ghost s13 = out@;
        write_member_fixed64(out, 14, self.zero_threshold);
        assert(out@ == s0 + fields_bytes(p14)) by {
            lemma_written(s0, p13, f14, s13, out@);
        }
        proof {
            reveal(ExponentialHistogramDataPointView::wire);
        }
    }

    /// The message with its length in front. The body of a message in memory is short
    /// enough for its length to be written.
    pub fn encode(&self) -> (r: Vec<u8>)
        ensures
            r@ == framed(self@.wire()),
            self@.wire().len() <= u64::MAX,
    {
        let body = self.to_bytes();
        assert(body@.len() == body.len());
        frame(body.as_slice())
    }

    /// Decodes the message that stands, its length in front, at the start of `bytes`.
    /// What follows the message is not read.
    pub fn decode(bytes: &'a [u8]) -> (r: Result<Self, Error>)
        ensures
            match parse_framed(bytes@) {
                Some(body) => match ExponentialHistogramDataPointView::decode(body) {
                    Some(v) => r matches Ok(m) && m@ == v,
                    None => r == Err::<Self, Error>(Error::InvalidProtobuf),
                },
                None => r == Err::<Self, Error>(Error::InvalidProtobuf),
            },
    {
        match unframe(bytes) {
            Some(body) => Self::from_bytes(body),
            None => Err(Error::InvalidProtobuf),
        }
    }
}

impl<'a> Message for ExponentialHistogramDataPoint<'a> {
    open spec fn wire_of(v: ExponentialHistogramDataPointView) -> Seq<u8> {
        v.wire()
    }

    fn to_bytes(&self) -> (r: Vec<u8>)
        ensures
            r@ == self@.wire(),
    {
        let mut out: Vec<u8> = Vec::new();
        self.write(&mut out);
        assert(out@ =~= self@.wire());
        out
    }
}

impl SummaryDataPointValueAtQuantile {
    /// Merges one field that was read into the message. Returns whether the field was
    /// in order; if not, the message is left in no particular state.
    fn merge_field<'b>(&mut self, field: FieldRef<'b>) -> (ok: bool)
        ensures
            match SummaryDataPointValueAtQuantileView::merge(old(self)@, field@) {
                Some(v) => ok && final(self)@ == v,
                None => !ok,
            },
    {
        match field.chunk {
            Chunk::Varint(_) => true,
            Chunk::Fixed64(x) => {
                if field.number == 1 {
                    self.quantile = x;
                    true
                } else if field.number == 2 {
                    self.value = x;
                    true
                } else {
                    true
                }
            },
            Chunk::Fixed32(_) => true,
            Chunk::Run(_) => true,
        }
    }

    /// Decodes a message body. Members whose fields are missing are at their zero
    /// value, and fields of no member are passed over.
    pub fn from_bytes(bytes: &[u8]) -> (r: Result<Self, Error>)
        ensures
            match SummaryDataPointValueAtQuantileView::decode(bytes@) {
                Some(v) => r matches Ok(m) && m@ == v,
                None => r == Err::<Self, Error>(Error::InvalidProtobuf),
            },
    {
        reveal(SummaryDataPointValueAtQuantileView::decode);
        let mut msg = Self::default();
        let mut pos: usize = 0;
        let ghost merge = SummaryDataPointValueAtQuantileView::merge_fn();
        assert(bytes@.skip(0) =~= bytes@);
        while pos < bytes.len()
            invariant
                pos <= bytes@.len(),
                bytes@.len() == bytes.len(),
                merge == SummaryDataPointValueAtQuantileView::merge_fn(),
                decode_with(merge, msg@, bytes@.skip(pos as int))
                    == SummaryDataPointValueAtQuantileView::decode(bytes@),
            decreases bytes.len() - pos,
        {
            proof {
                lemma_decode_step(merge, msg@, bytes@.skip(pos as int));
            }
            match read_field(bytes, pos) {
                Some((field, next)) => {
                    if !msg.merge_field(field) {
                        return Err(Error::InvalidProtobuf);
                    }
                    assert(bytes@.skip(pos as int).skip(next - pos) =~= bytes@.skip(next as int));
                    pos = next;
                },
                None => {
                    return Err(Error::InvalidProtobuf);
                },
            }
        }
        proof {
            lemma_decode_empty(merge, msg@, bytes@.skip(pos as int));
        }
        Ok(msg)
    }

    /// Appends the body of the message to `out`: every member that is not at its zero
    /// value, in the order of the schema.
    pub fn write(&self, out: &mut Vec<u8>)
        ensures
            final(out)@ == old(out)@ + self@.wire(),
    {
        let ghost s0 = out@;
        let ghost f1 = fixed64_member(1, self@.quantile);
        let ghost f2 = fixed64_member(2, self@.value);
        let ghost p2 = f1 + f2;
        write_member_fixed64(out, 1, self.quantile);
        let ghost s1 = out@;
        write_member_fixed64(out, 2, self.value);
        assert(out@ == s0 + fields_bytes(p2)) by {
            lemma_written(s0, f1, f2, s1, out@);
        }
        proof {
            reveal(SummaryDataPointValueAtQuantileView::wire);
        }
    }

    /// The message with its length in front. The body of a message in memory is short
    /// enough for its length to be written.
    pub fn encode(&self) -> (r: Vec<u8>)
        ensures
            r@ == framed(self@.wire()),
            self@.wire().len() <= u64::MAX,
    {
        let body = self.to_bytes();
        assert(body@.len() == body.len());
        frame(body.as_slice())
    }

    /// Decodes the message that stands, its length in front, at the start of `bytes`.
    /// What follows the message is not read.
    pub fn decode(bytes: &[u8]) -> (r: Result<Self, Error>)
        ensures
            match parse_framed(bytes@) {
                Some(body) => match SummaryDataPointValueAtQuantileView::decode(body) {
                    Some(v) => r matches Ok(m) && m@ == v,
                    None => r == Err::<Self, Error>(Error::InvalidProtobuf),
                },
                None => r == Err::<Self, Error>(Error::InvalidProtobuf),
            },
    {
        match unframe(bytes) {
            Some(body) => Self::from_bytes(body),
            None => Err(Error::InvalidProtobuf),
        }
    }
}

impl Message for SummaryDataPointValueAtQuantile {
    open spec fn wire_of(v: SummaryDataPointValueAtQuantileView) -> Seq<u8> {
        v.wire()
    }

    fn to_bytes(&self) -> (r: Vec<u8>)
        ensures
            r@ == self@.wire(),
    {
        let mut out: Vec<u8> = Vec::new();
        self.write(&mut out);
        assert(out@ =~= self@.wire());
        out
    }
}

impl<'a> SummaryDataPoint<'a> {
    /// Merges one field that was read into the message. Returns whether the field was
    /// in order; if not, the message is left in no particular state.
    fn merge_field(&mut self, field: FieldRef<'a>) -> (ok: bool)
        ensures
            match SummaryDataPointView::merge(old(self)@, field@) {
                Some(v) => ok && final(self)@ == v,
                None => !ok,
            },
    {
        match field.chunk {
            Chunk::Varint(x) => {
                if field.number == 8 {
                    self.flags = low32_of(x);
                    true
                } else {
                    true
                }
            },
            Chunk::Fixed64(x) => {
                if field.number == 2 {
                    self.start_time_unix_nano = x;
                    true
                } else if field.number == 3 {
                    self.time_unix_nano = x;
                    true
                } else if field.number == 4 {
                    self.count = x;
                    true
                } else if field.number == 5 {
                    self.sum = x;
                    true
                } else {
                    true
                }
            },
            Chunk::Fixed32(_) => true,
            Chunk::Run(r) => {
                if field.number == 7 {
                    match KeyValue::from_bytes(r) {
                        Ok(item) => {
                            self.attributes.push(item);
                            assert(self@.attributes =~= old(self)@.attributes.push(item@));
                            true
                        },
                        Err(_) => false,
                    }
                } else if field.number == 6 {
                    match SummaryDataPointValueAtQuantile::from_bytes(r) {
                        Ok(item) => {
                            self.quantile_values.push(item);
                            assert(
                                self@.quantile_values =~= old(self)@.quantile_values.push(item@)
                            );
                            true
                        },
                        Err(_) => false,
                    }
                } else {
                    true
                }
            },
        }
    }

    /// Decodes a message body. Members whose fields are missing are at their zero
    /// value, and fields of no member are passed over.
    pub fn from_bytes(bytes: &'a [u8]) -> (r: Result<Self, Error>)
        ensures
            match SummaryDataPointView::decode(bytes@) {
                Some(v) => r matches Ok(m) && m@ == v,
                None => r == Err::<Self, Error>(Error::InvalidProtobuf),
            },
    {
        reveal(SummaryDataPointView::decode);
        let mut msg = Self::default();
        let mut pos: usize = 0;
        let ghost merge = SummaryDataPointView::merge_fn();
        assert(bytes@.skip(0) =~= bytes@);
        while pos < bytes.len()
            invariant
                pos <= bytes@.len(),
                bytes@.len() == bytes.len(),
                merge == SummaryDataPointView::merge_fn(),
                decode_with(merge, msg@, bytes@.skip(pos as int)) == SummaryDataPointView::decode(
                    bytes@,
                ),
            decreases bytes.len() - pos,
        {
            proof {
                lemma_decode_step(merge, msg@, bytes@.skip(pos as int));
            }
            match read_field(bytes, pos) {
                Some((field, next)) => {
                    if !msg.merge_field(field) {
                        return Err(Error::InvalidProtobuf);
                    }
                    assert(bytes@.skip(pos as int).skip(next - pos) =~= bytes@.skip(next as int));
                    pos = next;
                },
                None => {
                    return Err(Error::InvalidProtobuf);
                },
            }
        }
        proof {
            lemma_decode_empty(merge, msg@, bytes@.skip(pos as int));
        }
        Ok(msg)
    }

    /// Appends the body of the message to `out`: every member that is not at its zero
    /// value, in the order of the schema.
    pub fn write(&self, out: &mut Vec<u8>)
        ensures
            final(out)@ == old(out)@ + self@.wire(),
    {
        let ghost s0 = out@;
        let ghost f1 = KeyValueView::repeated(7, self@.attributes);
        let ghost f2 = fixed64_member(2, self@.start_time_unix_nano);
        let ghost f3 = fixed64_member(3, self@.time_unix_nano);
        let ghost f4 = fixed64_member(4, self@.count);
        let ghost f5 = fixed64_member(5, self@.sum);
        let ghost f6 = SummaryDataPointValueAtQuantileView::repeated(6, self@.quantile_values);
        let ghost f7 = varint_member(8, self@.flags as u64);
        let ghost p2 = f1 + f2;
        let ghost p3 = p2 + f3;
        let ghost p4 = p3 + f4;
        let ghost p5 = p4 + f5;
        let ghost p6 = p5 + f6;
        let ghost p7 = p6 + f7;
        write_repeated(out, 7, &self.attributes);
        assert(out@ == s0 + fields_bytes(f1)) by {
            assert(bodies_of(self.attributes@) =~= KeyValueView::bodies(self@.attributes));
        }
        let ghost s1 = out@;
        write_member_fixed64(out, 2, self.start_time_unix_nano);
        assert(out@ == s0 + fields_bytes(p2)) by {
            lemma_written(s0, f1, f2, s1, out@);
        }
        let ghost s2 = out@;
        write_member_fixed64(out, 3, self.time_unix_nano);
        assert(out@ == s0 + fields_bytes(p3)) by {
            lemma_written(s0, p2, f3, s2, out@);
        }
        let ghost s3 = out@;
        write_member_fixed64(out, 4, self.count);
        assert(out@ == s0 + fields_bytes(p4)) by {
            lemma_written(s0, p3, f4, s3, out@);
        }
        let ghost s4 = out@;
        write_member_fixed64(out, 5, self.sum);
        assert(out@ == s0 + fields_bytes(p5)) by {
            lemma_written(s0, p4, f5, s4, out@);
        }
        let ghost s5 = out@;
        write_repeated(out, 6, &self.quantile_values);
        assert(out@ == s0 + fields_bytes(p6)) by {
            assert(
                bodies_of(self.quantile_values@) =~= SummaryDataPointValueAtQuantileView::bodies(
                    self@.quantile_values,
                )
            );
            lemma_written(s0, p5, f6, s5, out@);
        }
        let ghost s6 = out@;
        write_member_varint(out, 8, self.flags as u64);
        assert(out@ == s0 + fields_bytes(p7)) by {
            lemma_written(s0, p6, f7, s6, out@);
        }
        proof {
            reveal(SummaryDataPointView::wire);
        }
    }

    /// The message with its length in front. The body of a message in memory is short
    /// enough for its length to be written.
    pub fn encode(&self) -> (r: Vec<u8>)
        ensures
            r@ == framed(self@.wire()),
            self@.wire().len() <= u64::MAX,
    {
        let body = self.to_bytes();
        assert(body@.len() == body.len());
        frame(body.as_slice())
    }

    /// Decodes the message that stands, its length in front, at the start of `bytes`.
    /// What follows the message is not read.
    pub fn decode(bytes: &'a [u8]) -> (r: Result<Self, Error>)
        ensures
            match parse_framed(bytes@) {
                Some(body) => match SummaryDataPointView::decode(body) {
                    Some(v) => r matches Ok(m) && m@ == v,
                    None => r == Err::<Self, Error>(Error::InvalidProtobuf),
                },
                None => r == Err::<Self, Error>(Error::InvalidProtobuf),
            },
    {
        match unframe(bytes) {
            Some(body) => Self::from_bytes(body),
            None => Err(Error::InvalidProtobuf),
        }
    }
}

impl<'a> Message for SummaryDataPoint<'a> {
    open spec fn wire_of(v: SummaryDataPointView) -> Seq<u8> {
        v.wire()
    }

    fn to_bytes(&self) -> (r: Vec<u8>)
        ensures
            r@ == self@.wire(),
    {
        let mut out: Vec<u8> = Vec::new();
        self.write(&mut out);
        assert(out@ =~= self@.wire());
        out
    }
}

impl<'a> Gauge<'a> {
    /// Merges one field that was read into the message. Returns whether the field was
    /// in order; if not, the message is left in no particular state.
    fn merge_field(&mut self, field: FieldRef<'a>) -> (ok: bool)
        ensures
            match GaugeView::merge(old(self)@, field@) {
                Some(v) => ok && final(self)@ == v,
                None => !ok,
            },
    {
        match field.chunk {
            Chunk::Varint(_) => true,
            Chunk::Fixed64(_) => true,
            Chunk::Fixed32(_) => true,
            Chunk::Run(r) => {
                if field.number == 1 {
                    match NumberDataPoint::from_bytes(r) {
                        Ok(item) => {
                            self.data_points.push(item);
                            assert(self@.data_points =~= old(self)@.data_points.push(item@));
                            true
                        },
                        Err(_) => false,
                    }
                } else {
                    true
                }
            },
        }
    }

    /// Decodes a message body. Members whose fields are missing are at their zero
    /// value, and fields of no member are passed over.
    pub fn from_bytes(bytes: &'a [u8]) -> (r: Result<Self, Error>)
        ensures
            match GaugeView::decode(bytes@) {
                Some(v) => r matches Ok(m) && m@ == v,
                None => r == Err::<Self, Error>(Error::InvalidProtobuf),
            },
    {
        reveal(GaugeView::decode);
        let mut msg = Self::default();
        let mut pos: usize = 0;
        let ghost merge = GaugeView::merge_fn();
        assert(bytes@.skip(0) =~= bytes@);
        while pos < bytes.len()
            invariant
                pos <= bytes@.len(),
                bytes@.len() == bytes.len(),
                merge == GaugeView::merge_fn(),
                decode_with(merge, msg@, bytes@.skip(pos as int)) == GaugeView::decode(bytes@),
            decreases bytes.len() - pos,
        {
            proof {
                lemma_decode_step(merge, msg@, bytes@.skip(pos as int));
            }
            match read_field(bytes, pos) {
                Some((field, next)) => {
                    if !msg.merge_field(field) {
                        return Err(Error::InvalidProtobuf);
                    }
                    assert(bytes@.skip(pos as int).skip(next - pos) =~= bytes@.skip(next as int));
                    pos = next;
                },
                None => {
                    return Err(Error::InvalidProtobuf);
                },
            }
        }
        proof {
            lemma_decode_empty(merge, msg@, bytes@.skip(pos as int));
        }
        Ok(msg)
    }

    /// Appends the body of the message to `out`: every member that is not at its zero
    /// value, in the order of the schema.
    pub fn write(&self, out: &mut Vec<u8>)
        ensures
            final(out)@ == old(out)@ + self@.wire(),
    {
        let ghost s0 = out@;
        let ghost f1 = NumberDataPointView::repeated(1, self@.data_points);
        write_repeated(out, 1, &self.data_points);
        assert(out@ == s0 + fields_bytes(f1)) by {
            assert(bodies_of(self.data_points@) =~= NumberDataPointView::bodies(self@.data_points));
        }
        proof {
            reveal(GaugeView::wire);
        }
    }

    /// The message with its length in front. The body of a message in memory is short
    /// enough for its length to be written.
    pub fn encode(&self) -> (r: Vec<u8>)
        ensures
            r@ == framed(self@.wire()),
            self@.wire().len() <= u64::MAX,
    {
        let body = self.to_bytes();
        assert(body@.len() == body.len());
        frame(body.as_slice())
    }

    /// Decodes the message that stands, its length in front, at the start of `bytes`.
    /// What follows the message is not read.
    pub fn decode(bytes: &'a [u8]) -> (r: Result<Self, Error>)
        ensures
            match parse_framed(bytes@) {
                Some(body) => match GaugeView::decode(body) {
                    Some(v) => r matches Ok(m) && m@ == v,
                    None => r == Err::<Self, Error>(Error::InvalidProtobuf),
                },
                None => r == Err::<Self, Error>(Error::InvalidProtobuf),
            },
    {
        match unframe(bytes) {
            Some(body) => Self::from_bytes(body),
            None => Err(Error::InvalidProtobuf),
        }
    }
}

impl<'a> Message for Gauge<'a> {
    open spec fn wire_of(v: GaugeView) -> Seq<u8> {
        v.wire()
    }

    fn to_bytes(&self) -> (r: Vec<u8>)
        ensures
            r@ == self@.wire(),
    {
        let mut out: Vec<u8> = Vec::new();
        self.write(&mut out);
        assert(out@ =~= self@.wire());
        out
    }
}

impl<'a> Sum<'a> {
    /// Merges one field that was read into the message. Returns whether the field was
    /// in order; if not, the message is left in no particular state.
    fn merge_field(&mut self, field: FieldRef<'a>) -> (ok: bool)
        ensures
            match SumView::merge(old(self)@, field@) {
                Some(v) => ok && final(self)@ == v,
                None => !ok,
            },
    {
        match field.chunk {
            Chunk::Varint(x) => {
                if field.number == 2 {
                    self.aggregation_temporality = AggregationTemporality::from_number(
                        low32_signed_of(x),
                    );
                    true
                } else if field.number == 3 {
                    self.is_monotonic = x != 0;
                    true
                } else {
                    true
                }
            },
            Chunk::Fixed64(_) => true,
            Chunk::Fixed32(_) => true,
            Chunk::Run(r) => {
                if field.number == 1 {
                    match NumberDataPoint::from_bytes(r) {
                        Ok(item) => {
                            self.data_points.push(item);
                            assert(self@.data_points =~= old(self)@.data_points.push(item@));
                            true
                        },
                        Err(_) => false,
                    }
                } else {
                    true
                }
            },
        }
    }

    /// Decodes a message body. Members whose fields are missing are at their zero
    /// value, and fields of no member are passed over.
    pub fn from_bytes(bytes: &'a [u8]) -> (r: Result<Self, Error>)
        ensures
            match SumView::decode(bytes@) {
                Some(v) => r matches Ok(m) && m@ == v,
                None => r == Err::<Self, Error>(Error::InvalidProtobuf),
            },
    {
        reveal(SumView::decode);
        let mut msg = Self::default();
        let mut pos: usize = 0;
        let ghost merge = SumView::merge_fn();
        assert(bytes@.skip(0) =~= bytes@);
        while pos < bytes.len()
            invariant
                pos <= bytes@.len(),
                bytes@.len() == bytes.len(),
                merge == SumView::merge_fn(),
                decode_with(merge, msg@, bytes@.skip(pos as int)) == SumView::decode(bytes@),
            decreases bytes.len() - pos,
        {
            proof {
                lemma_decode_step(merge, msg@, bytes@.skip(pos as int));
            }
            match read_field(bytes, pos) {
                Some((field, next)) => {
                    if !msg.merge_field(field) {
                        return Err(Error::InvalidProtobuf);
                    }
                    assert(bytes@.skip(pos as int).skip(next - pos) =~= bytes@.skip(next as int));
                    pos = next;
                },
                None => {
                    return Err(Error::InvalidProtobuf);
                },
            }
        }
        proof {
            lemma_decode_empty(merge, msg@, bytes@.skip(pos as int));
        }
        Ok(msg)
    }

    /// Appends the body of the message to `out`: every member that is not at its zero
    /// value, in the order of the schema.
    pub fn write(&self, out: &mut Vec<u8>)
        ensures
            final(out)@ == old(out)@ + self@.wire(),
    {
        let ghost s0 = out@;
        let ghost f1 = NumberDataPointView::repeated(1, self@.data_points);
        let ghost f2 = varint_member(2, self@.aggregation_temporality.spec_number() as u64);
        let ghost f3 = varint_member(3, if self@.is_monotonic { 1u64 } else { 0u64 });
        let ghost p2 = f1 + f2;
        let ghost p3 = p2 + f3;
        write_repeated(out, 1, &self.data_points);
        assert(out@ == s0 + fields_bytes(f1)) by {
            assert(bodies_of(self.data_points@) =~= NumberDataPointView::bodies(self@.data_points));
        }
        let ghost s1 = out@;
        write_member_varint(out, 2, self.aggregation_temporality.number() as u64);
        assert(out@ == s0 + fields_bytes(p2)) by {
            lemma_written(s0, f1, f2, s1, out@);
        }
        let ghost s2 = out@;
        write_member_varint(out, 3, if self.is_monotonic { 1 } else { 0 });
        assert(out@ == s0 + fields_bytes(p3)) by {
            lemma_written(s0, p2, f3, s2, out@);
        }
        proof {
            reveal(SumView::wire);
        }
    }

    /// The message with its length in front. The body of a message in memory is short
    /// enough for its length to be written.
    pub fn encode(&self) -> (r: Vec<u8>)
        ensures
            r@ == framed(self@.wire()),
            self@.wire().len() <= u64::MAX,
    {
        let body = self.to_bytes();
        assert(body@.len() == body.len());
        frame(body.as_slice())
    }

    /// Decodes the message that stands, its length in front, at the start of `bytes`.
    /// What follows the message is not read.
    pub fn decode(bytes: &'a [u8]) -> (r: Result<Self, Error>)
        ensures
            match parse_framed(bytes@) {
                Some(body) => match SumView::decode(body) {
                    Some(v) => r matches Ok(m) && m@ == v,
                    None => r == Err::<Self, Error>(Error::InvalidProtobuf),
                },
                None => r == Err::<Self, Error>(Error::InvalidProtobuf),
            },
    {
        match unframe(bytes) {
            Some(body) => Self::from_bytes(body),
            None => Err(Error::InvalidProtobuf),
        }
    }
}

impl<'a> Message for Sum<'a> {
    open spec fn wire_of(v: SumView) -> Seq<u8> {
        v.wire()
    }

    fn to_bytes(&self) -> (r: Vec<u8>)
        ensures
            r@ == self@.wire(),
    {
        let mut out: Vec<u8> = Vec::new();
        self.write(&mut out);
        assert(out@ =~= self@.wire());
        out
    }
}

impl<'a> Histogram<'a> {
    /// Merges one field that was read into the message. Returns whether the field was
    /// in order; if not, the message is left in no particular state.
    fn merge_field(&mut self, field: FieldRef<'a>) -> (ok: bool)
        ensures
            match HistogramView::merge(old(self)@, field@) {
                Some(v) => ok && final(self)@ == v,
                None => !ok,
            },
    {
        match field.chunk {
            Chunk::Varint(x) => {
                if field.number == 2 {
                    self.aggregation_temporality = AggregationTemporality::from_number(
                        low32_signed_of(x),
                    );
                    true
                } else {
                    true
                }
            },
            Chunk::Fixed64(_) => true,
            Chunk::Fixed32(_) => true,
            Chunk::Run(r) => {
                if field.number == 1 {
                    match HistogramDataPoint::from_bytes(r) {
                        Ok(item) => {
                            self.data_points.push(item);
                            assert(self@.data_points =~= old(self)@.data_points.push(item@));
                            true
                        },
                        Err(_) => false,
                    }
                } else {
                    true
                }
            },
        }
    }

    /// Decodes a message body. Members whose fields are missing are at their zero
    /// value, and fields of no member are passed over.
    pub fn from_bytes(bytes: &'a [u8]) -> (r: Result<Self, Error>)
        ensures
            match HistogramView::decode(bytes@) {
                Some(v) => r matches Ok(m) && m@ == v,
                None => r == Err::<Self, Error>(Error::InvalidProtobuf),
            },
    {
        reveal(HistogramView::decode);
        let mut msg = Self::default();
        let mut pos: usize = 0;
        let ghost merge = HistogramView::merge_fn();
        assert(bytes@.skip(0) =~= bytes@);
        while pos < bytes.len()
            invariant
                pos <= bytes@.len(),
                bytes@.len() == bytes.len(),
                merge == HistogramView::merge_fn(),
                decode_with(merge, msg@, bytes@.skip(pos as int)) == HistogramView::decode(bytes@),
            decreases bytes.len() - pos,
        {
            proof {
                lemma_decode_step(merge, msg@, bytes@.skip(pos as int));
            }
            match read_field(bytes, pos) {
                Some((field, next)) => {
                    if !msg.merge_field(field) {
                        return Err(Error::InvalidProtobuf);
                    }
                    assert(bytes@.skip(pos as int).skip(next - pos) =~= bytes@.skip(next as int));
                    pos = next;
                },
                None => {
                    return Err(Error::InvalidProtobuf);
                },
            }
        }
        proof {
            lemma_decode_empty(merge, msg@, bytes@.skip(pos as int));
        }
        Ok(msg)
    }

    /// Appends the body of the message to `out`: every member that is not at its zero
    /// value, in the order of the schema.
    pub fn write(&self, out: &mut Vec<u8>)
        ensures
            final(out)@ == old(out)@ + self@.wire(),
    {
        let ghost s0 = out@;
        let ghost f1 = HistogramDataPointView::repeated(1, self@.data_points);
        let ghost f2 = varint_member(2, self@.aggregation_temporality.spec_number() as u64);
        let ghost p2 = f1 + f2;
        write_repeated(out, 1, &self.data_points);
        assert(out@ == s0 + fields_bytes(f1)) by {
            assert(
                bodies_of(self.data_points@) =~= HistogramDataPointView::bodies(self@.data_points)
            );
        }
        let ghost s1 = out@;
        write_member_varint(out, 2, self.aggregation_temporality.number() as u64);
        assert(out@ == s0 + fields_bytes(p2)) by {
            lemma_written(s0, f1, f2, s1, out@);
        }
        proof {
            reveal(HistogramView::wire);
        }
    }

    /// The message with its length in front. The body of a message in memory is short
    /// enough for its length to be written.
    pub fn encode(&self) -> (r: Vec<u8>)
        ensures
            r@ == framed(self@.wire()),
            self@.wire().len() <= u64::MAX,
    {
        let body = self.to_bytes();
        assert(body@.len() == body.len());
        frame(body.as_slice())
    }

    /// Decodes the message that stands, its length in front, at the start of `bytes`.
    /// What follows the message is not read.
    pub fn decode(bytes: &'a [u8]) -> (r: Result<Self, Error>)
        ensures
            match parse_framed(bytes@) {
                Some(body) => match HistogramView::decode(body) {
                    Some(v) => r matches Ok(m) && m@ == v,
                    None => r == Err::<Self, Error>(Error::InvalidProtobuf),
                },
                None => r == Err::<Self, Error>(Error::InvalidProtobuf),
            },
    {
        match unframe(bytes) {
            Some(body) => Self::from_bytes(body),
            None => Err(Error::InvalidProtobuf),
        }
    }
}

impl<'a> Message for Histogram<'a> {
    open spec fn wire_of(v: HistogramView) -> Seq<u8> {
        v.wire()
    }

    fn to_bytes(&self) -> (r: Vec<u8>)
        ensures
            r@ == self@.wire(),
    {
        let mut out: Vec<u8> = Vec::new();
        self.write(&mut out);
        assert(out@ =~= self@.wire());
        out
    }
}

impl<'a> ExponentialHistogram<'a> {
    /// Merges one field that was read into the message. Returns whether the field was
    /// in order; if not, the message is left in no particular state.
    fn merge_field(&mut self, field: FieldRef<'a>) -> (ok: bool)
        ensures
            match ExponentialHistogramView::merge(old(self)@, field@) {
                Some(v) => ok && final(self)@ == v,
                None => !ok,
            },
    {
        match field.chunk {
            Chunk::Varint(x) => {
                if field.number == 2 {
                    self.aggregation_temporality = AggregationTemporality::from_number(
                        low32_signed_of(x),
                    );
                    true
                } else {
                    true
                }
            },
            Chunk::Fixed64(_) => true,
            Chunk::Fixed32(_) => true,
            Chunk::Run(r) => {
                if field.number == 1 {
                    match ExponentialHistogramDataPoint::from_bytes(r) {
                        Ok(item) => {
                            self.data_points.push(item);
                            assert(self@.data_points =~= old(self)@.data_points.push(item@));
                            true
                        },
                        Err(_) => false,
                    }
                } else {
                    true
                }
            },
        }
    }

    /// Decodes a message body. Members whose fields are missing are at their zero
    /// value, and fields of no member are passed over.
    pub fn from_bytes(bytes: &'a [u8]) -> (r: Result<Self, Error>)
        ensures
            match ExponentialHistogramView::decode(bytes@) {
                Some(v) => r matches Ok(m) && m@ == v,
                None => r == Err::<Self, Error>(Error::InvalidProtobuf),
            },
    {
        reveal(ExponentialHistogramView::decode);
        let mut msg = Self::default();
        let mut pos: usize = 0;
        let ghost merge = ExponentialHistogramView::merge_fn();
        assert(bytes@.skip(0) =~= bytes@);
        while pos < bytes.len()
            invariant
                pos <= bytes@.len(),
                bytes@.len() == bytes.len(),
                merge == ExponentialHistogramView::merge_fn(),
                decode_with(merge, msg@, bytes@.skip(pos as int))
                    == ExponentialHistogramView::decode(bytes@),
            decreases bytes.len() - pos,
        {
            proof {
                lemma_decode_step(merge, msg@, bytes@.skip(pos as int));
            }
            match read_field(bytes, pos) {
                Some((field, next)) => {
                    if !msg.merge_field(field) {
                        return Err(Error::InvalidProtobuf);
                    }
                    assert(bytes@.skip(pos as int).skip(next - pos) =~= bytes@.skip(next as int));
                    pos = next;
                },
                None => {
                    return Err(Error::InvalidProtobuf);
                },
            }
        }
        proof {
            lemma_decode_empty(merge, msg@, bytes@.skip(pos as int));
        }
        Ok(msg)
    }

    /// Appends the body of the message to `out`: every member that is not at its zero
    /// value, in the order of the schema.
    pub fn write(&self, out: &mut Vec<u8>)
        ensures
            final(out)@ == old(out)@ + self@.wire(),
    {
        let ghost s0 = out@;
        let ghost f1 = ExponentialHistogramDataPointView::repeated(1, self@.data_points);
        let ghost f2 = varint_member(2, self@.aggregation_temporality.spec_number() as u64);
        let ghost p2 = f1 + f2;
        write_repeated(out, 1, &self.data_points);
        assert(out@ == s0 + fields_bytes(f1)) by {
            assert(
                bodies_of(self.data_points@) =~= ExponentialHistogramDataPointView::bodies(
                    self@.data_points,
                )
            );
        }
        let ghost s1 = out@;
        write_member_varint(out, 2, self.aggregation_temporality.number() as u64);
        assert(out@ == s0 + fields_bytes(p2)) by {
            lemma_written(s0, f1, f2, s1, out@);
        }
        proof {
            reveal(ExponentialHistogramView::wire);
        }
    }

    /// The message with its length in front. The body of a message in memory is short
    /// enough for its length to be written.
    pub fn encode(&self) -> (r: Vec<u8>)
        ensures
            r@ == framed(self@.wire()),
            self@.wire().len() <= u64::MAX,
    {
        let body = self.to_bytes();
        assert(body@.len() == body.len());
        frame(body.as_slice())
    }

    /// Decodes the message that stands, its length in front, at the start of `bytes`.
    /// What follows the message is not read.
    pub fn decode(bytes: &'a [u8]) -> (r: Result<Self, Error>)
        ensures
            match parse_framed(bytes@) {
                Some(body) => match ExponentialHistogramView::decode(body) {
                    Some(v) => r matches Ok(m) && m@ == v,
                    None => r == Err::<Self, Error>(Error::InvalidProtobuf),
                },
                None => r == Err::<Self, Error>(Error::InvalidProtobuf),
            },
    {
        match unframe(bytes) {
            Some(body) => Self::from_bytes(body),
            None => Err(Error::InvalidProtobuf),
        }
    }
}

impl<'a> Message for ExponentialHistogram<'a> {
    open spec fn wire_of(v: ExponentialHistogramView) -> Seq<u8> {
        v.wire()
    }

    fn to_bytes(&self) -> (r: Vec<u8>)
        ensures
            r@ == self@.wire(),
    {
        let mut out: Vec<u8> = Vec::new();
        self.write(&mut out);
        assert(out@ =~= self@.wire());
        out
    }
}

impl<'a> Summary<'a> {
    /// Merges one field that was read into the message. Returns whether the field was
    /// in order; if not, the message is left in no particular state.
    fn merge_field(&mut self, field: FieldRef<'a>) -> (ok: bool)
        ensures
            match SummaryView::merge(old(self)@, field@) {
                Some(v) => ok && final(self)@ == v,
                None => !ok,
            },
    {
        match field.chunk {
            Chunk::Varint(_) => true,
            Chunk::Fixed64(_) => true,
            Chunk::Fixed32(_) => true,
            Chunk::Run(r) => {
                if field.number == 1 {
                    match SummaryDataPoint::from_bytes(r) {
                        Ok(item) => {
                            self.data_points.push(item);
                            assert(self@.data_points =~= old(self)@.data_points.push(item@));
                            true
                        },
                        Err(_) => false,
                    }
                } else {
                    true
                }
            },
        }
    }

    /// Decodes a message body. Members whose fields are missing are at their zero
    /// value, and fields of no member are passed over.
    pub fn from_bytes(bytes: &'a [u8]) -> (r: Result<Self, Error>)
        ensures
            match SummaryView::decode(bytes@) {
                Some(v) => r matches Ok(m) && m@ == v,
                None => r == Err::<Self, Error>(Error::InvalidProtobuf),
            },
    {
        reveal(SummaryView::decode);
        let mut msg = Self::default();
        let mut pos: usize = 0;
        let ghost merge = SummaryView::merge_fn();
        assert(bytes@.skip(0) =~= bytes@);
        while pos < bytes.len()
            invariant
                pos <= bytes@.len(),
                bytes@.len() == bytes.len(),
                merge == SummaryView::merge_fn(),
                decode_with(merge, msg@, bytes@.skip(pos as int)) == SummaryView::decode(bytes@),
            decreases bytes.len() - pos,
        {
            proof {
                lemma_decode_step(merge, msg@, bytes@.skip(pos as int));
            }
            match read_field(bytes, pos) {
                Some((field, next)) => {
                    if !msg.merge_field(field) {
                        return Err(Error::InvalidProtobuf);
                    }
                    assert(bytes@.skip(pos as int).skip(next - pos) =~= bytes@.skip(next as int));
                    pos = next;
                },
                None => {
                    return Err(Error::InvalidProtobuf);
                },
            }
        }
        proof {
            lemma_decode_empty(merge, msg@, bytes@.skip(pos as int));
        }
        Ok(msg)
    }

    /// Appends the body of the message to `out`: every member that is not at its zero
    /// value, in the order of the schema.
    pub fn write(&self, out: &mut Vec<u8>)
        ensures
            final(out)@ == old(out)@ + self@.wire(),
    {
        let ghost s0 = out@;
        let ghost f1 = SummaryDataPointView::repeated(1, self@.data_points);
        write_repeated(out, 1, &self.data_points);
        assert(out@ == s0 + fields_bytes(f1)) by {
            assert(
                bodies_of(self.data_points@) =~= SummaryDataPointView::bodies(self@.data_points)
            );
        }
        proof {
            reveal(SummaryView::wire);
        }
    }

    /// The message with its length in front. The body of a message in memory is short
    /// enough for its length to be written.
    pub fn encode(&self) -> (r: Vec<u8>)
        ensures
            r@ == framed(self@.wire()),
            self@.wire().len() <= u64::MAX,
    {
        let body = self.to_bytes();
        assert(body@.len() == body.len());
        frame(body.as_slice())
    }

    /// Decodes the message that stands, its length in front, at the start of `bytes`.
    /// What follows the message is not read.
    pub fn decode(bytes: &'a [u8]) -> (r: Result<Self, Error>)
        ensures
            match parse_framed(bytes@) {
                Some(body) => match SummaryView::decode(body) {
                    Some(v) => r matches Ok(m) && m@ == v,
                    None => r == Err::<Self, Error>(Error::InvalidProtobuf),
                },
                None => r == Err::<Self, Error>(Error::InvalidProtobuf),
            },
    {
        match unframe(bytes) {
            Some(body) => Self::from_bytes(body),
            None => Err(Error::InvalidProtobuf),
        }
    }
}

impl<'a> Message for Summary<'a> {
    open spec fn wire_of(v: SummaryView) -> Seq<u8> {
        v.wire()
    }

    fn to_bytes(&self) -> (r: Vec<u8>)
        ensures
            r@ == self@.wire(),
    {
        let mut out: Vec<u8> = Vec::new();
        self.write(&mut out);
        assert(out@ =~= self@.wire());
        out
    }
}

impl<'a> MetricOneOfdata<'a> {
    /// Appends the field of the variant in force to `out`: nothing where none is
    /// set.
    pub fn write(&self, out: &mut Vec<u8>)
        ensures
            final(out)@ == old(out)@ + fields_bytes(self@.fields()),
    {
        match self {
            MetricOneOfdata::gauge(x) => {
                write_message(out, 5, x);
            },
            MetricOneOfdata::sum(x) => {
                write_message(out, 7, x);
            },
            MetricOneOfdata::histogram(x) => {
                write_message(out, 9, x);
            },
            MetricOneOfdata::exponential_histogram(x) => {
                write_message(out, 10, x);
            },
            MetricOneOfdata::summary(x) => {
                write_message(out, 11, x);
            },
            MetricOneOfdata::Unset => {
                assert(out@ =~= out@ + fields_bytes(Seq::empty()));
            },
        }
    }
}

impl<'a> Metric<'a> {
    /// Merges one field that was read into the message. Returns whether the field was
    /// in order; if not, the message is left in no particular state.
    fn merge_field(&mut self, field: FieldRef<'a>) -> (ok: bool)
        ensures
            match MetricView::merge(old(self)@, field@) {
                Some(v) => ok && final(self)@ == v,
                None => !ok,
            },
    {
        match field.chunk {
            Chunk::Varint(_) => true,
            Chunk::Fixed64(_) => true,
            Chunk::Fixed32(_) => true,
            Chunk::Run(r) => {
                if field.number == 1 {
                    match text_of(r) {
                        Some(s) => {
                            self.name = s;
                            true
                        },
                        None => false,
                    }
                } else if field.number == 2 {
                    match text_of(r) {
                        Some(s) => {
                            self.description = s;
                            true
                        },
                        None => false,
                    }
                } else if field.number == 3 {
                    match text_of(r) {
                        Some(s) => {
                            self.unit = s;
                            true
                        },
                        None => false,
                    }
                } else if field.number == 5 {
                    match Gauge::from_bytes(r) {
                        Ok(item) => {
                            self.data = MetricOneOfdata::gauge(item);
                            true
                        },
                        Err(_) => false,
                    }
                } else if field.number == 7 {
                    match Sum::from_bytes(r) {
                        Ok(item) => {
                            self.data = MetricOneOfdata::sum(item);
                            true
                        },
                        Err(_) => false,
                    }
                } else if field.number == 9 {
                    match Histogram::from_bytes(r) {
                        Ok(item) => {
                            self.data = MetricOneOfdata::histogram(item);
                            true
                        },
                        Err(_) => false,
                    }
                } else if field.number == 10 {
                    match ExponentialHistogram::from_bytes(r) {
                        Ok(item) => {
                            self.data = MetricOneOfdata::exponential_histogram(item);
                            true
                        },
                        Err(_) => false,
                    }
                } else if field.number == 11 {
                    match Summary::from_bytes(r) {
                        Ok(item) => {
                            self.data = MetricOneOfdata::summary(item);
                            true
                        },
                        Err(_) => false,
                    }
                } else {
                    true
                }
            },
        }
    }

    /// Decodes a message body. Members whose fields are missing are at their zero
    /// value, and fields of no member are passed over.
    pub fn from_bytes(bytes: &'a [u8]) -> (r: Result<Self, Error>)
        ensures
            match MetricView::decode(bytes@) {
                Some(v) => r matches Ok(m) && m@ == v,
                None => r == Err::<Self, Error>(Error::InvalidProtobuf),
            },
    {
        reveal(MetricView::decode);
        let mut msg = Self::default();
        let mut pos: usize = 0;
        let ghost merge = MetricView::merge_fn();
        assert(bytes@.skip(0) =~= bytes@);
        while pos < bytes.len()
            invariant
                pos <= bytes@.len(),
                bytes@.len() == bytes.len(),
                merge == MetricView::merge_fn(),
                decode_with(merge, msg@, bytes@.skip(pos as int)) == MetricView::decode(bytes@),
            decreases bytes.len() - pos,
        {
            proof {
                lemma_decode_step(merge, msg@, bytes@.skip(pos as int));
            }
            match read_field(bytes, pos) {
                Some((field, next)) => {
                    if !msg.merge_field(field) {
                        return Err(Error::InvalidProtobuf);
                    }
                    assert(bytes@.skip(pos as int).skip(next - pos) =~= bytes@.skip(next as int));
                    pos = next;
                },
                None => {
                    return Err(Error::InvalidProtobuf);
                },
            }
        }
        proof {
            lemma_decode_empty(merge, msg@, bytes@.skip(pos as int));
        }
        Ok(msg)
    }

    /// Appends the body of the message to `out`: every member that is not at its zero
    /// value, in the order of the schema.
    pub fn write(&self, out: &mut Vec<u8>)
        ensures
            final(out)@ == old(out)@ + self@.wire(),
    {
        let ghost s0 = out@;
        let ghost f1 = run_member(1, encode_utf8(self@.name));
        let ghost f2 = run_member(2, encode_utf8(self@.description));
        let ghost f3 = run_member(3, encode_utf8(self@.unit));
        let ghost f4 = self@.data.fields();
        let ghost p2 = f1 + f2;
        let ghost p3 = p2 + f3;
        let ghost p4 = p3 + f4;
        write_member_run(out, 1, text_bytes(&self.name));
        let ghost s1 = out@;
        write_member_run(out, 2, text_bytes(&self.description));
        assert(out@ == s0 + fields_bytes(p2)) by {
            lemma_written(s0, f1, f2, s1, out@);
        }
        let ghost s2 = out@;
        write_member_run(out, 3, text_bytes(&self.unit));
        assert(out@ == s0 + fields_bytes(p3)) by {
            lemma_written(s0, p2, f3, s2, out@);
        }
        let ghost s3 = out@;
        self.data.write(out);
        assert(out@ == s0 + fields_bytes(p4)) by {
            lemma_written(s0, p3, f4, s3, out@);
        }
        proof {
            reveal(MetricView::wire);
        }
    }

    /// The message with its length in front. The body of a message in memory is short
    /// enough for its length to be written.
    pub fn encode(&self) -> (r: Vec<u8>)
        ensures
            r@ == framed(self@.wire()),
            self@.wire().len() <= u64::MAX,
    {
        let body = self.to_bytes();
        assert(body@.len() == body.len());
        frame(body.as_slice())
    }

    /// Decodes the message that stands, its length in front, at the start of `bytes`.
    /// What follows the message is not read.
    pub fn decode(bytes: &'a [u8]) -> (r: Result<Self, Error>)
        ensures
            match parse_framed(bytes@) {
                Some(body) => match MetricView::decode(body) {
                    Some(v) => r matches Ok(m) && m@ == v,
                    None => r == Err::<Self, Error>(Error::InvalidProtobuf),
                },
                None => r == Err::<Self, Error>(Error::InvalidProtobuf),
            },
    {
        match unframe(bytes) {
            Some(body) => Self::from_bytes(body),
            None => Err(Error::InvalidProtobuf),
        }
    }
}

impl<'a> Message for Metric<'a> {
    open spec fn wire_of(v: MetricView) -> Seq<u8> {
        v.wire()
    }

    fn to_bytes(&self) -> (r: Vec<u8>)
        ensures
            r@ == self@.wire(),
    {
        let mut out: Vec<u8> = Vec::new();
        self.write(&mut out);
        assert(out@ =~= self@.wire());
        out
    }
}

impl<'a> ScopeMetrics<'a> {
    /// Merges one field that was read into the message. Returns whether the field was
    /// in order; if not, the message is left in no particular state.
    fn merge_field(&mut self, field: FieldRef<'a>) -> (ok: bool)
        ensures
            match ScopeMetricsView::merge(old(self)@, field@) {
                Some(v) => ok && final(self)@ == v,
                None => !ok,
            },
    {
        match field.chunk {
            Chunk::Varint(_) => true,
            Chunk::Fixed64(_) => true,
            Chunk::Fixed32(_) => true,
            Chunk::Run(r) => {
                if field.number == 1 {
                    match InstrumentationScope::from_bytes(r) {
                        Ok(item) => {
                            self.scope = Some(item);
                            true
                        },
                        Err(_) => false,
                    }
                } else if field.number == 2 {
                    match Metric::from_bytes(r) {
                        Ok(item) => {
                            self.metrics.push(item);
                            assert(self@.metrics =~= old(self)@.metrics.push(item@));
                            true
                        },
                        Err(_) => false,
                    }
                } else if field.number == 3 {
                    match text_of(r) {
                        Some(s) => {
                            self.schema_url = s;
                            true
                        },
                        None => false,
                    }
                } else {
                    true
                }
            },
        }
    }

    /// Decodes a message body. Members whose fields are missing are at their zero
    /// value, and fields of no member are passed over.
    pub fn from_bytes(bytes: &'a [u8]) -> (r: Result<Self, Error>)
        ensures
            match ScopeMetricsView::decode(bytes@) {
                Some(v) => r matches Ok(m) && m@ == v,
                None => r == Err::<Self, Error>(Error::InvalidProtobuf),
            },
    {
        reveal(ScopeMetricsView::decode);
        let mut msg = Self::default();
        let mut pos: usize = 0;
        let ghost merge = ScopeMetricsView::merge_fn();
        assert(bytes@.skip(0) =~= bytes@);
        while pos < bytes.len()
            invariant
                pos <= bytes@.len(),
                bytes@.len() == bytes.len(),
                merge == ScopeMetricsView::merge_fn(),
                decode_with(merge, msg@, bytes@.skip(pos as int)) == ScopeMetricsView::decode(
                    bytes@,
                ),
            decreases bytes.len() - pos,
        {
            proof {
                lemma_decode_step(merge, msg@, bytes@.skip(pos as int));
            }
            match read_field(bytes, pos) {
                Some((field, next)) => {
                    if !msg.merge_field(field) {
                        return Err(Error::InvalidProtobuf);
                    }
                    assert(bytes@.skip(pos as int).skip(next - pos) =~= bytes@.skip(next as int));
                    pos = next;
                },
                None => {
                    return Err(Error::InvalidProtobuf);
                },
            }
        }
        proof {
            lemma_decode_empty(merge, msg@, bytes@.skip(pos as int));
        }
        Ok(msg)
    }

    /// Appends the body of the message to `out`: every member that is not at its zero
    /// value, in the order of the schema.
    pub fn write(&self, out: &mut Vec<u8>)
        ensures
            final(out)@ == old(out)@ + self@.wire(),
    {
        let ghost s0 = out@;
        let ghost f1 = InstrumentationScopeView::optional(1, self@.scope);
        let ghost f2 = MetricView::repeated(2, self@.metrics);
        let ghost f3 = run_member(3, encode_utf8(self@.schema_url));
        let ghost p2 = f1 + f2;
        let ghost p3 = p2 + f3;
        write_optional(out, 1, &self.scope);
        assert(out@ == s0 + fields_bytes(f1)) by {
            assert(body_of(self.scope) == match self@.scope {
                Some(x) => Some(x.wire()),
                None => None,
            });
        }
        let ghost s1 = out@;
        write_repeated(out, 2, &self.metrics);
        assert(out@ == s0 + fields_bytes(p2)) by {
            assert(bodies_of(self.metrics@) =~= MetricView::bodies(self@.metrics));
            lemma_written(s0, f1, f2, s1, out@);
        }
        let ghost s2 = out@;
        write_member_run(out, 3, text_bytes(&self.schema_url));
        assert(out@ == s0 + fields_bytes(p3)) by {
            lemma_written(s0, p2, f3, s2, out@);
        }
        proof {
            reveal(ScopeMetricsView::wire);
        }
    }

    /// The message with its length in front. The body of a message in memory is short
    /// enough for its length to be written.
    pub fn encode(&self) -> (r: Vec<u8>)
        ensures
            r@ == framed(self@.wire()),
            self@.wire().len() <= u64::MAX,
    {
        let body = self.to_bytes();
        assert(body@.len() == body.len());
        frame(body.as_slice())
    }

    /// Decodes the message that stands, its length in front, at the start of `bytes`.
    /// What follows the message is not read.
    pub fn decode(bytes: &'a [u8]) -> (r: Result<Self, Error>)
        ensures
            match parse_framed(bytes@) {
                Some(body) => match ScopeMetricsView::decode(body) {
                    Some(v) => r matches Ok(m) && m@ == v,
                    None => r == Err::<Self, Error>(Error::InvalidProtobuf),
                },
                None => r == Err::<Self, Error>(Error::InvalidProtobuf),
            },
    {
        match unframe(bytes) {
            Some(body) => Self::from_bytes(body),
            None => Err(Error::InvalidProtobuf),
        }
    }
}

impl<'a> Message for ScopeMetrics<'a> {
    open spec fn wire_of(v: ScopeMetricsView) -> Seq<u8> {
        v.wire()
    }

    fn to_bytes(&self) -> (r: Vec<u8>)
        ensures
            r@ == self@.wire(),
    {
        let mut out: Vec<u8> = Vec::new();
        self.write(&mut out);
        assert(out@ =~= self@.wire());
        out
    }
}

impl<'a> ResourceMetrics<'a> {
    /// Merges one field that was read into the message. Returns whether the field was
    /// in order; if not, the message is left in no particular state.
    fn merge_field(&mut self, field: FieldRef<'a>) -> (ok: bool)
        ensures
            match ResourceMetricsView::merge(old(self)@, field@) {
                Some(v) => ok && final(self)@ == v,
                None => !ok,
            },
    {
        match field.chunk {
            Chunk::Varint(_) => true,
            Chunk::Fixed64(_) => true,
            Chunk::Fixed32(_) => true,
            Chunk::Run(r) => {
                if field.number == 1 {
                    match Resource::from_bytes(r) {
                        Ok(item) => {
                            self.resource = Some(item);
                            true
                        },
                        Err(_) => false,
                    }
                } else if field.number == 2 {
                    match ScopeMetrics::from_bytes(r) {
                        Ok(item) => {
                            self.scope_metrics.push(item);
                            assert(self@.scope_metrics =~= old(self)@.scope_metrics.push(item@));
                            true
                        },
                        Err(_) => false,
                    }
                } else if field.number == 3 {
                    match text_of(r) {
                        Some(s) => {
                            self.schema_url = s;
                            true
                        },
                        None => false,
                    }
                } else {
                    true
                }
            },
        }
    }

    /// Decodes a message body. Members whose fields are missing are at their zero
    /// value, and fields of no member are passed over.
    pub fn from_bytes(bytes: &'a [u8]) -> (r: Result<Self, Error>)
        ensures
            match ResourceMetricsView::decode(bytes@) {
                Some(v) => r matches Ok(m) && m@ == v,
                None => r == Err::<Self, Error>(Error::InvalidProtobuf),
            },
    {
        reveal(ResourceMetricsView::decode);
        let mut msg = Self::default();
        let mut pos: usize = 0;
        let ghost merge = ResourceMetricsView::merge_fn();
        assert(bytes@.skip(0) =~= bytes@);
        while pos < bytes.len()
            invariant
                pos <= bytes@.len(),
                bytes@.len() == bytes.len(),
                merge == ResourceMetricsView::merge_fn(),
                decode_with(merge, msg@, bytes@.skip(pos as int)) == ResourceMetricsView::decode(
                    bytes@,
                ),
            decreases bytes.len() - pos,
        {
            proof {
                lemma_decode_step(merge, msg@, bytes@.skip(pos as int));
            }
            match read_field(bytes, pos) {
                Some((field, next)) => {
                    if !msg.merge_field(field) {
                        return Err(Error::InvalidProtobuf);
                    }
                    assert(bytes@.skip(pos as int).skip(next - pos) =~= bytes@.skip(next as int));
                    pos = next;
                },
                None => {
                    return Err(Error::InvalidProtobuf);
                },
            }
        }
        proof {
            lemma_decode_empty(merge, msg@, bytes@.skip(pos as int));
        }
        Ok(msg)
    }

    /// Appends the body of the message to `out`: every member that is not at its zero
    /// value, in the order of the schema.
    pub fn write(&self, out: &mut Vec<u8>)
        ensures
            final(out)@ == old(out)@ + self@.wire(),
    {
        let ghost s0 = out@;
        let ghost f1 = ResourceView::optional(1, self@.resource);
        let ghost f2 = ScopeMetricsView::repeated(2, self@.scope_metrics);
        let ghost f3 = run_member(3, encode_utf8(self@.schema_url));
        let ghost p2 = f1 + f2;
        let ghost p3 = p2 + f3;
        write_optional(out, 1, &self.resource);
        assert(out@ == s0 + fields_bytes(f1)) by {
            assert(body_of(self.resource) == match self@.resource {
                Some(x) => Some(x.wire()),
                None => None,
            });
        }
        let ghost s1 = out@;
        write_repeated(out, 2, &self.scope_metrics);
        assert(out@ == s0 + fields_bytes(p2)) by {
            assert(
                bodies_of(self.scope_metrics@) =~= ScopeMetricsView::bodies(self@.scope_metrics)
            );
            lemma_written(s0, f1, f2, s1, out@);
        }
        let ghost s2 = out@;
        write_member_run(out, 3, text_bytes(&self.schema_url));
        assert(out@ == s0 + fields_bytes(p3)) by {
            lemma_written(s0, p2, f3, s2, out@);
        }
        proof {
            reveal(ResourceMetricsView::wire);
        }
    }

    /// The message with its length in front. The body of a message in memory is short
    /// enough for its length to be written.
    pub fn encode(&self) -> (r: Vec<u8>)
        ensures
            r@ == framed(self@.wire()),
            self@.wire().len() <= u64::MAX,
    {
        let body = self.to_bytes();
        assert(body@.len() == body.len());
        frame(body.as_slice())
    }

    /// Decodes the message that stands, its length in front, at the start of `bytes`.
    /// What follows the message is not read.
    pub fn decode(bytes: &'a [u8]) -> (r: Result<Self, Error>)
        ensures
            match parse_framed(bytes@) {
                Some(body) => match ResourceMetricsView::decode(body) {
                    Some(v) => r matches Ok(m) && m@ == v,
                    None => r == Err::<Self, Error>(Error::InvalidProtobuf),
                },
                None => r == Err::<Self, Error>(Error::InvalidProtobuf),
            },
    {
        match unframe(bytes) {
            Some(body) => Self::from_bytes(body),
            None => Err(Error::InvalidProtobuf),
        }
    }
}

impl<'a> Message for ResourceMetrics<'a> {
    open spec fn wire_of(v: ResourceMetricsView) -> Seq<u8> {
        v.wire()
    }

    fn to_bytes(&self) -> (r: Vec<u8>)
        ensures
            r@ == self@.wire(),
    {
        let mut out: Vec<u8> = Vec::new();
        self.write(&mut out);
        assert(out@ =~= self@.wire());
        out
    }
}

impl<'a> ExportMetricsServiceRequest<'a> {
    /// Merges one field that was read into the message. Returns whether the field was
    /// in order; if not, the message is left in no particular state.
    fn merge_field(&mut self, field: FieldRef<'a>) -> (ok: bool)
        ensures
            match ExportMetricsServiceRequestView::merge(old(self)@, field@) {
                Some(v) => ok && final(self)@ == v,
                None => !ok,
            },
    {
        match field.chunk {
            Chunk::Varint(_) => true,
            Chunk::Fixed64(_) => true,
            Chunk::Fixed32(_) => true,
            Chunk::Run(r) => {
                if field.number == 1 {
                    match ResourceMetrics::from_bytes(r) {
                        Ok(item) => {
                            self.resource_metrics.push(item);
                            assert(
                                self@.resource_metrics =~= old(self)@.resource_metrics.push(item@)
                            );
                            true
                        },
                        Err(_) => false,
                    }
                } else {
                    true
                }
            },
        }
    }

    /// Decodes a message body. Members whose fields are missing are at their zero
    /// value, and fields of no member are passed over.
    pub fn from_bytes(bytes: &'a [u8]) -> (r: Result<Self, Error>)
        ensures
            match ExportMetricsServiceRequestView::decode(bytes@) {
                Some(v) => r matches Ok(m) && m@ == v,
                None => r == Err::<Self, Error>(Error::InvalidProtobuf),
            },
    {
        reveal(ExportMetricsServiceRequestView::decode);
        let mut msg = Self::default();
        let mut pos: usize = 0;
        let ghost merge = ExportMetricsServiceRequestView::merge_fn();
        assert(bytes@.skip(0) =~= bytes@);
        while pos < bytes.len()
            invariant
                pos <= bytes@.len(),
                bytes@.len() == bytes.len(),
                merge == ExportMetricsServiceRequestView::merge_fn(),
                decode_with(merge, msg@, bytes@.skip(pos as int))
                    == ExportMetricsServiceRequestView::decode(bytes@),
            decreases bytes.len() - pos,
        {
            proof {
                lemma_decode_step(merge, msg@, bytes@.skip(pos as int));
            }
            match read_field(bytes, pos) {
                Some((field, next)) => {
                    if !msg.merge_field(field) {
                        return Err(Error::InvalidProtobuf);
                    }
                    assert(bytes@.skip(pos as int).skip(next - pos) =~= bytes@.skip(next as int));
                    pos = next;
                },
                None => {
                    return Err(Error::InvalidProtobuf);
                },
            }
        }
        proof {
            lemma_decode_empty(merge, msg@, bytes@.skip(pos as int));
        }
        Ok(msg)
    }

    /// Appends the body of the message to `out`: every member that is not at its zero
    /// value, in the order of the schema.
    pub fn write(&self, out: &mut Vec<u8>)
        ensures
            final(out)@ == old(out)@ + self@.wire(),
    {
        let ghost s0 = out@;
        let ghost f1 = ResourceMetricsView::repeated(1, self@.resource_metrics);
        write_repeated(out, 1, &self.resource_metrics);
        assert(out@ == s0 + fields_bytes(f1)) by {
            assert(
                bodies_of(self.resource_metrics@) =~= ResourceMetricsView::bodies(
                    self@.resource_metrics,
                )
            );
        }
        proof {
            reveal(ExportMetricsServiceRequestView::wire);
        }
    }

    /// The message with its length in front. The body of a message in memory is short
    /// enough for its length to be written.
    pub fn encode(&self) -> (r: Vec<u8>)
        ensures
            r@ == framed(self@.wire()),
            self@.wire().len() <= u64::MAX,
    {
        let body = self.to_bytes();
        assert(body@.len() == body.len());
        frame(body.as_slice())
    }

    /// Decodes the message that stands, its length in front, at the start of `bytes`.
    /// What follows the message is not read.
    pub fn decode(bytes: &'a [u8]) -> (r: Result<Self, Error>)
        ensures
            match parse_framed(bytes@) {
                Some(body) => match ExportMetricsServiceRequestView::decode(body) {
                    Some(v) => r matches Ok(m) && m@ == v,
                    None => r == Err::<Self, Error>(Error::InvalidProtobuf),
                },
                None => r == Err::<Self, Error>(Error::InvalidProtobuf),
            },
    {
        match unframe(bytes) {
            Some(body) => Self::from_bytes(body),
            None => Err(Error::InvalidProtobuf),
        }
    }
}

impl<'a> Message for ExportMetricsServiceRequest<'a> {
    open spec fn wire_of(v: ExportMetricsServiceRequestView) -> Seq<u8> {
        v.wire()
    }

    fn to_bytes(&self) -> (r: Vec<u8>)
        ensures
            r@ == self@.wire(),
    {
        let mut out: Vec<u8> = Vec::new();
        self.write(&mut out);
        assert(out@ =~= self@.wire());
        out
    }
}

} // verus!
