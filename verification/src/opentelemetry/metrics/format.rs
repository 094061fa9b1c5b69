//! The wire format of the metrics family: which fields a message is written as, and
//! which message a run of fields stands for.

use crate::field::{Field, Payload, decode_with, fields_bytes};
use crate::member::{
    fixed64_member, message_member, one, packed_fixed64_member, parse_packed_fixed64,
    parse_packed_varints, repeated_runs, repeated_varints, run_member, varint_member,
};
use crate::opentelemetry::common::types::{InstrumentationScopeView, KeyValueView, ResourceView};
use crate::opentelemetry::metrics::types::{
    AggregationTemporality, ExemplarOneOfvalueView, ExemplarView,
    ExponentialHistogramDataPointBucketsView, ExponentialHistogramDataPointView,
    ExponentialHistogramView, ExportMetricsServiceRequestView, GaugeView, HistogramDataPointView,
    HistogramView, MetricOneOfdataView, MetricView, NumberDataPointOneOfvalueView,
    NumberDataPointView, ResourceMetricsView, ScopeMetricsView, SumView,
    SummaryDataPointValueAtQuantileView, SummaryDataPointView, SummaryView,
};
use crate::wire::{low32, low32_signed, signed64, unsigned64, unzigzag32, zigzag32};
use vstd::prelude::*;
use vstd::utf8::{decode_utf8, encode_utf8, valid_utf8};

verus! {

impl ExemplarOneOfvalueView {
    /// The field that stands for the variant in force: none where nothing is set.
    pub open spec fn fields(self) -> Seq<Field> {
        match self {
            ExemplarOneOfvalueView::as_double(x) => one(3, Payload::Fixed64(x)),
            ExemplarOneOfvalueView::as_int(x) => one(6, Payload::Fixed64(unsigned64(x))),
            ExemplarOneOfvalueView::Unset => Seq::empty(),
        }
    }
}

impl ExemplarView {
    /// Merges one field into the message: a field of a member gives the member its
    /// value, or one more item; any other field is passed over. `None` where the
    /// payload of a member's field is malformed.
    pub open spec fn merge(acc: Self, f: Field) -> Option<Self> {
        if f.number == 7 && f.payload is Run {
            match KeyValueView::decode(f.payload->Run_0) {
                Some(x) => Some(
                    Self { filtered_attributes: acc.filtered_attributes.push(x), ..acc },
                ),
                None => None,
            }
        } else if f.number == 2 && f.payload is Fixed64 {
            Some(Self { time_unix_nano: f.payload->Fixed64_0, ..acc })
        } else if f.number == 4 && f.payload is Run {
            Some(Self { span_id: f.payload->Run_0, ..acc })
        } else if f.number == 5 && f.payload is Run {
            Some(Self { trace_id: f.payload->Run_0, ..acc })
        } else if f.number == 3 && f.payload is Fixed64 {
            Some(Self { value: ExemplarOneOfvalueView::as_double(f.payload->Fixed64_0), ..acc })
        } else if f.number == 6 && f.payload is Fixed64 {
            Some(
                Self {
                    value: ExemplarOneOfvalueView::as_int(signed64(f.payload->Fixed64_0)),
                    ..acc
                },
            )
        } else {
            Some(acc)
        }
    }

    /// `merge` as a function of the message and the field.
    pub open spec fn merge_fn() -> spec_fn(Self, Field) -> Option<Self> {
        |acc: Self, f: Field| Self::merge(acc, f)
    }

    /// The message that a body stands for: its fields, merged one by one into the
    /// message with every member at its zero value.
    #[verifier::opaque]
    pub open spec fn decode(b: Seq<u8>) -> Option<Self> {
        decode_with(Self::merge_fn(), Self::default(), b)
    }

    /// The fields that the message is written as, in the order of writing.
    pub open spec fn fields(self) -> Seq<Field> {
        KeyValueView::repeated(7, self.filtered_attributes)
            + fixed64_member(2, self.time_unix_nano)
            + run_member(4, self.span_id)
            + run_member(5, self.trace_id)
            + self.value.fields()
    }

    /// The body of the message in bytes.
    #[verifier::opaque]
    pub open spec fn wire(self) -> Seq<u8> {
        fields_bytes(self.fields())
    }

    /// The bodies of a list of messages.
    pub open spec fn bodies(items: Seq<Self>) -> Seq<Seq<u8>> {
        Seq::new(items.len(), |i: int| items[i].wire())
    }

    /// A repeated member of this type as fields: one run per item, in order.
    pub open spec fn repeated(number: u32, items: Seq<Self>) -> Seq<Field> {
        repeated_runs(number, Self::bodies(items))
    }
}

impl NumberDataPointOneOfvalueView {
    /// The field that stands for the variant in force: none where nothing is set.
    pub open spec fn fields(self) -> Seq<Field> {
        match self {
            NumberDataPointOneOfvalueView::as_double(x) => one(4, Payload::Fixed64(x)),
            NumberDataPointOneOfvalueView::as_int(x) => one(6, Payload::Fixed64(unsigned64(x))),
            NumberDataPointOneOfvalueView::Unset => Seq::empty(),
        }
    }
}

impl NumberDataPointView {
    /// Merges one field into the message: a field of a member gives the member its
    /// value, or one more item; any other field is passed over. `None` where the
    /// payload of a member's field is malformed.
    pub open spec fn merge(acc: Self, f: Field) -> Option<Self> {
        if f.number == 7 && f.payload is Run {
            match KeyValueView::decode(f.payload->Run_0) {
                Some(x) => Some(Self { attributes: acc.attributes.push(x), ..acc }),
                None => None,
            }
        } else if f.number == 2 && f.payload is Fixed64 {
            Some(Self { start_time_unix_nano: f.payload->Fixed64_0, ..acc })
        } else if f.number == 3 && f.payload is Fixed64 {
            Some(Self { time_unix_nano: f.payload->Fixed64_0, ..acc })
        } else if f.number == 5 && f.payload is Run {
            match ExemplarView::decode(f.payload->Run_0) {
                Some(x) => Some(Self { exemplars: acc.exemplars.push(x), ..acc }),
                None => None,
            }
        } else if f.number == 8 && f.payload is Varint {
            Some(Self { flags: low32(f.payload->Varint_0), ..acc })
        } else if f.number == 4 && f.payload is Fixed64 {
            Some(
                Self {
                    value: NumberDataPointOneOfvalueView::as_double(f.payload->Fixed64_0),
                    ..acc
                },
            )
        } else if f.number == 6 && f.payload is Fixed64 {
            Some(
                Self {
                    value: NumberDataPointOneOfvalueView::as_int(signed64(f.payload->Fixed64_0)),
                    ..acc
                },
            )
        } else {
            Some(acc)
        }
    }

    /// `merge` as a function of the message and the field.
    pub open spec fn merge_fn() -> spec_fn(Self, Field) -> Option<Self> {
        |acc: Self, f: Field| Self::merge(acc, f)
    }

    /// The message that a body stands for: its fields, merged one by one into the
    /// message with every member at its zero value.
    #[verifier::opaque]
    pub open spec fn decode(b: Seq<u8>) -> Option<Self> {
        decode_with(Self::merge_fn(), Self::default(), b)
    }

    /// The fields that the message is written as, in the order of writing.
    pub open spec fn fields(self) -> Seq<Field> {
        KeyValueView::repeated(7, self.attributes)
            + fixed64_member(2, self.start_time_unix_nano)
            + fixed64_member(3, self.time_unix_nano)
            + ExemplarView::repeated(5, self.exemplars)
            + varint_member(8, self.flags as u64)
            + self.value.fields()
    }

    /// The body of the message in bytes.
    #[verifier::opaque]
    pub open spec fn wire(self) -> Seq<u8> {
        fields_bytes(self.fields())
    }

    /// The bodies of a list of messages.
    pub open spec fn bodies(items: Seq<Self>) -> Seq<Seq<u8>> {
        Seq::new(items.len(), |i: int| items[i].wire())
    }

    /// A repeated member of this type as fields: one run per item, in order.
    pub open spec fn repeated(number: u32, items: Seq<Self>) -> Seq<Field> {
        repeated_runs(number, Self::bodies(items))
    }
}

impl HistogramDataPointView {
    /// Merges one field into the message: a field of a member gives the member its
    /// value, or one more item; any other field is passed over. `None` where the
    /// payload of a member's field is malformed.
    pub open spec fn merge(acc: Self, f: Field) -> Option<Self> {
        if f.number == 9 && f.payload is Run {
            match KeyValueView::decode(f.payload->Run_0) {
                Some(x) => Some(Self { attributes: acc.attributes.push(x), ..acc }),
                None => None,
            }
        } else if f.number == 2 && f.payload is Fixed64 {
            Some(Self { start_time_unix_nano: f.payload->Fixed64_0, ..acc })
        } else if f.number == 3 && f.payload is Fixed64 {
            Some(Self { time_unix_nano: f.payload->Fixed64_0, ..acc })
        } else if f.number == 4 && f.payload is Fixed64 {
            Some(Self { count: f.payload->Fixed64_0, ..acc })
        } else if f.number == 5 && f.payload is Fixed64 {
            Some(Self { sum: f.payload->Fixed64_0, ..acc })
        } else if f.number == 6 && f.payload is Run {
            match parse_packed_fixed64(f.payload->Run_0) {
                Some(values) => Some(Self { bucket_counts: acc.bucket_counts + values, ..acc }),
                None => None,
            }
        } else if f.number == 6 && f.payload is Fixed64 {
            Some(Self { bucket_counts: acc.bucket_counts.push(f.payload->Fixed64_0), ..acc })
        } else if f.number == 7 && f.payload is Run {
            match parse_packed_fixed64(f.payload->Run_0) {
                Some(values) => Some(Self { explicit_bounds: acc.explicit_bounds + values, ..acc }),
                None => None,
            }
        } else if f.number == 7 && f.payload is Fixed64 {
            Some(Self { explicit_bounds: acc.explicit_bounds.push(f.payload->Fixed64_0), ..acc })
        } else if f.number == 8 && f.payload is Run {
            match ExemplarView::decode(f.payload->Run_0) {
                Some(x) => Some(Self { exemplars: acc.exemplars.push(x), ..acc }),
                None => None,
            }
        } else if f.number == 10 && f.payload is Varint {
            Some(Self { flags: low32(f.payload->Varint_0), ..acc })
        } else if f.number == 11 && f.payload is Fixed64 {
            Some(Self { min: f.payload->Fixed64_0, ..acc })
        } else if f.number == 12 && f.payload is Fixed64 {
            Some(Self { max: f.payload->Fixed64_0, ..acc })
        } else {
            Some(acc)
        }
    }

    /// `merge` as a function of the message and the field.
    pub open spec fn merge_fn() -> spec_fn(Self, Field) -> Option<Self> {
        |acc: Self, f: Field| Self::merge(acc, f)
    }

    /// The message that a body stands for: its fields, merged one by one into the
    /// message with every member at its zero value.
    #[verifier::opaque]
    pub open spec fn decode(b: Seq<u8>) -> Option<Self> {
        decode_with(Self::merge_fn(), Self::default(), b)
    }

    /// The fields that the message is written as, in the order of writing.
    pub open spec fn fields(self) -> Seq<Field> {
        KeyValueView::repeated(9, self.attributes)
            + fixed64_member(2, self.start_time_unix_nano)
            + fixed64_member(3, self.time_unix_nano)
            + fixed64_member(4, self.count)
            + fixed64_member(5, self.sum)
            + packed_fixed64_member(6, self.bucket_counts)
            + packed_fixed64_member(7, self.explicit_bounds)
            + ExemplarView::repeated(8, self.exemplars)
            + varint_member(10, self.flags as u64)
            + fixed64_member(11, self.min)
            + fixed64_member(12, self.max)
    }

    /// The body of the message in bytes.
    #[verifier::opaque]
    pub open spec fn wire(self) -> Seq<u8> {
        fields_bytes(self.fields())
    }

    /// The bodies of a list of messages.
    pub open spec fn bodies(items: Seq<Self>) -> Seq<Seq<u8>> {
        Seq::new(items.len(), |i: int| items[i].wire())
    }

    /// A repeated member of this type as fields: one run per item, in order.
    pub open spec fn repeated(number: u32, items: Seq<Self>) -> Seq<Field> {
        repeated_runs(number, Self::bodies(items))
    }
}

impl ExponentialHistogramDataPointBucketsView {
    /// Merges one field into the message: a field of a member gives the member its
    /// value, or one more item; any other field is passed over. `None` where the
    /// payload of a member's field is malformed.
    pub open spec fn merge(acc: Self, f: Field) -> Option<Self> {
        if f.number == 1 && f.payload is Varint {
            Some(Self { offset: unzigzag32(low32(f.payload->Varint_0)), ..acc })
        } else if f.number == 2 && f.payload is Varint {
            Some(Self { bucket_counts: acc.bucket_counts.push(f.payload->Varint_0), ..acc })
        } else if f.number == 2 && f.payload is Run {
            match parse_packed_varints(f.payload->Run_0) {
                Some(values) => Some(Self { bucket_counts: acc.bucket_counts + values, ..acc }),
                None => None,
            }
        } else {
            Some(acc)
        }
    }

    /// `merge` as a function of the message and the field.
    pub open spec fn merge_fn() -> spec_fn(Self, Field) -> Option<Self> {
        |acc: Self, f: Field| Self::merge(acc, f)
    }

    /// The message that a body stands for: its fields, merged one by one into the
    /// message with every member at its zero value.
    #[verifier::opaque]
    pub open spec fn decode(b: Seq<u8>) -> Option<Self> {
        decode_with(Self::merge_fn(), Self::default(), b)
    }

    /// The fields that the message is written as, in the order of writing.
    pub open spec fn fields(self) -> Seq<Field> {
        varint_member(1, zigzag32(self.offset) as u64)
            + repeated_varints(2, self.bucket_counts)
    }

    /// The body of the message in bytes.
    #[verifier::opaque]
    pub open spec fn wire(self) -> Seq<u8> {
        fields_bytes(self.fields())
    }

    /// An optional member of this type as fields: a run where it is present.
    pub open spec fn optional(number: u32, item: Option<Self>) -> Seq<Field> {
        message_member(
            number,
            match item {
                Some(x) => Some(x.wire()),
                None => None,
            },
        )
    }
}

impl ExponentialHistogramDataPointView {
    /// Merges one field into the message: a field of a member gives the member its
    /// value, or one more item; any other field is passed over. `None` where the
    /// payload of a member's field is malformed.
    pub open spec fn merge(acc: Self, f: Field) -> Option<Self> {
        if f.number == 1 && f.payload is Run {
            match KeyValueView::decode(f.payload->Run_0) {
                Some(x) => Some(Self { attributes: acc.attributes.push(x), ..acc }),
                None => None,
            }
        } else if f.number == 2 && f.payload is Fixed64 {
            Some(Self { start_time_unix_nano: f.payload->Fixed64_0, ..acc })
        } else if f.number == 3 && f.payload is Fixed64 {
            Some(Self { time_unix_nano: f.payload->Fixed64_0, ..acc })
        } else if f.number == 4 && f.payload is Fixed64 {
            Some(Self { count: f.payload->Fixed64_0, ..acc })
        } else if f.number == 5 && f.payload is Fixed64 {
            Some(Self { sum: f.payload->Fixed64_0, ..acc })
        } else if f.number == 6 && f.payload is Varint {
            Some(Self { scale: unzigzag32(low32(f.payload->Varint_0)), ..acc })
        } else if f.number == 7 && f.payload is Fixed64 {
            Some(Self { zero_count: f.payload->Fixed64_0, ..acc })
        } else if f.number == 8 && f.payload is Run {
            match ExponentialHistogramDataPointBucketsView::decode(f.payload->Run_0) {
                Some(x) => Some(Self { positive: Some(x), ..acc }),
                None => None,
            }
        } else if f.number == 9 && f.payload is Run {
            match ExponentialHistogramDataPointBucketsView::decode(f.payload->Run_0) {
                Some(x) => Some(Self { negative: Some(x), ..acc }),
                None => None,
            }
        } else if f.number == 10 && f.payload is Varint {
            Some(Self { flags: low32(f.payload->Varint_0), ..acc })
        } else if f.number == 11 && f.payload is Run {
            match ExemplarView::decode(f.payload->Run_0) {
                Some(x) => Some(Self { exemplars: acc.exemplars.push(x), ..acc }),
                None => None,
            }
        } else if f.number == 12 && f.payload is Fixed64 {
            Some(Self { min: f.payload->Fixed64_0, ..acc })
        } else if f.number == 13 && f.payload is Fixed64 {
            Some(Self { max: f.payload->Fixed64_0, ..acc })
        } else if f.number == 14 && f.payload is Fixed64 {
            Some(Self { zero_threshold: f.payload->Fixed64_0, ..acc })
        } else {
            Some(acc)
        }
    }

    /// `merge` as a function of the message and the field.
    pub open spec fn merge_fn() -> spec_fn(Self, Field) -> Option<Self> {
        |acc: Self, f: Field| Self::merge(acc, f)
    }

    /// The message that a body stands for: its fields, merged one by one into the
    /// message with every member at its zero value.
    #[verifier::opaque]
    pub open spec fn decode(b: Seq<u8>) -> Option<Self> {
        decode_with(Self::merge_fn(), Self::default(), b)
    }

    /// The fields that the message is written as, in the order of writing.
    pub open spec fn fields(self) -> Seq<Field> {
        KeyValueView::repeated(1, self.attributes)
            + fixed64_member(2, self.start_time_unix_nano)
            + fixed64_member(3, self.time_unix_nano)
            + fixed64_member(4, self.count)
            + fixed64_member(5, self.sum)
            + varint_member(6, zigzag32(self.scale) as u64)
            + fixed64_member(7, self.zero_count)
            + ExponentialHistogramDataPointBucketsView::optional(8, self.positive)
            + ExponentialHistogramDataPointBucketsView::optional(9, self.negative)
            + varint_member(10, self.flags as u64)
            + ExemplarView::repeated(11, self.exemplars)
            + fixed64_member(12, self.min)
            + fixed64_member(13, self.max)
            + fixed64_member(14, self.zero_threshold)
    }

    /// The body of the message in bytes.
    #[verifier::opaque]
    pub open spec fn wire(self) -> Seq<u8> {
        fields_bytes(self.fields())
    }

    /// The bodies of a list of messages.
    pub open spec fn bodies(items: Seq<Self>) -> Seq<Seq<u8>> {
        Seq::new(items.len(), |i: int| items[i].wire())
    }

    /// A repeated member of this type as fields: one run per item, in order.
    pub open spec fn repeated(number: u32, items: Seq<Self>) -> Seq<Field> {
        repeated_runs(number, Self::bodies(items))
    }
}

impl SummaryDataPointValueAtQuantileView {
    /// Merges one field into the message: a field of a member gives the member its
    /// value, or one more item; any other field is passed over. `None` where the
    /// payload of a member's field is malformed.
    pub open spec fn merge(acc: Self, f: Field) -> Option<Self> {
        if f.number == 1 && f.payload is Fixed64 {
            Some(Self { quantile: f.payload->Fixed64_0, ..acc })
        } else if f.number == 2 && f.payload is Fixed64 {
            Some(Self { value: f.payload->Fixed64_0, ..acc })
        } else {
            Some(acc)
        }
    }

    /// `merge` as a function of the message and the field.
    pub open spec fn merge_fn() -> spec_fn(Self, Field) -> Option<Self> {
        |acc: Self, f: Field| Self::merge(acc, f)
    }

    /// The message that a body stands for: its fields, merged one by one into the
    /// message with every member at its zero value.
    #[verifier::opaque]
    pub open spec fn decode(b: Seq<u8>) -> Option<Self> {
        decode_with(Self::merge_fn(), Self::default(), b)
    }

    /// The fields that the message is written as, in the order of writing.
    pub open spec fn fields(self) -> Seq<Field> {
        fixed64_member(1, self.quantile)
            + fixed64_member(2, self.value)
    }

    /// The body of the message in bytes.
    #[verifier::opaque]
    pub open spec fn wire(self) -> Seq<u8> {
        fields_bytes(self.fields())
    }

    /// The bodies of a list of messages.
    pub open spec fn bodies(items: Seq<Self>) -> Seq<Seq<u8>> {
        Seq::new(items.len(), |i: int| items[i].wire())
    }

    /// A repeated member of this type as fields: one run per item, in order.
    pub open spec fn repeated(number: u32, items: Seq<Self>) -> Seq<Field> {
        repeated_runs(number, Self::bodies(items))
    }
}

impl SummaryDataPointView {
    /// Merges one field into the message: a field of a member gives the member its
    /// value, or one more item; any other field is passed over. `None` where the
    /// payload of a member's field is malformed.
    pub open spec fn merge(acc: Self, f: Field) -> Option<Self> {
        if f.number == 7 && f.payload is Run {
            match KeyValueView::decode(f.payload->Run_0) {
                Some(x) => Some(Self { attributes: acc.attributes.push(x), ..acc }),
                None => None,
            }
        } else if f.number == 2 && f.payload is Fixed64 {
            Some(Self { start_time_unix_nano: f.payload->Fixed64_0, ..acc })
        } else if f.number == 3 && f.payload is Fixed64 {
            Some(Self { time_unix_nano: f.payload->Fixed64_0, ..acc })
        } else if f.number == 4 && f.payload is Fixed64 {
            Some(Self { count: f.payload->Fixed64_0, ..acc })
        } else if f.number == 5 && f.payload is Fixed64 {
            Some(Self { sum: f.payload->Fixed64_0, ..acc })
        } else if f.number == 6 && f.payload is Run {
            match SummaryDataPointValueAtQuantileView::decode(f.payload->Run_0) {
                Some(x) => Some(Self { quantile_values: acc.quantile_values.push(x), ..acc }),
                None => None,
            }
        } else if f.number == 8 && f.payload is Varint {
            Some(Self { flags: low32(f.payload->Varint_0), ..acc })
        } else {
            Some(acc)
        }
    }

    /// `merge` as a function of the message and the field.
    pub open spec fn merge_fn() -> spec_fn(Self, Field) -> Option<Self> {
        |acc: Self, f: Field| Self::merge(acc, f)
    }

    /// The message that a body stands for: its fields, merged one by one into the
    /// message with every member at its zero value.
    #[verifier::opaque]
    pub open spec fn decode(b: Seq<u8>) -> Option<Self> {
        decode_with(Self::merge_fn(), Self::default(), b)
    }

    /// The fields that the message is written as, in the order of writing.
    pub open spec fn fields(self) -> Seq<Field> {
        KeyValueView::repeated(7, self.attributes)
            + fixed64_member(2, self.start_time_unix_nano)
            + fixed64_member(3, self.time_unix_nano)
            + fixed64_member(4, self.count)
            + fixed64_member(5, self.sum)
            + SummaryDataPointValueAtQuantileView::repeated(6, self.quantile_values)
            + varint_member(8, self.flags as u64)
    }

    /// The body of the message in bytes.
    #[verifier::opaque]
    pub open spec fn wire(self) -> Seq<u8> {
        fields_bytes(self.fields())
    }

    /// The bodies of a list of messages.
    pub open spec fn bodies(items: Seq<Self>) -> Seq<Seq<u8>> {
        Seq::new(items.len(), |i: int| items[i].wire())
    }

    /// A repeated member of this type as fields: one run per item, in order.
    pub open spec fn repeated(number: u32, items: Seq<Self>) -> Seq<Field> {
        repeated_runs(number, Self::bodies(items))
    }
}

impl GaugeView {
    /// Merges one field into the message: a field of a member gives the member its
    /// value, or one more item; any other field is passed over. `None` where the
    /// payload of a member's field is malformed.
    pub open spec fn merge(acc: Self, f: Field) -> Option<Self> {
        if f.number == 1 && f.payload is Run {
            match NumberDataPointView::decode(f.payload->Run_0) {
                Some(x) => Some(Self { data_points: acc.data_points.push(x) }),
                None => None,
            }
        } else {
            Some(acc)
        }
    }

    /// `merge` as a function of the message and the field.
    pub open spec fn merge_fn() -> spec_fn(Self, Field) -> Option<Self> {
        |acc: Self, f: Field| Self::merge(acc, f)
    }

    /// The message that a body stands for: its fields, merged one by one into the
    /// message with every member at its zero value.
    #[verifier::opaque]
    pub open spec fn decode(b: Seq<u8>) -> Option<Self> {
        decode_with(Self::merge_fn(), Self::default(), b)
    }

    /// The fields that the message is written as, in the order of writing.
    pub open spec fn fields(self) -> Seq<Field> {
        NumberDataPointView::repeated(1, self.data_points)
    }

    /// The body of the message in bytes.
    #[verifier::opaque]
    pub open spec fn wire(self) -> Seq<u8> {
        fields_bytes(self.fields())
    }
}

impl SumView {
    /// Merges one field into the message: a field of a member gives the member its
    /// value, or one more item; any other field is passed over. `None` where the
    /// payload of a member's field is malformed.
    pub open spec fn merge(acc: Self, f: Field) -> Option<Self> {
        if f.number == 1 && f.payload is Run {
            match NumberDataPointView::decode(f.payload->Run_0) {
                Some(x) => Some(Self { data_points: acc.data_points.push(x), ..acc }),
                None => None,
            }
        } else if f.number == 2 && f.payload is Varint {
            Some(
                Self {
                    aggregation_temporality: AggregationTemporality::spec_from_number(
                        low32_signed(f.payload->Varint_0),
                    ),
                    ..acc
                },
            )
        } else if f.number == 3 && f.payload is Varint {
            Some(Self { is_monotonic: f.payload->Varint_0 != 0, ..acc })
        } else {
            Some(acc)
        }
    }

    /// `merge` as a function of the message and the field.
    pub open spec fn merge_fn() -> spec_fn(Self, Field) -> Option<Self> {
        |acc: Self, f: Field| Self::merge(acc, f)
    }

    /// The message that a body stands for: its fields, merged one by one into the
    /// message with every member at its zero value.
    #[verifier::opaque]
    pub open spec fn decode(b: Seq<u8>) -> Option<Self> {
        decode_with(Self::merge_fn(), Self::default(), b)
    }

    /// The fields that the message is written as, in the order of writing.
    pub open spec fn fields(self) -> Seq<Field> {
        NumberDataPointView::repeated(1, self.data_points)
            + varint_member(2, self.aggregation_temporality.spec_number() as u64)
            + varint_member(3, if self.is_monotonic { 1u64 } else { 0u64 })
    }

    /// The body of the message in bytes.
    #[verifier::opaque]
    pub open spec fn wire(self) -> Seq<u8> {
        fields_bytes(self.fields())
    }
}

impl HistogramView {
    /// Merges one field into the message: a field of a member gives the member its
    /// value, or one more item; any other field is passed over. `None` where the
    /// payload of a member's field is malformed.
    pub open spec fn merge(acc: Self, f: Field) -> Option<Self> {
        if f.number == 1 && f.payload is Run {
            match HistogramDataPointView::decode(f.payload->Run_0) {
                Some(x) => Some(Self { data_points: acc.data_points.push(x), ..acc }),
                None => None,
            }
        } else if f.number == 2 && f.payload is Varint {
            Some(
                Self {
                    aggregation_temporality: AggregationTemporality::spec_from_number(
                        low32_signed(f.payload->Varint_0),
                    ),
                    ..acc
                },
            )
        } else {
            Some(acc)
        }
    }

    /// `merge` as a function of the message and the field.
    pub open spec fn merge_fn() -> spec_fn(Self, Field) -> Option<Self> {
        |acc: Self, f: Field| Self::merge(acc, f)
    }

    /// The message that a body stands for: its fields, merged one by one into the
    /// message with every member at its zero value.
    #[verifier::opaque]
    pub open spec fn decode(b: Seq<u8>) -> Option<Self> {
        decode_with(Self::merge_fn(), Self::default(), b)
    }

    /// The fields that the message is written as, in the order of writing.
    pub open spec fn fields(self) -> Seq<Field> {
        HistogramDataPointView::repeated(1, self.data_points)
            + varint_member(2, self.aggregation_temporality.spec_number() as u64)
    }

    /// The body of the message in bytes.
    #[verifier::opaque]
    pub open spec fn wire(self) -> Seq<u8> {
        fields_bytes(self.fields())
    }
}

impl ExponentialHistogramView {
    /// Merges one field into the message: a field of a member gives the member its
    /// value, or one more item; any other field is passed over. `None` where the
    /// payload of a member's field is malformed.
    pub open spec fn merge(acc: Self, f: Field) -> Option<Self> {
        if f.number == 1 && f.payload is Run {
            match ExponentialHistogramDataPointView::decode(f.payload->Run_0) {
                Some(x) => Some(Self { data_points: acc.data_points.push(x), ..acc }),
                None => None,
            }
        } else if f.number == 2 && f.payload is Varint {
            Some(
                Self {
                    aggregation_temporality: AggregationTemporality::spec_from_number(
                        low32_signed(f.payload->Varint_0),
                    ),
                    ..acc
                },
            )
        } else {
            Some(acc)
        }
    }

    /// `merge` as a function of the message and the field.
    pub open spec fn merge_fn() -> spec_fn(Self, Field) -> Option<Self> {
        |acc: Self, f: Field| Self::merge(acc, f)
    }

    /// The message that a body stands for: its fields, merged one by one into the
    /// message with every member at its zero value.
    #[verifier::opaque]
    pub open spec fn decode(b: Seq<u8>) -> Option<Self> {
        decode_with(Self::merge_fn(), Self::default(), b)
    }

    /// The fields that the message is written as, in the order of writing.
    pub open spec fn fields(self) -> Seq<Field> {
        ExponentialHistogramDataPointView::repeated(1, self.data_points)
            + varint_member(2, self.aggregation_temporality.spec_number() as u64)
    }

    /// The body of the message in bytes.
    #[verifier::opaque]
    pub open spec fn wire(self) -> Seq<u8> {
        fields_bytes(self.fields())
    }
}

impl SummaryView {
    /// Merges one field into the message: a field of a member gives the member its
    /// value, or one more item; any other field is passed over. `None` where the
    /// payload of a member's field is malformed.
    pub open spec fn merge(acc: Self, f: Field) -> Option<Self> {
        if f.number == 1 && f.payload is Run {
            match SummaryDataPointView::decode(f.payload->Run_0) {
                Some(x) => Some(Self { data_points: acc.data_points.push(x) }),
                None => None,
            }
        } else {
            Some(acc)
        }
    }

    /// `merge` as a function of the message and the field.
    pub open spec fn merge_fn() -> spec_fn(Self, Field) -> Option<Self> {
        |acc: Self, f: Field| Self::merge(acc, f)
    }

    /// The message that a body stands for: its fields, merged one by one into the
    /// message with every member at its zero value.
    #[verifier::opaque]
    pub open spec fn decode(b: Seq<u8>) -> Option<Self> {
        decode_with(Self::merge_fn(), Self::default(), b)
    }

    /// The fields that the message is written as, in the order of writing.
    pub open spec fn fields(self) -> Seq<Field> {
        SummaryDataPointView::repeated(1, self.data_points)
    }

    /// The body of the message in bytes.
    #[verifier::opaque]
    pub open spec fn wire(self) -> Seq<u8> {
        fields_bytes(self.fields())
    }
}

impl MetricOneOfdataView {
    /// The field that stands for the variant in force: none where nothing is set.
    pub open spec fn fields(self) -> Seq<Field> {
        match self {
            MetricOneOfdataView::gauge(x) => one(5, Payload::Run(x.wire())),
            MetricOneOfdataView::sum(x) => one(7, Payload::Run(x.wire())),
            MetricOneOfdataView::histogram(x) => one(9, Payload::Run(x.wire())),
            MetricOneOfdataView::exponential_histogram(x) => one(10, Payload::Run(x.wire())),
            MetricOneOfdataView::summary(x) => one(11, Payload::Run(x.wire())),
            MetricOneOfdataView::Unset => Seq::empty(),
        }
    }
}

impl MetricView {
    /// Merges one field into the message: a field of a member gives the member its
    /// value, or one more item; any other field is passed over. `None` where the
    /// payload of a member's field is malformed.
    pub open spec fn merge(acc: Self, f: Field) -> Option<Self> {
        if f.number == 1 && f.payload is Run {
            if valid_utf8(f.payload->Run_0) {
                Some(Self { name: decode_utf8(f.payload->Run_0), ..acc })
            } else {
                None
            }
        } else if f.number == 2 && f.payload is Run {
            if valid_utf8(f.payload->Run_0) {
                Some(Self { description: decode_utf8(f.payload->Run_0), ..acc })
            } else {
                None
            }
        } else if f.number == 3 && f.payload is Run {
            if valid_utf8(f.payload->Run_0) {
                Some(Self { unit: decode_utf8(f.payload->Run_0), ..acc })
            } else {
                None
            }
        } else if f.number == 5 && f.payload is Run {
            match GaugeView::decode(f.payload->Run_0) {
                Some(x) => Some(Self { data: MetricOneOfdataView::gauge(x), ..acc }),
                None => None,
            }
        } else if f.number == 7 && f.payload is Run {
            match SumView::decode(f.payload->Run_0) {
                Some(x) => Some(Self { data: MetricOneOfdataView::sum(x), ..acc }),
                None => None,
            }
        } else if f.number == 9 && f.payload is Run {
            match HistogramView::decode(f.payload->Run_0) {
                Some(x) => Some(Self { data: MetricOneOfdataView::histogram(x), ..acc }),
                None => None,
            }
        } else if f.number == 10 && f.payload is Run {
            match ExponentialHistogramView::decode(f.payload->Run_0) {
                Some(x) => Some(
                    Self { data: MetricOneOfdataView::exponential_histogram(x), ..acc },
                ),
                None => None,
            }
        } else if f.number == 11 && f.payload is Run {
            match SummaryView::decode(f.payload->Run_0) {
                Some(x) => Some(Self { data: MetricOneOfdataView::summary(x), ..acc }),
                None => None,
            }
        } else {
            Some(acc)
        }
    }

    /// `merge` as a function of the message and the field.
    pub open spec fn merge_fn() -> spec_fn(Self, Field) -> Option<Self> {
        |acc: Self, f: Field| Self::merge(acc, f)
    }

    /// The message that a body stands for: its fields, merged one by one into the
    /// message with every member at its zero value.
    #[verifier::opaque]
    pub open spec fn decode(b: Seq<u8>) -> Option<Self> {
        decode_with(Self::merge_fn(), Self::default(), b)
    }

    /// The fields that the message is written as, in the order of writing.
    pub open spec fn fields(self) -> Seq<Field> {
        run_member(1, encode_utf8(self.name))
            + run_member(2, encode_utf8(self.description))
            + run_member(3, encode_utf8(self.unit))
            + self.data.fields()
    }

    /// The body of the message in bytes.
    #[verifier::opaque]
    pub open spec fn wire(self) -> Seq<u8> {
        fields_bytes(self.fields())
    }

    /// The bodies of a list of messages.
    pub open spec fn bodies(items: Seq<Self>) -> Seq<Seq<u8>> {
        Seq::new(items.len(), |i: int| items[i].wire())
    }

    /// A repeated member of this type as fields: one run per item, in order.
    pub open spec fn repeated(number: u32, items: Seq<Self>) -> Seq<Field> {
        repeated_runs(number, Self::bodies(items))
    }
}

impl ScopeMetricsView {
    /// Merges one field into the message: a field of a member gives the member its
    /// value, or one more item; any other field is passed over. `None` where the
    /// payload of a member's field is malformed.
    pub open spec fn merge(acc: Self, f: Field) -> Option<Self> {
        if f.number == 1 && f.payload is Run {
            match InstrumentationScopeView::decode(f.payload->Run_0) {
                Some(x) => Some(Self { scope: Some(x), ..acc }),
                None => None,
            }
        } else if f.number == 2 && f.payload is Run {
            match MetricView::decode(f.payload->Run_0) {
                Some(x) => Some(Self { metrics: acc.metrics.push(x), ..acc }),
                None => None,
            }
        } else if f.number == 3 && f.payload is Run {
            if valid_utf8(f.payload->Run_0) {
                Some(Self { schema_url: decode_utf8(f.payload->Run_0), ..acc })
            } else {
                None
            }
        } else {
            Some(acc)
        }
    }

    /// `merge` as a function of the message and the field.
    pub open spec fn merge_fn() -> spec_fn(Self, Field) -> Option<Self> {
        |acc: Self, f: Field| Self::merge(acc, f)
    }

    /// The message that a body stands for: its fields, merged one by one into the
    /// message with every member at its zero value.
    #[verifier::opaque]
    pub open spec fn decode(b: Seq<u8>) -> Option<Self> {
        decode_with(Self::merge_fn(), Self::default(), b)
    }

    /// The fields that the message is written as, in the order of writing.
    pub open spec fn fields(self) -> Seq<Field> {
        InstrumentationScopeView::optional(1, self.scope)
            + MetricView::repeated(2, self.metrics)
            + run_member(3, encode_utf8(self.schema_url))
    }

    /// The body of the message in bytes.
    #[verifier::opaque]
    pub open spec fn wire(self) -> Seq<u8> {
        fields_bytes(self.fields())
    }

    /// The bodies of a list of messages.
    pub open spec fn bodies(items: Seq<Self>) -> Seq<Seq<u8>> {
        Seq::new(items.len(), |i: int| items[i].wire())
    }

    /// A repeated member of this type as fields: one run per item, in order.
    pub open spec fn repeated(number: u32, items: Seq<Self>) -> Seq<Field> {
        repeated_runs(number, Self::bodies(items))
    }
}

impl ResourceMetricsView {
    /// Merges one field into the message: a field of a member gives the member its
    /// value, or one more item; any other field is passed over. `None` where the
    /// payload of a member's field is malformed.
    pub open spec fn merge(acc: Self, f: Field) -> Option<Self> {
        if f.number == 1 && f.payload is Run {
            match ResourceView::decode(f.payload->Run_0) {
                Some(x) => Some(Self { resource: Some(x), ..acc }),
                None => None,
            }
        } else if f.number == 2 && f.payload is Run {
            match ScopeMetricsView::decode(f.payload->Run_0) {
                Some(x) => Some(Self { scope_metrics: acc.scope_metrics.push(x), ..acc }),
                None => None,
            }
        } else if f.number == 3 && f.payload is Run {
            if valid_utf8(f.payload->Run_0) {
                Some(Self { schema_url: decode_utf8(f.payload->Run_0), ..acc })
            } else {
                None
            }
        } else {
            Some(acc)
        }
    }

    /// `merge` as a function of the message and the field.
    pub open spec fn merge_fn() -> spec_fn(Self, Field) -> Option<Self> {
        |acc: Self, f: Field| Self::merge(acc, f)
    }

    /// The message that a body stands for: its fields, merged one by one into the
    /// message with every member at its zero value.
    #[verifier::opaque]
    pub open spec fn decode(b: Seq<u8>) -> Option<Self> {
        decode_with(Self::merge_fn(), Self::default(), b)
    }

    /// The fields that the message is written as, in the order of writing.
    pub open spec fn fields(self) -> Seq<Field> {
        ResourceView::optional(1, self.resource)
            + ScopeMetricsView::repeated(2, self.scope_metrics)
            + run_member(3, encode_utf8(self.schema_url))
    }

    /// The body of the message in bytes.
    #[verifier::opaque]
    pub open spec fn wire(self) -> Seq<u8> {
        fields_bytes(self.fields())
    }

    /// The bodies of a list of messages.
    pub open spec fn bodies(items: Seq<Self>) -> Seq<Seq<u8>> {
        Seq::new(items.len(), |i: int| items[i].wire())
    }

    /// A repeated member of this type as fields: one run per item, in order.
    pub open spec fn repeated(number: u32, items: Seq<Self>) -> Seq<Field> {
        repeated_runs(number, Self::bodies(items))
    }
}

impl ExportMetricsServiceRequestView {
    /// Merges one field into the message: a field of a member gives the member its
    /// value, or one more item; any other field is passed over. `None` where the
    /// payload of a member's field is malformed.
    pub open spec fn merge(acc: Self, f: Field) -> Option<Self> {
        if f.number == 1 && f.payload is Run {
            match ResourceMetricsView::decode(f.payload->Run_0) {
                Some(x) => Some(Self { resource_metrics: acc.resource_metrics.push(x) }),
                None => None,
            }
        } else {
            Some(acc)
        }
    }

    /// `merge` as a function of the message and the field.
    pub open spec fn merge_fn() -> spec_fn(Self, Field) -> Option<Self> {
        |acc: Self, f: Field| Self::merge(acc, f)
    }

    /// The message that a body stands for: its fields, merged one by one into the
    /// message with every member at its zero value.
    #[verifier::opaque]
    pub open spec fn decode(b: Seq<u8>) -> Option<Self> {
        decode_with(Self::merge_fn(), Self::default(), b)
    }

    /// The fields that the message is written as, in the order of writing.
    pub open spec fn fields(self) -> Seq<Field> {
        ResourceMetricsView::repeated(1, self.resource_metrics)
    }

    /// The body of the message in bytes.
    #[verifier::opaque]
    pub open spec fn wire(self) -> Seq<u8> {
        fields_bytes(self.fields())
    }
}

} // verus!
