//! What holds of the wire format of the metrics family: a message that was written
//! reads back as itself, a message at its zero value takes no bytes, and a field of
//! no member does no harm.

use crate::field::{
    Field, Payload, all_fields, all_well_formed, field_bytes, fields_bytes, fold_fields,
    lemma_all_fields_concat, lemma_decode_fields, lemma_fields_bytes_concat, lemma_fields_bytes_one,
    lemma_fields_round_trip, lemma_fold_chain, lemma_fold_concat, lemma_fold_one,
    lemma_fold_passes_over, lemma_parse_fields_concat, lemma_run_shorter, lemma_well_formed_by_len,
    parse_fields, well_formed,
};
use crate::member::{
    fixed64_member, framed, lemma_frame_round_trip, lemma_packed_fixed64_round_trip, packed_fixed64,
    packed_fixed64_member, parse_framed, repeated_varints, run_member, varint_member,
};
use crate::opentelemetry::common::types::{InstrumentationScopeView, KeyValueView, ResourceView};
use crate::opentelemetry::metrics::types::{
    AggregationTemporality, ExemplarOneOfvalueView, ExemplarView,
    ExponentialHistogramDataPointBucketsView, ExponentialHistogramDataPointView,
    ExponentialHistogramView, ExportMetricsServiceRequestView, GaugeView, HistogramDataPointView,
    HistogramView, MetricOneOfdataView, MetricView, NumberDataPointOneOfvalueView,
    NumberDataPointView, ResourceMetricsView, ScopeMetricsView, SumView,
    SummaryDataPointValueAtQuantileView, SummaryDataPointView, SummaryView,
};
use crate::wire::{unsigned64, zigzag32};
use vstd::prelude::*;
use vstd::utf8::{encode_utf8, encode_utf8_decode_utf8, encode_utf8_valid_utf8};

verus! {

impl ExemplarView {
    /// The field numbers of the members.
    pub open spec fn has_number(number: u32) -> bool {
        number == 7 || number == 2 || number == 4 || number == 5 || number == 3 || number == 6
    }

    /// The message with its first `k` members as they are in `self`, and the others at
    /// their zero value.
    spec fn first_members(self, k: nat) -> Self {
        Self {
            filtered_attributes: if k > 0 { self.filtered_attributes } else { Seq::empty() },
            time_unix_nano: if k > 1 { self.time_unix_nano } else { 0 },
            span_id: if k > 2 { self.span_id } else { Seq::empty() },
            trace_id: if k > 3 { self.trace_id } else { Seq::empty() },
            value: if k > 4 { self.value } else { ExemplarOneOfvalueView::Unset },
        }
    }

    proof fn lemma_member_filtered_attributes(self)
        requires
            fields_bytes(KeyValueView::repeated(7, self.filtered_attributes)).len() <= u64::MAX,
        ensures
            fold_fields(
                Self::merge_fn(),
                self.first_members(0),
                KeyValueView::repeated(7, self.filtered_attributes),
            ) == Some(self.first_members(1)),
    {
        let v = self;
        let merge = Self::merge_fn();
        let f1 = KeyValueView::repeated(7, v.filtered_attributes);
        let a0 = v.first_members(0);
        let a1 = v.first_members(1);
        let states = |i: int| Self {
            filtered_attributes: v.filtered_attributes.take(i),
            ..v.first_members(0)
        };
        assert forall|i: int| 0 <= i < f1.len() implies merge(states(i), #[trigger] f1[i]) == Some(
            states(i + 1),
        ) by {
            lemma_run_shorter(f1, i);
            v.filtered_attributes[i].lemma_round_trip();
            assert(
                v.filtered_attributes.take(i).push(v.filtered_attributes[i])
                    =~= v.filtered_attributes.take(i + 1)
            );
        }
        lemma_fold_chain(merge, f1, states);
        assert(v.filtered_attributes.take(0) =~= Seq::<KeyValueView>::empty());
        assert(
            v.filtered_attributes.take(v.filtered_attributes.len() as int) =~= v.filtered_attributes
        );
        assert(states(0) == a0);
        assert(states(f1.len() as int) == a1);
    }

    proof fn lemma_member_time_unix_nano(self)
        ensures
            fold_fields(
                Self::merge_fn(),
                self.first_members(1),
                fixed64_member(2, self.time_unix_nano),
            ) == Some(self.first_members(2)),
    {
        let v = self;
        let merge = Self::merge_fn();
        let a1 = v.first_members(1);
        let f = Field { number: 2, payload: Payload::Fixed64(v.time_unix_nano) };
        lemma_fold_one(merge, a1, f);
    }

    proof fn lemma_member_span_id(self)
        ensures
            fold_fields(
                Self::merge_fn(),
                self.first_members(2),
                run_member(4, self.span_id),
            ) == Some(self.first_members(3)),
    {
        let v = self;
        let merge = Self::merge_fn();
        let f3 = run_member(4, v.span_id);
        let a2 = v.first_members(2);
        let f = Field { number: 4, payload: Payload::Run(v.span_id) };
        lemma_fold_one(merge, a2, f);
        if f3.len() == 0 {
            assert(v.span_id =~= Seq::<u8>::empty());
        }
    }

    proof fn lemma_member_trace_id(self)
        ensures
            fold_fields(
                Self::merge_fn(),
                self.first_members(3),
                run_member(5, self.trace_id),
            ) == Some(self.first_members(4)),
    {
        let v = self;
        let merge = Self::merge_fn();
        let f4 = run_member(5, v.trace_id);
        let a3 = v.first_members(3);
        let f = Field { number: 5, payload: Payload::Run(v.trace_id) };
        lemma_fold_one(merge, a3, f);
        if f4.len() == 0 {
            assert(v.trace_id =~= Seq::<u8>::empty());
        }
    }

    proof fn lemma_member_value(self)
        requires
            fields_bytes(self.value.fields()).len() <= u64::MAX,
        ensures
            fold_fields(
                Self::merge_fn(),
                self.first_members(4),
                self.value.fields(),
            ) == Some(self.first_members(5)),
    {
        let v = self;
        let merge = Self::merge_fn();
        let f5 = v.value.fields();
        let a4 = v.first_members(4);
        match v.value {
            ExemplarOneOfvalueView::as_double(x) => {
                let f = Field { number: 3, payload: Payload::Fixed64(x) };
                assert(f5 =~= seq![f]);
                lemma_fold_one(merge, a4, f);
            },
            ExemplarOneOfvalueView::as_int(x) => {
                let f = Field { number: 6, payload: Payload::Fixed64(unsigned64(x)) };
                assert(f5 =~= seq![f]);
                lemma_fold_one(merge, a4, f);
            },
            ExemplarOneOfvalueView::Unset => {},
        }
    }

    /// Merging the fields that the message is written as, into the message with every
    /// member at its zero value, gives the message.
    pub proof fn lemma_fold_fields(self)
        requires
            self.wire().len() <= u64::MAX,
        ensures
            fold_fields(Self::merge_fn(), Self::default(), self.fields()) == Some(self),
    {
        let v = self;
        let merge = Self::merge_fn();
        let f1 = KeyValueView::repeated(7, v.filtered_attributes);
        let f2 = fixed64_member(2, v.time_unix_nano);
        let f3 = run_member(4, v.span_id);
        let f4 = run_member(5, v.trace_id);
        let f5 = v.value.fields();
        let a0 = v.first_members(0);
        assert(a0 == Self::default());
        reveal(ExemplarView::wire);
        lemma_fields_bytes_concat(f1, f2);
        lemma_fields_bytes_concat(f1 + f2, f3);
        lemma_fields_bytes_concat(f1 + f2 + f3, f4);
        lemma_fields_bytes_concat(f1 + f2 + f3 + f4, f5);
        v.lemma_member_filtered_attributes();
        v.lemma_member_time_unix_nano();
        lemma_fold_concat(merge, a0, f1, f2);
        v.lemma_member_span_id();
        lemma_fold_concat(merge, a0, f1 + f2, f3);
        v.lemma_member_trace_id();
        lemma_fold_concat(merge, a0, f1 + f2 + f3, f4);
        v.lemma_member_value();
        lemma_fold_concat(merge, a0, f1 + f2 + f3 + f4, f5);
        assert(v.first_members(5) == v);
    }

    /// Decoding what was written gives the message back, and so writing what was
    /// decoded from such bytes gives the bytes back. The length of the body must fit in
    /// 64 bits, as that of every message in memory does.
    pub proof fn lemma_round_trip(self)
        requires
            self.wire().len() <= u64::MAX,
        ensures
            Self::decode(self.wire()) == Some(self),
            Self::decode(self.wire()) matches Some(back) && back.wire() == self.wire(),
    {
        reveal(ExemplarView::wire);
        reveal(ExemplarView::decode);
        lemma_well_formed_by_len(self.fields());
        self.lemma_fold_fields();
        lemma_decode_fields(Self::merge_fn(), Self::default(), self.fields());
    }

    /// Decoding the framed message gives the message back, whatever follows it.
    pub proof fn lemma_framed_round_trip(self, rest: Seq<u8>)
        requires
            self.wire().len() <= u64::MAX,
        ensures
            parse_framed(framed(self.wire()) + rest) == Some(self.wire()),
            Self::decode(self.wire()) == Some(self),
    {
        lemma_frame_round_trip(self.wire(), rest);
        self.lemma_round_trip();
    }

    /// Fields of no member do not count, wherever they stand: the bytes decode to what
    /// the fields of members among them give.
    pub proof fn lemma_passes_over_unknown(b: Seq<u8>)
        ensures
            match parse_fields(b) {
                Some(fs) => Self::decode(b) == fold_fields(
                    Self::merge_fn(),
                    Self::default(),
                    fs.filter(|f: Field| Self::has_number(f.number)),
                ),
                None => Self::decode(b) is None,
            },
    {
        reveal(ExemplarView::decode);
        match parse_fields(b) {
            Some(fs) => {
                lemma_fold_passes_over(
                    Self::merge_fn(),
                    Self::default(),
                    fs,
                    |f: Field| Self::has_number(f.number),
                );
            },
            None => {},
        }
    }

    /// A field of no member, appended to bytes that decode, changes nothing: the bytes
    /// still decode, and to the same message.
    pub proof fn lemma_unknown_field(b: Seq<u8>, f: Field)
        requires
            Self::decode(b) is Some,
            !Self::has_number(f.number),
            well_formed(f),
        ensures
            Self::decode(b + field_bytes(f)) == Self::decode(b),
    {
        reveal(ExemplarView::decode);
        let fs = parse_fields(b)->Some_0;
        let all = b + field_bytes(f);
        lemma_fields_bytes_one(f);
        assert(all_well_formed(seq![f]));
        lemma_fields_round_trip(seq![f]);
        lemma_parse_fields_concat(b, field_bytes(f));
        let merge = Self::merge_fn();
        lemma_fold_concat(merge, Self::default(), fs, seq![f]);
        lemma_fold_one(merge, Self::decode(b)->Some_0, f);
    }

    /// Whether the member that the field number belongs to differs from its zero
    /// value. For a member that holds one of several kinds of value, whether the kind
    /// with this number is the one in force.
    pub open spec fn is_set(self, number: u32) -> bool {
        if number == 7 {
            self.filtered_attributes.len() > 0
        } else if number == 2 {
            self.time_unix_nano != 0
        } else if number == 4 {
            self.span_id.len() > 0
        } else if number == 5 {
            self.trace_id.len() > 0
        } else if number == 3 {
            self.value is as_double
        } else if number == 6 {
            self.value is as_int
        } else {
            false
        }
    }

    /// A member at its zero value is not written: every field of the message belongs
    /// to a member that differs from its zero value.
    pub proof fn lemma_zero_members_omitted(self)
        ensures
            all_fields(self.fields(), |f: Field| self.is_set(f.number)),
    {
        let v = self;
        let set = |f: Field| self.is_set(f.number);
        let f1 = KeyValueView::repeated(7, v.filtered_attributes);
        let f2 = fixed64_member(2, v.time_unix_nano);
        let f3 = run_member(4, v.span_id);
        let f4 = run_member(5, v.trace_id);
        let f5 = v.value.fields();
        assert(all_fields(f1, set)) by {
        }
        assert(all_fields(f2, set)) by {
        }
        assert(all_fields(f3, set)) by {
        }
        assert(all_fields(f4, set)) by {
        }
        assert(all_fields(f5, set)) by {
        }
        lemma_all_fields_concat(f1, f2, set);
        lemma_all_fields_concat(f1 + f2, f3, set);
        lemma_all_fields_concat(f1 + f2 + f3, f4, set);
        lemma_all_fields_concat(f1 + f2 + f3 + f4, f5, set);
    }

    /// The message with every member at its zero value is written as no byte at all.
    pub proof fn lemma_default_wire()
        ensures
            Self::default().fields() == Seq::<Field>::empty(),
            Self::default().wire() == Seq::<u8>::empty(),
    {
        let v = Self::default();
        assert(KeyValueView::repeated(7, v.filtered_attributes) =~= Seq::<Field>::empty());
        assert(fixed64_member(2, v.time_unix_nano) =~= Seq::<Field>::empty());
        assert(run_member(4, v.span_id) =~= Seq::<Field>::empty());
        assert(run_member(5, v.trace_id) =~= Seq::<Field>::empty());
        assert(v.value.fields() =~= Seq::<Field>::empty());
        assert(v.fields() =~= Seq::<Field>::empty());
        reveal(ExemplarView::wire);
    }
}

impl NumberDataPointView {
    /// The field numbers of the members.
    pub open spec fn has_number(number: u32) -> bool {
        number == 7
            || number == 2
            || number == 3
            || number == 5
            || number == 8
            || number == 4
            || number == 6
    }

    /// The message with its first `k` members as they are in `self`, and the others at
    /// their zero value.
    spec fn first_members(self, k: nat) -> Self {
        Self {
            attributes: if k > 0 { self.attributes } else { Seq::empty() },
            start_time_unix_nano: if k > 1 { self.start_time_unix_nano } else { 0 },
            time_unix_nano: if k > 2 { self.time_unix_nano } else { 0 },
            exemplars: if k > 3 { self.exemplars } else { Seq::empty() },
            flags: if k > 4 { self.flags } else { 0 },
            value: if k > 5 { self.value } else { NumberDataPointOneOfvalueView::Unset },
        }
    }

    proof fn lemma_member_attributes(self)
        requires
            fields_bytes(KeyValueView::repeated(7, self.attributes)).len() <= u64::MAX,
        ensures
            fold_fields(
                Self::merge_fn(),
                self.first_members(0),
                KeyValueView::repeated(7, self.attributes),
            ) == Some(self.first_members(1)),
    {
        let v = self;
        let merge = Self::merge_fn();
        let f1 = KeyValueView::repeated(7, v.attributes);
        let a0 = v.first_members(0);
        let a1 = v.first_members(1);
        let states = |i: int| Self { attributes: v.attributes.take(i), ..v.first_members(0) };
        assert forall|i: int| 0 <= i < f1.len() implies merge(states(i), #[trigger] f1[i]) == Some(
            states(i + 1),
        ) by {
            lemma_run_shorter(f1, i);
            v.attributes[i].lemma_round_trip();
            assert(v.attributes.take(i).push(v.attributes[i]) =~= v.attributes.take(i + 1));
        }
        lemma_fold_chain(merge, f1, states);
        assert(v.attributes.take(0) =~= Seq::<KeyValueView>::empty());
        assert(v.attributes.take(v.attributes.len() as int) =~= v.attributes);
        assert(states(0) == a0);
        assert(states(f1.len() as int) == a1);
    }

    proof fn lemma_member_start_time_unix_nano(self)
        ensures
            fold_fields(
                Self::merge_fn(),
                self.first_members(1),
                fixed64_member(2, self.start_time_unix_nano),
            ) == Some(self.first_members(2)),
    {
        let v = self;
        let merge = Self::merge_fn();
        let a1 = v.first_members(1);
        let f = Field { number: 2, payload: Payload::Fixed64(v.start_time_unix_nano) };
        lemma_fold_one(merge, a1, f);
    }

    proof fn lemma_member_time_unix_nano(self)
        ensures
            fold_fields(
                Self::merge_fn(),
                self.first_members(2),
                fixed64_member(3, self.time_unix_nano),
            ) == Some(self.first_members(3)),
    {
        let v = self;
        let merge = Self::merge_fn();
        let a2 = v.first_members(2);
        let f = Field { number: 3, payload: Payload::Fixed64(v.time_unix_nano) };
        lemma_fold_one(merge, a2, f);
    }

    proof fn lemma_member_exemplars(self)
        requires
            fields_bytes(ExemplarView::repeated(5, self.exemplars)).len() <= u64::MAX,
        ensures
            fold_fields(
                Self::merge_fn(),
                self.first_members(3),
                ExemplarView::repeated(5, self.exemplars),
            ) == Some(self.first_members(4)),
    {
        let v = self;
        let merge = Self::merge_fn();
        let f4 = ExemplarView::repeated(5, v.exemplars);
        let a3 = v.first_members(3);
        let a4 = v.first_members(4);
        let states = |i: int| Self { exemplars: v.exemplars.take(i), ..v.first_members(3) };
        assert forall|i: int| 0 <= i < f4.len() implies merge(states(i), #[trigger] f4[i]) == Some(
            states(i + 1),
        ) by {
            lemma_run_shorter(f4, i);
            v.exemplars[i].lemma_round_trip();
            assert(v.exemplars.take(i).push(v.exemplars[i]) =~= v.exemplars.take(i + 1));
        }
        lemma_fold_chain(merge, f4, states);
        assert(v.exemplars.take(0) =~= Seq::<ExemplarView>::empty());
        assert(v.exemplars.take(v.exemplars.len() as int) =~= v.exemplars);
        assert(states(0) == a3);
        assert(states(f4.len() as int) == a4);
    }

    proof fn lemma_member_flags(self)
        ensures
            fold_fields(
                Self::merge_fn(),
                self.first_members(4),
                varint_member(8, self.flags as u64),
            ) == Some(self.first_members(5)),
    {
        let v = self;
        let merge = Self::merge_fn();
        let a4 = v.first_members(4);
        let f = Field { number: 8, payload: Payload::Varint(v.flags as u64) };
        lemma_fold_one(merge, a4, f);
    }

    proof fn lemma_member_value(self)
        requires
            fields_bytes(self.value.fields()).len() <= u64::MAX,
        ensures
            fold_fields(
                Self::merge_fn(),
                self.first_members(5),
                self.value.fields(),
            ) == Some(self.first_members(6)),
    {
        let v = self;
        let merge = Self::merge_fn();
        let f6 = v.value.fields();
        let a5 = v.first_members(5);
        match v.value {
            NumberDataPointOneOfvalueView::as_double(x) => {
                let f = Field { number: 4, payload: Payload::Fixed64(x) };
                assert(f6 =~= seq![f]);
                lemma_fold_one(merge, a5, f);
            },
            NumberDataPointOneOfvalueView::as_int(x) => {
                let f = Field { number: 6, payload: Payload::Fixed64(unsigned64(x)) };
                assert(f6 =~= seq![f]);
                lemma_fold_one(merge, a5, f);
            },
            NumberDataPointOneOfvalueView::Unset => {},
        }
    }

    /// Merging the fields that the message is written as, into the message with every
    /// member at its zero value, gives the message.
    pub proof fn lemma_fold_fields(self)
        requires
            self.wire().len() <= u64::MAX,
        ensures
            fold_fields(Self::merge_fn(), Self::default(), self.fields()) == Some(self),
    {
        let v = self;
        let merge = Self::merge_fn();
        let f1 = KeyValueView::repeated(7, v.attributes);
        let f2 = fixed64_member(2, v.start_time_unix_nano);
        let f3 = fixed64_member(3, v.time_unix_nano);
        let f4 = ExemplarView::repeated(5, v.exemplars);
        let f5 = varint_member(8, v.flags as u64);
        let f6 = v.value.fields();
        let a0 = v.first_members(0);
        assert(a0 == Self::default());
        reveal(NumberDataPointView::wire);
        lemma_fields_bytes_concat(f1, f2);
        lemma_fields_bytes_concat(f1 + f2, f3);
        lemma_fields_bytes_concat(f1 + f2 + f3, f4);
        lemma_fields_bytes_concat(f1 + f2 + f3 + f4, f5);
        lemma_fields_bytes_concat(f1 + f2 + f3 + f4 + f5, f6);
        v.lemma_member_attributes();
        v.lemma_member_start_time_unix_nano();
        lemma_fold_concat(merge, a0, f1, f2);
        v.lemma_member_time_unix_nano();
        lemma_fold_concat(merge, a0, f1 + f2, f3);
        v.lemma_member_exemplars();
        lemma_fold_concat(merge, a0, f1 + f2 + f3, f4);
        v.lemma_member_flags();
        lemma_fold_concat(merge, a0, f1 + f2 + f3 + f4, f5);
        v.lemma_member_value();
        lemma_fold_concat(merge, a0, f1 + f2 + f3 + f4 + f5, f6);
        assert(v.first_members(6) == v);
    }

    /// Decoding what was written gives the message back, and so writing what was
    /// decoded from such bytes gives the bytes back. The length of the body must fit in
    /// 64 bits, as that of every message in memory does.
    pub proof fn lemma_round_trip(self)
        requires
            self.wire().len() <= u64::MAX,
        ensures
            Self::decode(self.wire()) == Some(self),
            Self::decode(self.wire()) matches Some(back) && back.wire() == self.wire(),
    {
        reveal(NumberDataPointView::wire);
        reveal(NumberDataPointView::decode);
        lemma_well_formed_by_len(self.fields());
        self.lemma_fold_fields();
        lemma_decode_fields(Self::merge_fn(), Self::default(), self.fields());
    }

    /// Decoding the framed message gives the message back, whatever follows it.
    pub proof fn lemma_framed_round_trip(self, rest: Seq<u8>)
        requires
            self.wire().len() <= u64::MAX,
        ensures
            parse_framed(framed(self.wire()) + rest) == Some(self.wire()),
            Self::decode(self.wire()) == Some(self),
    {
        lemma_frame_round_trip(self.wire(), rest);
        self.lemma_round_trip();
    }

    /// Fields of no member do not count, wherever they stand: the bytes decode to what
    /// the fields of members among them give.
    pub proof fn lemma_passes_over_unknown(b: Seq<u8>)
        ensures
            match parse_fields(b) {
                Some(fs) => Self::decode(b) == fold_fields(
                    Self::merge_fn(),
                    Self::default(),
                    fs.filter(|f: Field| Self::has_number(f.number)),
                ),
                None => Self::decode(b) is None,
            },
    {
        reveal(NumberDataPointView::decode);
        match parse_fields(b) {
            Some(fs) => {
                lemma_fold_passes_over(
                    Self::merge_fn(),
                    Self::default(),
                    fs,
                    |f: Field| Self::has_number(f.number),
                );
            },
            None => {},
        }
    }

    /// A field of no member, appended to bytes that decode, changes nothing: the bytes
    /// still decode, and to the same message.
    pub proof fn lemma_unknown_field(b: Seq<u8>, f: Field)
        requires
            Self::decode(b) is Some,
            !Self::has_number(f.number),
            well_formed(f),
        ensures
            Self::decode(b + field_bytes(f)) == Self::decode(b),
    {
        reveal(NumberDataPointView::decode);
        let fs = parse_fields(b)->Some_0;
        let all = b + field_bytes(f);
        lemma_fields_bytes_one(f);
        assert(all_well_formed(seq![f]));
        lemma_fields_round_trip(seq![f]);
        lemma_parse_fields_concat(b, field_bytes(f));
        let merge = Self::merge_fn();
        lemma_fold_concat(merge, Self::default(), fs, seq![f]);
        lemma_fold_one(merge, Self::decode(b)->Some_0, f);
    }

    /// Whether the member that the field number belongs to differs from its zero
    /// value. For a member that holds one of several kinds of value, whether the kind
    /// with this number is the one in force.
    pub open spec fn is_set(self, number: u32) -> bool {
        if number == 7 {
            self.attributes.len() > 0
        } else if number == 2 {
            self.start_time_unix_nano != 0
        } else if number == 3 {
            self.time_unix_nano != 0
        } else if number == 5 {
            self.exemplars.len() > 0
        } else if number == 8 {
            self.flags != 0
        } else if number == 4 {
            self.value is as_double
        } else if number == 6 {
            self.value is as_int
        } else {
            false
        }
    }

    /// A member at its zero value is not written: every field of the message belongs
    /// to a member that differs from its zero value.
    pub proof fn lemma_zero_members_omitted(self)
        ensures
            all_fields(self.fields(), |f: Field| self.is_set(f.number)),
    {
        let v = self;
        let set = |f: Field| self.is_set(f.number);
        let f1 = KeyValueView::repeated(7, v.attributes);
        let f2 = fixed64_member(2, v.start_time_unix_nano);
        let f3 = fixed64_member(3, v.time_unix_nano);
        let f4 = ExemplarView::repeated(5, v.exemplars);
        let f5 = varint_member(8, v.flags as u64);
        let f6 = v.value.fields();
        assert(all_fields(f1, set)) by {
        }
        assert(all_fields(f2, set)) by {
        }
        assert(all_fields(f3, set)) by {
        }
        assert(all_fields(f4, set)) by {
        }
        assert(all_fields(f5, set)) by {
        }
        assert(all_fields(f6, set)) by {
        }
        lemma_all_fields_concat(f1, f2, set);
        lemma_all_fields_concat(f1 + f2, f3, set);
        lemma_all_fields_concat(f1 + f2 + f3, f4, set);
        lemma_all_fields_concat(f1 + f2 + f3 + f4, f5, set);
        lemma_all_fields_concat(f1 + f2 + f3 + f4 + f5, f6, set);
    }

    /// The message with every member at its zero value is written as no byte at all.
    pub proof fn lemma_default_wire()
        ensures
            Self::default().fields() == Seq::<Field>::empty(),
            Self::default().wire() == Seq::<u8>::empty(),
    {
        let v = Self::default();
        assert(KeyValueView::repeated(7, v.attributes) =~= Seq::<Field>::empty());
        assert(fixed64_member(2, v.start_time_unix_nano) =~= Seq::<Field>::empty());
        assert(fixed64_member(3, v.time_unix_nano) =~= Seq::<Field>::empty());
        assert(ExemplarView::repeated(5, v.exemplars) =~= Seq::<Field>::empty());
        assert(varint_member(8, v.flags as u64) =~= Seq::<Field>::empty());
        assert(v.value.fields() =~= Seq::<Field>::empty());
        assert(v.fields() =~= Seq::<Field>::empty());
        reveal(NumberDataPointView::wire);
    }
}

impl HistogramDataPointView {
    /// The field numbers of the members.
    pub open spec fn has_number(number: u32) -> bool {
        number == 9
            || number == 2
            || number == 3
            || number == 4
            || number == 5
            || number == 6
            || number == 7
            || number == 8
            || number == 10
            || number == 11
            || number == 12
    }

    /// The message with its first `k` members as they are in `self`, and the others at
    /// their zero value.
    spec fn first_members(self, k: nat) -> Self {
        Self {
            attributes: if k > 0 { self.attributes } else { Seq::empty() },
            start_time_unix_nano: if k > 1 { self.start_time_unix_nano } else { 0 },
            time_unix_nano: if k > 2 { self.time_unix_nano } else { 0 },
            count: if k > 3 { self.count } else { 0 },
            sum: if k > 4 { self.sum } else { 0 },
            bucket_counts: if k > 5 { self.bucket_counts } else { Seq::empty() },
            explicit_bounds: if k > 6 { self.explicit_bounds } else { Seq::empty() },
            exemplars: if k > 7 { self.exemplars } else { Seq::empty() },
            flags: if k > 8 { self.flags } else { 0 },
            min: if k > 9 { self.min } else { 0 },
            max: if k > 10 { self.max } else { 0 },
        }
    }

    proof fn lemma_member_attributes(self)
        requires
            fields_bytes(KeyValueView::repeated(9, self.attributes)).len() <= u64::MAX,
        ensures
            fold_fields(
                Self::merge_fn(),
                self.first_members(0),
                KeyValueView::repeated(9, self.attributes),
            ) == Some(self.first_members(1)),
    {
        let v = self;
        let merge = Self::merge_fn();
        let f1 = KeyValueView::repeated(9, v.attributes);
        let a0 = v.first_members(0);
        let a1 = v.first_members(1);
        let states = |i: int| Self { attributes: v.attributes.take(i), ..v.first_members(0) };
        assert forall|i: int| 0 <= i < f1.len() implies merge(states(i), #[trigger] f1[i]) == Some(
            states(i + 1),
        ) by {
            lemma_run_shorter(f1, i);
            v.attributes[i].lemma_round_trip();
            assert(v.attributes.take(i).push(v.attributes[i]) =~= v.attributes.take(i + 1));
        }
        lemma_fold_chain(merge, f1, states);
        assert(v.attributes.take(0) =~= Seq::<KeyValueView>::empty());
        assert(v.attributes.take(v.attributes.len() as int) =~= v.attributes);
        assert(states(0) == a0);
        assert(states(f1.len() as int) == a1);
    }

    proof fn lemma_member_start_time_unix_nano(self)
        ensures
            fold_fields(
                Self::merge_fn(),
                self.first_members(1),
                fixed64_member(2, self.start_time_unix_nano),
            ) == Some(self.first_members(2)),
    {
        let v = self;
        let merge = Self::merge_fn();
        let a1 = v.first_members(1);
        let f = Field { number: 2, payload: Payload::Fixed64(v.start_time_unix_nano) };
        lemma_fold_one(merge, a1, f);
    }

    proof fn lemma_member_time_unix_nano(self)
        ensures
            fold_fields(
                Self::merge_fn(),
                self.first_members(2),
                fixed64_member(3, self.time_unix_nano),
            ) == Some(self.first_members(3)),
    {
        let v = self;
        let merge = Self::merge_fn();
        let a2 = v.first_members(2);
        let f = Field { number: 3, payload: Payload::Fixed64(v.time_unix_nano) };
        lemma_fold_one(merge, a2, f);
    }

    proof fn lemma_member_count(self)
        ensures
            fold_fields(
                Self::merge_fn(),
                self.first_members(3),
                fixed64_member(4, self.count),
            ) == Some(self.first_members(4)),
    {
        let v = self;
        let merge = Self::merge_fn();
        let a3 = v.first_members(3);
        let f = Field { number: 4, payload: Payload::Fixed64(v.count) };
        lemma_fold_one(merge, a3, f);
    }

    proof fn lemma_member_sum(self)
        ensures
            fold_fields(
                Self::merge_fn(),
                self.first_members(4),
                fixed64_member(5, self.sum),
            ) == Some(self.first_members(5)),
    {
        let v = self;
        let merge = Self::merge_fn();
        let a4 = v.first_members(4);
        let f = Field { number: 5, payload: Payload::Fixed64(v.sum) };
        lemma_fold_one(merge, a4, f);
    }

    proof fn lemma_member_bucket_counts(self)
        ensures
            fold_fields(
                Self::merge_fn(),
                self.first_members(5),
                packed_fixed64_member(6, self.bucket_counts),
            ) == Some(self.first_members(6)),
    {
        let v = self;
        let merge = Self::merge_fn();
        let a5 = v.first_members(5);
        lemma_packed_fixed64_round_trip(v.bucket_counts);
        let f = Field { number: 6, payload: Payload::Run(packed_fixed64(v.bucket_counts)) };
        lemma_fold_one(merge, a5, f);
        assert(Seq::<u64>::empty() + v.bucket_counts =~= v.bucket_counts);
        if v.bucket_counts.len() == 0 {
            assert(v.bucket_counts =~= Seq::<u64>::empty());
        }
    }

    proof fn lemma_member_explicit_bounds(self)
        ensures
            fold_fields(
                Self::merge_fn(),
                self.first_members(6),
                packed_fixed64_member(7, self.explicit_bounds),
            ) == Some(self.first_members(7)),
    {
        let v = self;
        let merge = Self::merge_fn();
        let a6 = v.first_members(6);
        lemma_packed_fixed64_round_trip(v.explicit_bounds);
        let f = Field { number: 7, payload: Payload::Run(packed_fixed64(v.explicit_bounds)) };
        lemma_fold_one(merge, a6, f);
        assert(Seq::<u64>::empty() + v.explicit_bounds =~= v.explicit_bounds);
        if v.explicit_bounds.len() == 0 {
            assert(v.explicit_bounds =~= Seq::<u64>::empty());
        }
    }

    proof fn lemma_member_exemplars(self)
        requires
            fields_bytes(ExemplarView::repeated(8, self.exemplars)).len() <= u64::MAX,
        ensures
            fold_fields(
                Self::merge_fn(),
                self.first_members(7),
                ExemplarView::repeated(8, self.exemplars),
            ) == Some(self.first_members(8)),
    {
        let v = self;
        let merge = Self::merge_fn();
        let f8 = ExemplarView::repeated(8, v.exemplars);
        let a7 = v.first_members(7);
        let a8 = v.first_members(8);
        let states = |i: int| Self { exemplars: v.exemplars.take(i), ..v.first_members(7) };
        assert forall|i: int| 0 <= i < f8.len() implies merge(states(i), #[trigger] f8[i]) == Some(
            states(i + 1),
        ) by {
            lemma_run_shorter(f8, i);
            v.exemplars[i].lemma_round_trip();
            assert(v.exemplars.take(i).push(v.exemplars[i]) =~= v.exemplars.take(i + 1));
        }
        lemma_fold_chain(merge, f8, states);
        assert(v.exemplars.take(0) =~= Seq::<ExemplarView>::empty());
        assert(v.exemplars.take(v.exemplars.len() as int) =~= v.exemplars);
        assert(states(0) == a7);
        assert(states(f8.len() as int) == a8);
    }

    proof fn lemma_member_flags(self)
        ensures
            fold_fields(
                Self::merge_fn(),
                self.first_members(8),
                varint_member(10, self.flags as u64),
            ) == Some(self.first_members(9)),
    {
        let v = self;
        let merge = Self::merge_fn();
        let a8 = v.first_members(8);
        let f = Field { number: 10, payload: Payload::Varint(v.flags as u64) };
        lemma_fold_one(merge, a8, f);
    }

    proof fn lemma_member_min(self)
        ensures
            fold_fields(
                Self::merge_fn(),
                self.first_members(9),
                fixed64_member(11, self.min),
            ) == Some(self.first_members(10)),
    {
        let v = self;
        let merge = Self::merge_fn();
        let a9 = v.first_members(9);
        let f = Field { number: 11, payload: Payload::Fixed64(v.min) };
        lemma_fold_one(merge, a9, f);
    }

    proof fn lemma_member_max(self)
        ensures
            fold_fields(
                Self::merge_fn(),
                self.first_members(10),
                fixed64_member(12, self.max),
            ) == Some(self.first_members(11)),
    {
        let v = self;
        let merge = Self::merge_fn();
        let a10 = v.first_members(10);
        let f = Field { number: 12, payload: Payload::Fixed64(v.max) };
        lemma_fold_one(merge, a10, f);
    }

    /// Merging the fields that the message is written as, into the message with every
    /// member at its zero value, gives the message.
    pub proof fn lemma_fold_fields(self)
        requires
            self.wire().len() <= u64::MAX,
        ensures
            fold_fields(Self::merge_fn(), Self::default(), self.fields()) == Some(self),
    {
        let v = self;
        let merge = Self::merge_fn();
        let f1 = KeyValueView::repeated(9, v.attributes);
        let f2 = fixed64_member(2, v.start_time_unix_nano);
        let f3 = fixed64_member(3, v.time_unix_nano);
        let f4 = fixed64_member(4, v.count);
        let f5 = fixed64_member(5, v.sum);
        let f6 = packed_fixed64_member(6, v.bucket_counts);
        let f7 = packed_fixed64_member(7, v.explicit_bounds);
        let f8 = ExemplarView::repeated(8, v.exemplars);
        let f9 = varint_member(10, v.flags as u64);
        let f10 = fixed64_member(11, v.min);
        let f11 = fixed64_member(12, v.max);
        let a0 = v.first_members(0);
        assert(a0 == Self::default());
        reveal(HistogramDataPointView::wire);
        lemma_fields_bytes_concat(f1, f2);
        lemma_fields_bytes_concat(f1 + f2, f3);
        lemma_fields_bytes_concat(f1 + f2 + f3, f4);
        lemma_fields_bytes_concat(f1 + f2 + f3 + f4, f5);
        lemma_fields_bytes_concat(f1 + f2 + f3 + f4 + f5, f6);
        lemma_fields_bytes_concat(f1 + f2 + f3 + f4 + f5 + f6, f7);
        lemma_fields_bytes_concat(f1 + f2 + f3 + f4 + f5 + f6 + f7, f8);
        lemma_fields_bytes_concat(f1 + f2 + f3 + f4 + f5 + f6 + f7 + f8, f9);
        lemma_fields_bytes_concat(f1 + f2 + f3 + f4 + f5 + f6 + f7 + f8 + f9, f10);
        lemma_fields_bytes_concat(f1 + f2 + f3 + f4 + f5 + f6 + f7 + f8 + f9 + f10, f11);
        v.lemma_member_attributes();
        v.lemma_member_start_time_unix_nano();
        lemma_fold_concat(merge, a0, f1, f2);
        v.lemma_member_time_unix_nano();
        lemma_fold_concat(merge, a0, f1 + f2, f3);
        v.lemma_member_count();
        lemma_fold_concat(merge, a0, f1 + f2 + f3, f4);
        v.lemma_member_sum();
        lemma_fold_concat(merge, a0, f1 + f2 + f3 + f4, f5);
        v.lemma_member_bucket_counts();
        lemma_fold_concat(merge, a0, f1 + f2 + f3 + f4 + f5, f6);
        v.lemma_member_explicit_bounds();
        lemma_fold_concat(merge, a0, f1 + f2 + f3 + f4 + f5 + f6, f7);
        v.lemma_member_exemplars();
        lemma_fold_concat(merge, a0, f1 + f2 + f3 + f4 + f5 + f6 + f7, f8);
        v.lemma_member_flags();
        lemma_fold_concat(merge, a0, f1 + f2 + f3 + f4 + f5 + f6 + f7 + f8, f9);
        v.lemma_member_min();
        lemma_fold_concat(merge, a0, f1 + f2 + f3 + f4 + f5 + f6 + f7 + f8 + f9, f10);
        v.lemma_member_max();
        lemma_fold_concat(merge, a0, f1 + f2 + f3 + f4 + f5 + f6 + f7 + f8 + f9 + f10, f11);
        assert(v.first_members(11) == v);
    }

    /// Decoding what was written gives the message back, and so writing what was
    /// decoded from such bytes gives the bytes back. The length of the body must fit in
    /// 64 bits, as that of every message in memory does.
    pub proof fn lemma_round_trip(self)
        requires
            self.wire().len() <= u64::MAX,
        ensures
            Self::decode(self.wire()) == Some(self),
            Self::decode(self.wire()) matches Some(back) && back.wire() == self.wire(),
    {
        reveal(HistogramDataPointView::wire);
        reveal(HistogramDataPointView::decode);
        lemma_well_formed_by_len(self.fields());
        self.lemma_fold_fields();
        lemma_decode_fields(Self::merge_fn(), Self::default(), self.fields());
    }

    /// Decoding the framed message gives the message back, whatever follows it.
    pub proof fn lemma_framed_round_trip(self, rest: Seq<u8>)
        requires
            self.wire().len() <= u64::MAX,
        ensures
            parse_framed(framed(self.wire()) + rest) == Some(self.wire()),
            Self::decode(self.wire()) == Some(self),
    {
        lemma_frame_round_trip(self.wire(), rest);
        self.lemma_round_trip();
    }

    /// Fields of no member do not count, wherever they stand: the bytes decode to what
    /// the fields of members among them give.
    pub proof fn lemma_passes_over_unknown(b: Seq<u8>)
        ensures
            match parse_fields(b) {
                Some(fs) => Self::decode(b) == fold_fields(
                    Self::merge_fn(),
                    Self::default(),
                    fs.filter(|f: Field| Self::has_number(f.number)),
                ),
                None => Self::decode(b) is None,
            },
    {
        reveal(HistogramDataPointView::decode);
        match parse_fields(b) {
            Some(fs) => {
                lemma_fold_passes_over(
                    Self::merge_fn(),
                    Self::default(),
                    fs,
                    |f: Field| Self::has_number(f.number),
                );
            },
            None => {},
        }
    }

    /// A field of no member, appended to bytes that decode, changes nothing: the bytes
    /// still decode, and to the same message.
    pub proof fn lemma_unknown_field(b: Seq<u8>, f: Field)
        requires
            Self::decode(b) is Some,
            !Self::has_number(f.number),
            well_formed(f),
        ensures
            Self::decode(b + field_bytes(f)) == Self::decode(b),
    {
        reveal(HistogramDataPointView::decode);
        let fs = parse_fields(b)->Some_0;
        let all = b + field_bytes(f);
        lemma_fields_bytes_one(f);
        assert(all_well_formed(seq![f]));
        lemma_fields_round_trip(seq![f]);
        lemma_parse_fields_concat(b, field_bytes(f));
        let merge = Self::merge_fn();
        lemma_fold_concat(merge, Self::default(), fs, seq![f]);
        lemma_fold_one(merge, Self::decode(b)->Some_0, f);
    }

    /// Whether the member that the field number belongs to differs from its zero
    /// value. For a member that holds one of several kinds of value, whether the kind
    /// with this number is the one in force.
    pub open spec fn is_set(self, number: u32) -> bool {
        if number == 9 {
            self.attributes.len() > 0
        } else if number == 2 {
            self.start_time_unix_nano != 0
        } else if number == 3 {
            self.time_unix_nano != 0
        } else if number == 4 {
            self.count != 0
        } else if number == 5 {
            self.sum != 0
        } else if number == 6 {
            self.bucket_counts.len() > 0
        } else if number == 7 {
            self.explicit_bounds.len() > 0
        } else if number == 8 {
            self.exemplars.len() > 0
        } else if number == 10 {
            self.flags != 0
        } else if number == 11 {
            self.min != 0
        } else if number == 12 {
            self.max != 0
        } else {
            false
        }
    }

    /// A member at its zero value is not written: every field of the message belongs
    /// to a member that differs from its zero value.
    pub proof fn lemma_zero_members_omitted(self)
        ensures
            all_fields(self.fields(), |f: Field| self.is_set(f.number)),
    {
        let v = self;
        let set = |f: Field| self.is_set(f.number);
        let f1 = KeyValueView::repeated(9, v.attributes);
        let f2 = fixed64_member(2, v.start_time_unix_nano);
        let f3 = fixed64_member(3, v.time_unix_nano);
        let f4 = fixed64_member(4, v.count);
        let f5 = fixed64_member(5, v.sum);
        let f6 = packed_fixed64_member(6, v.bucket_counts);
        let f7 = packed_fixed64_member(7, v.explicit_bounds);
        let f8 = ExemplarView::repeated(8, v.exemplars);
        let f9 = varint_member(10, v.flags as u64);
        let f10 = fixed64_member(11, v.min);
        let f11 = fixed64_member(12, v.max);
        assert(all_fields(f1, set)) by {
        }
        assert(all_fields(f2, set)) by {
        }
        assert(all_fields(f3, set)) by {
        }
        assert(all_fields(f4, set)) by {
        }
        assert(all_fields(f5, set)) by {
        }
        assert(all_fields(f6, set)) by {
        }
        assert(all_fields(f7, set)) by {
        }
        assert(all_fields(f8, set)) by {
        }
        assert(all_fields(f9, set)) by {
        }
        assert(all_fields(f10, set)) by {
        }
        assert(all_fields(f11, set)) by {
        }
        lemma_all_fields_concat(f1, f2, set);
        lemma_all_fields_concat(f1 + f2, f3, set);
        lemma_all_fields_concat(f1 + f2 + f3, f4, set);
        lemma_all_fields_concat(f1 + f2 + f3 + f4, f5, set);
        lemma_all_fields_concat(f1 + f2 + f3 + f4 + f5, f6, set);
        lemma_all_fields_concat(f1 + f2 + f3 + f4 + f5 + f6, f7, set);
        lemma_all_fields_concat(f1 + f2 + f3 + f4 + f5 + f6 + f7, f8, set);
        lemma_all_fields_concat(f1 + f2 + f3 + f4 + f5 + f6 + f7 + f8, f9, set);
        lemma_all_fields_concat(f1 + f2 + f3 + f4 + f5 + f6 + f7 + f8 + f9, f10, set);
        lemma_all_fields_concat(f1 + f2 + f3 + f4 + f5 + f6 + f7 + f8 + f9 + f10, f11, set);
    }

    /// The message with every member at its zero value is written as no byte at all.
    pub proof fn lemma_default_wire()
        ensures
            Self::default().fields() == Seq::<Field>::empty(),
            Self::default().wire() == Seq::<u8>::empty(),
    {
        let v = Self::default();
        assert(KeyValueView::repeated(9, v.attributes) =~= Seq::<Field>::empty());
        assert(fixed64_member(2, v.start_time_unix_nano) =~= Seq::<Field>::empty());
        assert(fixed64_member(3, v.time_unix_nano) =~= Seq::<Field>::empty());
        assert(fixed64_member(4, v.count) =~= Seq::<Field>::empty());
        assert(fixed64_member(5, v.sum) =~= Seq::<Field>::empty());
        assert(packed_fixed64_member(6, v.bucket_counts) =~= Seq::<Field>::empty());
        assert(packed_fixed64_member(7, v.explicit_bounds) =~= Seq::<Field>::empty());
        assert(ExemplarView::repeated(8, v.exemplars) =~= Seq::<Field>::empty());
        assert(varint_member(10, v.flags as u64) =~= Seq::<Field>::empty());
        assert(fixed64_member(11, v.min) =~= Seq::<Field>::empty());
        assert(fixed64_member(12, v.max) =~= Seq::<Field>::empty());
        assert(v.fields() =~= Seq::<Field>::empty());
        reveal(HistogramDataPointView::wire);
    }
}

impl ExponentialHistogramDataPointBucketsView {
    /// The field numbers of the members.
    pub open spec fn has_number(number: u32) -> bool {
        number == 1 || number == 2
    }

    /// The message with its first `k` members as they are in `self`, and the others at
    /// their zero value.
    spec fn first_members(self, k: nat) -> Self {
        Self {
            offset: if k > 0 { self.offset } else { 0 },
            bucket_counts: if k > 1 { self.bucket_counts } else { Seq::empty() },
        }
    }

    proof fn lemma_member_offset(self)
        ensures
            fold_fields(
                Self::merge_fn(),
                self.first_members(0),
                varint_member(1, zigzag32(self.offset) as u64),
            ) == Some(self.first_members(1)),
    {
        let v = self;
        let merge = Self::merge_fn();
        let a0 = v.first_members(0);
        let f = Field { number: 1, payload: Payload::Varint(zigzag32(v.offset) as u64) };
        lemma_fold_one(merge, a0, f);
    }

    proof fn lemma_member_bucket_counts(self)
        ensures
            fold_fields(
                Self::merge_fn(),
                self.first_members(1),
                repeated_varints(2, self.bucket_counts),
            ) == Some(self.first_members(2)),
    {
        let v = self;
        let merge = Self::merge_fn();
        let f2 = repeated_varints(2, v.bucket_counts);
        let a1 = v.first_members(1);
        let a2 = v.first_members(2);
        let states = |i: int| Self { bucket_counts: v.bucket_counts.take(i), ..v.first_members(1) };
        assert forall|i: int| 0 <= i < f2.len() implies merge(states(i), #[trigger] f2[i]) == Some(
            states(i + 1),
        ) by {
            assert(
                v.bucket_counts.take(i).push(v.bucket_counts[i]) =~= v.bucket_counts.take(i + 1)
            );
        }
        lemma_fold_chain(merge, f2, states);
        assert(v.bucket_counts.take(0) =~= Seq::<u64>::empty());
        assert(v.bucket_counts.take(v.bucket_counts.len() as int) =~= v.bucket_counts);
        assert(states(0) == a1);
        assert(states(f2.len() as int) == a2);
    }

    /// Merging the fields that the message is written as, into the message with every
    /// member at its zero value, gives the message.
    pub proof fn lemma_fold_fields(self)
        requires
            self.wire().len() <= u64::MAX,
        ensures
            fold_fields(Self::merge_fn(), Self::default(), self.fields()) == Some(self),
    {
        let v = self;
        let merge = Self::merge_fn();
        let f1 = varint_member(1, zigzag32(v.offset) as u64);
        let f2 = repeated_varints(2, v.bucket_counts);
        let a0 = v.first_members(0);
        assert(a0 == Self::default());
        reveal(ExponentialHistogramDataPointBucketsView::wire);
        lemma_fields_bytes_concat(f1, f2);
        v.lemma_member_offset();
        v.lemma_member_bucket_counts();
        lemma_fold_concat(merge, a0, f1, f2);
        assert(v.first_members(2) == v);
    }

    /// Decoding what was written gives the message back, and so writing what was
    /// decoded from such bytes gives the bytes back. The length of the body must fit in
    /// 64 bits, as that of every message in memory does.
    pub proof fn lemma_round_trip(self)
        requires
            self.wire().len() <= u64::MAX,
        ensures
            Self::decode(self.wire()) == Some(self),
            Self::decode(self.wire()) matches Some(back) && back.wire() == self.wire(),
    {
        reveal(ExponentialHistogramDataPointBucketsView::wire);
        reveal(ExponentialHistogramDataPointBucketsView::decode);
        lemma_well_formed_by_len(self.fields());
        self.lemma_fold_fields();
        lemma_decode_fields(Self::merge_fn(), Self::default(), self.fields());
    }

    /// Decoding the framed message gives the message back, whatever follows it.
    pub proof fn lemma_framed_round_trip(self, rest: Seq<u8>)
        requires
            self.wire().len() <= u64::MAX,
        ensures
            parse_framed(framed(self.wire()) + rest) == Some(self.wire()),
            Self::decode(self.wire()) == Some(self),
    {
        lemma_frame_round_trip(self.wire(), rest);
        self.lemma_round_trip();
    }

    /// Fields of no member do not count, wherever they stand: the bytes decode to what
    /// the fields of members among them give.
    pub proof fn lemma_passes_over_unknown(b: Seq<u8>)
        ensures
            match parse_fields(b) {
                Some(fs) => Self::decode(b) == fold_fields(
                    Self::merge_fn(),
                    Self::default(),
                    fs.filter(|f: Field| Self::has_number(f.number)),
                ),
                None => Self::decode(b) is None,
            },
    {
        reveal(ExponentialHistogramDataPointBucketsView::decode);
        match parse_fields(b) {
            Some(fs) => {
                lemma_fold_passes_over(
                    Self::merge_fn(),
                    Self::default(),
                    fs,
                    |f: Field| Self::has_number(f.number),
                );
            },
            None => {},
        }
    }

    /// A field of no member, appended to bytes that decode, changes nothing: the bytes
    /// still decode, and to the same message.
    pub proof fn lemma_unknown_field(b: Seq<u8>, f: Field)
        requires
            Self::decode(b) is Some,
            !Self::has_number(f.number),
            well_formed(f),
        ensures
            Self::decode(b + field_bytes(f)) == Self::decode(b),
    {
        reveal(ExponentialHistogramDataPointBucketsView::decode);
        let fs = parse_fields(b)->Some_0;
        let all = b + field_bytes(f);
        lemma_fields_bytes_one(f);
        assert(all_well_formed(seq![f]));
        lemma_fields_round_trip(seq![f]);
        lemma_parse_fields_concat(b, field_bytes(f));
        let merge = Self::merge_fn();
        lemma_fold_concat(merge, Self::default(), fs, seq![f]);
        lemma_fold_one(merge, Self::decode(b)->Some_0, f);
    }

    /// Whether the member that the field number belongs to differs from its zero
    /// value. For a member that holds one of several kinds of value, whether the kind
    /// with this number is the one in force.
    pub open spec fn is_set(self, number: u32) -> bool {
        if number == 1 {
            self.offset != 0
        } else if number == 2 {
            self.bucket_counts.len() > 0
        } else {
            false
        }
    }

    /// A member at its zero value is not written: every field of the message belongs
    /// to a member that differs from its zero value.
    pub proof fn lemma_zero_members_omitted(self)
        ensures
            all_fields(self.fields(), |f: Field| self.is_set(f.number)),
    {
        let v = self;
        let set = |f: Field| self.is_set(f.number);
        let f1 = varint_member(1, zigzag32(v.offset) as u64);
        let f2 = repeated_varints(2, v.bucket_counts);
        assert(all_fields(f1, set)) by {
        }
        assert(all_fields(f2, set)) by {
        }
        lemma_all_fields_concat(f1, f2, set);
    }

    /// The message with every member at its zero value is written as no byte at all.
    pub proof fn lemma_default_wire()
        ensures
            Self::default().fields() == Seq::<Field>::empty(),
            Self::default().wire() == Seq::<u8>::empty(),
    {
        let v = Self::default();
        assert(varint_member(1, zigzag32(v.offset) as u64) =~= Seq::<Field>::empty());
        assert(repeated_varints(2, v.bucket_counts) =~= Seq::<Field>::empty());
        assert(v.fields() =~= Seq::<Field>::empty());
        reveal(ExponentialHistogramDataPointBucketsView::wire);
    }
}

impl ExponentialHistogramDataPointView {
    /// The field numbers of the members.
    pub open spec fn has_number(number: u32) -> bool {
        number == 1
            || number == 2
            || number == 3
            || number == 4
            || number == 5
            || number == 6
            || number == 7
            || number == 8
            || number == 9
            || number == 10
            || number == 11
            || number == 12
            || number == 13
            || number == 14
    }

    /// The message with its first `k` members as they are in `self`, and the others at
    /// their zero value.
    spec fn first_members(self, k: nat) -> Self {
        Self {
            attributes: if k > 0 { self.attributes } else { Seq::empty() },
            start_time_unix_nano: if k > 1 { self.start_time_unix_nano } else { 0 },
            time_unix_nano: if k > 2 { self.time_unix_nano } else { 0 },
            count: if k > 3 { self.count } else { 0 },
            sum: if k > 4 { self.sum } else { 0 },
            scale: if k > 5 { self.scale } else { 0 },
            zero_count: if k > 6 { self.zero_count } else { 0 },
            positive: if k > 7 { self.positive } else { None },
            negative: if k > 8 { self.negative } else { None },
            flags: if k > 9 { self.flags } else { 0 },
            exemplars: if k > 10 { self.exemplars } else { Seq::empty() },
            min: if k > 11 { self.min } else { 0 },
            max: if k > 12 { self.max } else { 0 },
            zero_threshold: if k > 13 { self.zero_threshold } else { 0 },
        }
    }

    proof fn lemma_member_attributes(self)
        requires
            fields_bytes(KeyValueView::repeated(1, self.attributes)).len() <= u64::MAX,
        ensures
            fold_fields(
                Self::merge_fn(),
                self.first_members(0),
                KeyValueView::repeated(1, self.attributes),
            ) == Some(self.first_members(1)),
    {
        let v = self;
        let merge = Self::merge_fn();
        let f1 = KeyValueView::repeated(1, v.attributes);
        let a0 = v.first_members(0);
        let a1 = v.first_members(1);
        let states = |i: int| Self { attributes: v.attributes.take(i), ..v.first_members(0) };
        assert forall|i: int| 0 <= i < f1.len() implies merge(states(i), #[trigger] f1[i]) == Some(
            states(i + 1),
        ) by {
            lemma_run_shorter(f1, i);
            v.attributes[i].lemma_round_trip();
            assert(v.attributes.take(i).push(v.attributes[i]) =~= v.attributes.take(i + 1));
        }
        lemma_fold_chain(merge, f1, states);
        assert(v.attributes.take(0) =~= Seq::<KeyValueView>::empty());
        assert(v.attributes.take(v.attributes.len() as int) =~= v.attributes);
        assert(states(0) == a0);
        assert(states(f1.len() as int) == a1);
    }

    proof fn lemma_member_start_time_unix_nano(self)
        ensures
            fold_fields(
                Self::merge_fn(),
                self.first_members(1),
                fixed64_member(2, self.start_time_unix_nano),
            ) == Some(self.first_members(2)),
    {
        let v = self;
        let merge = Self::merge_fn();
        let a1 = v.first_members(1);
        let f = Field { number: 2, payload: Payload::Fixed64(v.start_time_unix_nano) };
        lemma_fold_one(merge, a1, f);
    }

    proof fn lemma_member_time_unix_nano(self)
        ensures
            fold_fields(
                Self::merge_fn(),
                self.first_members(2),
                fixed64_member(3, self.time_unix_nano),
            ) == Some(self.first_members(3)),
    {
        let v = self;
        let merge = Self::merge_fn();
        let a2 = v.first_members(2);
        let f = Field { number: 3, payload: Payload::Fixed64(v.time_unix_nano) };
        lemma_fold_one(merge, a2, f);
    }

    proof fn lemma_member_count(self)
        ensures
            fold_fields(
                Self::merge_fn(),
                self.first_members(3),
                fixed64_member(4, self.count),
            ) == Some(self.first_members(4)),
    {
        let v = self;
        let merge = Self::merge_fn();
        let a3 = v.first_members(3);
        let f = Field { number: 4, payload: Payload::Fixed64(v.count) };
        lemma_fold_one(merge, a3, f);
    }

    proof fn lemma_member_sum(self)
        ensures
            fold_fields(
                Self::merge_fn(),
                self.first_members(4),
                fixed64_member(5, self.sum),
            ) == Some(self.first_members(5)),
    {
        let v = self;
        let merge = Self::merge_fn();
        let a4 = v.first_members(4);
        let f = Field { number: 5, payload: Payload::Fixed64(v.sum) };
        lemma_fold_one(merge, a4, f);
    }

    proof fn lemma_member_scale(self)
        ensures
            fold_fields(
                Self::merge_fn(),
                self.first_members(5),
                varint_member(6, zigzag32(self.scale) as u64),
            ) == Some(self.first_members(6)),
    {
        let v = self;
        let merge = Self::merge_fn();
        let a5 = v.first_members(5);
        let f = Field { number: 6, payload: Payload::Varint(zigzag32(v.scale) as u64) };
        lemma_fold_one(merge, a5, f);
    }

    proof fn lemma_member_zero_count(self)
        ensures
            fold_fields(
                Self::merge_fn(),
                self.first_members(6),
                fixed64_member(7, self.zero_count),
            ) == Some(self.first_members(7)),
    {
        let v = self;
        let merge = Self::merge_fn();
        let a6 = v.first_members(6);
        let f = Field { number: 7, payload: Payload::Fixed64(v.zero_count) };
        lemma_fold_one(merge, a6, f);
    }

    proof fn lemma_member_positive(self)
        requires
            fields_bytes(ExponentialHistogramDataPointBucketsView::optional(8, self.positive)).len()
                <= u64::MAX,
        ensures
            fold_fields(
                Self::merge_fn(),
                self.first_members(7),
                ExponentialHistogramDataPointBucketsView::optional(8, self.positive),
            ) == Some(self.first_members(8)),
    {
        let v = self;
        let merge = Self::merge_fn();
        let f8 = ExponentialHistogramDataPointBucketsView::optional(8, v.positive);
        let a7 = v.first_members(7);
        match v.positive {
            Some(x) => {
                let f = Field { number: 8, payload: Payload::Run(x.wire()) };
                assert(f8 =~= seq![f]);
                lemma_run_shorter(f8, 0);
                x.lemma_round_trip();
                lemma_fold_one(merge, a7, f);
            },
            None => {},
        }
    }

    proof fn lemma_member_negative(self)
        requires
            fields_bytes(ExponentialHistogramDataPointBucketsView::optional(9, self.negative)).len()
                <= u64::MAX,
        ensures
            fold_fields(
                Self::merge_fn(),
                self.first_members(8),
                ExponentialHistogramDataPointBucketsView::optional(9, self.negative),
            ) == Some(self.first_members(9)),
    {
        let v = self;
        let merge = Self::merge_fn();
        let f9 = ExponentialHistogramDataPointBucketsView::optional(9, v.negative);
        let a8 = v.first_members(8);
        match v.negative {
            Some(x) => {
                let f = Field { number: 9, payload: Payload::Run(x.wire()) };
                assert(f9 =~= seq![f]);
                lemma_run_shorter(f9, 0);
                x.lemma_round_trip();
                lemma_fold_one(merge, a8, f);
            },
            None => {},
        }
    }

    proof fn lemma_member_flags(self)
        ensures
            fold_fields(
                Self::merge_fn(),
                self.first_members(9),
                varint_member(10, self.flags as u64),
            ) == Some(self.first_members(10)),
    {
        let v = self;
        let merge = Self::merge_fn();
        let a9 = v.first_members(9);
        let f = Field { number: 10, payload: Payload::Varint(v.flags as u64) };
        lemma_fold_one(merge, a9, f);
    }

    proof fn lemma_member_exemplars(self)
        requires
            fields_bytes(ExemplarView::repeated(11, self.exemplars)).len() <= u64::MAX,
        ensures
            fold_fields(
                Self::merge_fn(),
                self.first_members(10),
                ExemplarView::repeated(11, self.exemplars),
            ) == Some(self.first_members(11)),
    {
        let v = self;
        let merge = Self::merge_fn();
        let f11 = ExemplarView::repeated(11, v.exemplars);
        let a10 = v.first_members(10);
        let a11 = v.first_members(11);
        let states = |i: int| Self { exemplars: v.exemplars.take(i), ..v.first_members(10) };
        assert forall|i: int| 0 <= i < f11.len() implies merge(states(i), #[trigger] f11[i])
            == Some(
            states(i + 1),
        ) by {
            lemma_run_shorter(f11, i);
            v.exemplars[i].lemma_round_trip();
            assert(v.exemplars.take(i).push(v.exemplars[i]) =~= v.exemplars.take(i + 1));
        }
        lemma_fold_chain(merge, f11, states);
        assert(v.exemplars.take(0) =~= Seq::<ExemplarView>::empty());
        assert(v.exemplars.take(v.exemplars.len() as int) =~= v.exemplars);
        assert(states(0) == a10);
        assert(states(f11.len() as int) == a11);
    }

    proof fn lemma_member_min(self)
        ensures
            fold_fields(
                Self::merge_fn(),
                self.first_members(11),
                fixed64_member(12, self.min),
            ) == Some(self.first_members(12)),
    {
        let v = self;
        let merge = Self::merge_fn();
        let a11 = v.first_members(11);
        let f = Field { number: 12, payload: Payload::Fixed64(v.min) };
        lemma_fold_one(merge, a11, f);
    }

    proof fn lemma_member_max(self)
        ensures
            fold_fields(
                Self::merge_fn(),
                self.first_members(12),
                fixed64_member(13, self.max),
            ) == Some(self.first_members(13)),
    {
        let v = self;
        let merge = Self::merge_fn();
        let a12 = v.first_members(12);
        let f = Field { number: 13, payload: Payload::Fixed64(v.max) };
        lemma_fold_one(merge, a12, f);
    }

    proof fn lemma_member_zero_threshold(self)
        ensures
            fold_fields(
                Self::merge_fn(),
                self.first_members(13),
                fixed64_member(14, self.zero_threshold),
            ) == Some(self.first_members(14)),
    {
        let v = self;
        let merge = Self::merge_fn();
        let a13 = v.first_members(13);
        let f = Field { number: 14, payload: Payload::Fixed64(v.zero_threshold) };
        lemma_fold_one(merge, a13, f);
    }

    /// Merging the fields that the message is written as, into the message with every
    /// member at its zero value, gives the message.
    pub proof fn lemma_fold_fields(self)
        requires
            self.wire().len() <= u64::MAX,
        ensures
            fold_fields(Self::merge_fn(), Self::default(), self.fields()) == Some(self),
    {
        let v = self;
        let merge = Self::merge_fn();
        let f1 = KeyValueView::repeated(1, v.attributes);
        let f2 = fixed64_member(2, v.start_time_unix_nano);
        let f3 = fixed64_member(3, v.time_unix_nano);
        let f4 = fixed64_member(4, v.count);
        let f5 = fixed64_member(5, v.sum);
        let f6 = varint_member(6, zigzag32(v.scale) as u64);
        let f7 = fixed64_member(7, v.zero_count);
        let f8 = ExponentialHistogramDataPointBucketsView::optional(8, v.positive);
        let f9 = ExponentialHistogramDataPointBucketsView::optional(9, v.negative);
        let f10 = varint_member(10, v.flags as u64);
        let f11 = ExemplarView::repeated(11, v.exemplars);
        let f12 = fixed64_member(12, v.min);
        let f13 = fixed64_member(13, v.max);
        let f14 = fixed64_member(14, v.zero_threshold);
        let a0 = v.first_members(0);
        assert(a0 == Self::default());
        reveal(ExponentialHistogramDataPointView::wire);
        lemma_fields_bytes_concat(f1, f2);
        lemma_fields_bytes_concat(f1 + f2, f3);
        lemma_fields_bytes_concat(f1 + f2 + f3, f4);
        lemma_fields_bytes_concat(f1 + f2 + f3 + f4, f5);
        lemma_fields_bytes_concat(f1 + f2 + f3 + f4 + f5, f6);
        lemma_fields_bytes_concat(f1 + f2 + f3 + f4 + f5 + f6, f7);
        lemma_fields_bytes_concat(f1 + f2 + f3 + f4 + f5 + f6 + f7, f8);
        lemma_fields_bytes_concat(f1 + f2 + f3 + f4 + f5 + f6 + f7 + f8, f9);
        lemma_fields_bytes_concat(f1 + f2 + f3 + f4 + f5 + f6 + f7 + f8 + f9, f10);
        lemma_fields_bytes_concat(f1 + f2 + f3 + f4 + f5 + f6 + f7 + f8 + f9 + f10, f11);
        lemma_fields_bytes_concat(f1 + f2 + f3 + f4 + f5 + f6 + f7 + f8 + f9 + f10 + f11, f12);
        lemma_fields_bytes_concat(
            f1 + f2 + f3 + f4 + f5 + f6 + f7 + f8 + f9 + f10 + f11 + f12,
            f13,
        );
        lemma_fields_bytes_concat(
            f1 + f2 + f3 + f4 + f5 + f6 + f7 + f8 + f9 + f10 + f11 + f12 + f13,
            f14,
        );
        v.lemma_member_attributes();
        v.lemma_member_start_time_unix_nano();
        lemma_fold_concat(merge, a0, f1, f2);
        v.lemma_member_time_unix_nano();
        lemma_fold_concat(merge, a0, f1 + f2, f3);
        v.lemma_member_count();
        lemma_fold_concat(merge, a0, f1 + f2 + f3, f4);
        v.lemma_member_sum();
        lemma_fold_concat(merge, a0, f1 + f2 + f3 + f4, f5);
        v.lemma_member_scale();
        lemma_fold_concat(merge, a0, f1 + f2 + f3 + f4 + f5, f6);
        v.lemma_member_zero_count();
        lemma_fold_concat(merge, a0, f1 + f2 + f3 + f4 + f5 + f6, f7);
        v.lemma_member_positive();
        lemma_fold_concat(merge, a0, f1 + f2 + f3 + f4 + f5 + f6 + f7, f8);
        v.lemma_member_negative();
        lemma_fold_concat(merge, a0, f1 + f2 + f3 + f4 + f5 + f6 + f7 + f8, f9);
        v.lemma_member_flags();
        lemma_fold_concat(merge, a0, f1 + f2 + f3 + f4 + f5 + f6 + f7 + f8 + f9, f10);
        v.lemma_member_exemplars();
        lemma_fold_concat(merge, a0, f1 + f2 + f3 + f4 + f5 + f6 + f7 + f8 + f9 + f10, f11);
        v.lemma_member_min();
        lemma_fold_concat(merge, a0, f1 + f2 + f3 + f4 + f5 + f6 + f7 + f8 + f9 + f10 + f11, f12);
        v.lemma_member_max();
        lemma_fold_concat(
            merge,
            a0,
            f1 + f2 + f3 + f4 + f5 + f6 + f7 + f8 + f9 + f10 + f11 + f12,
            f13,
        );
        v.lemma_member_zero_threshold();
        lemma_fold_concat(
            merge,
            a0,
            f1 + f2 + f3 + f4 + f5 + f6 + f7 + f8 + f9 + f10 + f11 + f12 + f13,
            f14,
        );
        assert(v.first_members(14) == v);
    }

    /// Decoding what was written gives the message back, and so writing what was
    /// decoded from such bytes gives the bytes back. The length of the body must fit in
    /// 64 bits, as that of every message in memory does.
    pub proof fn lemma_round_trip(self)
        requires
            self.wire().len() <= u64::MAX,
        ensures
            Self::decode(self.wire()) == Some(self),
            Self::decode(self.wire()) matches Some(back) && back.wire() == self.wire(),
    {
        reveal(ExponentialHistogramDataPointView::wire);
        reveal(ExponentialHistogramDataPointView::decode);
        lemma_well_formed_by_len(self.fields());
        self.lemma_fold_fields();
        lemma_decode_fields(Self::merge_fn(), Self::default(), self.fields());
    }

    /// Decoding the framed message gives the message back, whatever follows it.
    pub proof fn lemma_framed_round_trip(self, rest: Seq<u8>)
        requires
            self.wire().len() <= u64::MAX,
        ensures
            parse_framed(framed(self.wire()) + rest) == Some(self.wire()),
            Self::decode(self.wire()) == Some(self),
    {
        lemma_frame_round_trip(self.wire(), rest);
        self.lemma_round_trip();
    }

    /// Fields of no member do not count, wherever they stand: the bytes decode to what
    /// the fields of members among them give.
    pub proof fn lemma_passes_over_unknown(b: Seq<u8>)
        ensures
            match parse_fields(b) {
                Some(fs) => Self::decode(b) == fold_fields(
                    Self::merge_fn(),
                    Self::default(),
                    fs.filter(|f: Field| Self::has_number(f.number)),
                ),
                None => Self::decode(b) is None,
            },
    {
        reveal(ExponentialHistogramDataPointView::decode);
        match parse_fields(b) {
            Some(fs) => {
                lemma_fold_passes_over(
                    Self::merge_fn(),
                    Self::default(),
                    fs,
                    |f: Field| Self::has_number(f.number),
                );
            },
            None => {},
        }
    }

    /// A field of no member, appended to bytes that decode, changes nothing: the bytes
    /// still decode, and to the same message.
    pub proof fn lemma_unknown_field(b: Seq<u8>, f: Field)
        requires
            Self::decode(b) is Some,
            !Self::has_number(f.number),
            well_formed(f),
        ensures
            Self::decode(b + field_bytes(f)) == Self::decode(b),
    {
        reveal(ExponentialHistogramDataPointView::decode);
        let fs = parse_fields(b)->Some_0;
        let all = b + field_bytes(f);
        lemma_fields_bytes_one(f);
        assert(all_well_formed(seq![f]));
        lemma_fields_round_trip(seq![f]);
        lemma_parse_fields_concat(b, field_bytes(f));
        let merge = Self::merge_fn();
        lemma_fold_concat(merge, Self::default(), fs, seq![f]);
        lemma_fold_one(merge, Self::decode(b)->Some_0, f);
    }

    /// Whether the member that the field number belongs to differs from its zero
    /// value. For a member that holds one of several kinds of value, whether the kind
    /// with this number is the one in force.
    pub open spec fn is_set(self, number: u32) -> bool {
        if number == 1 {
            self.attributes.len() > 0
        } else if number == 2 {
            self.start_time_unix_nano != 0
        } else if number == 3 {
            self.time_unix_nano != 0
        } else if number == 4 {
            self.count != 0
        } else if number == 5 {
            self.sum != 0
        } else if number == 6 {
            self.scale != 0
        } else if number == 7 {
            self.zero_count != 0
        } else if number == 8 {
            self.positive is Some
        } else if number == 9 {
            self.negative is Some
        } else if number == 10 {
            self.flags != 0
        } else if number == 11 {
            self.exemplars.len() > 0
        } else if number == 12 {
            self.min != 0
        } else if number == 13 {
            self.max != 0
        } else if number == 14 {
            self.zero_threshold != 0
        } else {
            false
        }
    }

    /// A member at its zero value is not written: every field of the message belongs
    /// to a member that differs from its zero value.
    pub proof fn lemma_zero_members_omitted(self)
        ensures
            all_fields(self.fields(), |f: Field| self.is_set(f.number)),
    {
        let v = self;
        let set = |f: Field| self.is_set(f.number);
        let f1 = KeyValueView::repeated(1, v.attributes);
        let f2 = fixed64_member(2, v.start_time_unix_nano);
        let f3 = fixed64_member(3, v.time_unix_nano);
        let f4 = fixed64_member(4, v.count);
        let f5 = fixed64_member(5, v.sum);
        let f6 = varint_member(6, zigzag32(v.scale) as u64);
        let f7 = fixed64_member(7, v.zero_count);
        let f8 = ExponentialHistogramDataPointBucketsView::optional(8, v.positive);
        let f9 = ExponentialHistogramDataPointBucketsView::optional(9, v.negative);
        let f10 = varint_member(10, v.flags as u64);
        let f11 = ExemplarView::repeated(11, v.exemplars);
        let f12 = fixed64_member(12, v.min);
        let f13 = fixed64_member(13, v.max);
        let f14 = fixed64_member(14, v.zero_threshold);
        assert(all_fields(f1, set)) by {
        }
        assert(all_fields(f2, set)) by {
        }
        assert(all_fields(f3, set)) by {
        }
        assert(all_fields(f4, set)) by {
        }
        assert(all_fields(f5, set)) by {
        }
        assert(all_fields(f6, set)) by {
        }
        assert(all_fields(f7, set)) by {
        }
        assert(all_fields(f8, set)) by {
        }
        assert(all_fields(f9, set)) by {
        }
        assert(all_fields(f10, set)) by {
        }
        assert(all_fields(f11, set)) by {
        }
        assert(all_fields(f12, set)) by {
        }
        assert(all_fields(f13, set)) by {
        }
        assert(all_fields(f14, set)) by {
        }
        lemma_all_fields_concat(f1, f2, set);
        lemma_all_fields_concat(f1 + f2, f3, set);
        lemma_all_fields_concat(f1 + f2 + f3, f4, set);
        lemma_all_fields_concat(f1 + f2 + f3 + f4, f5, set);
        lemma_all_fields_concat(f1 + f2 + f3 + f4 + f5, f6, set);
        lemma_all_fields_concat(f1 + f2 + f3 + f4 + f5 + f6, f7, set);
        lemma_all_fields_concat(f1 + f2 + f3 + f4 + f5 + f6 + f7, f8, set);
        lemma_all_fields_concat(f1 + f2 + f3 + f4 + f5 + f6 + f7 + f8, f9, set);
        lemma_all_fields_concat(f1 + f2 + f3 + f4 + f5 + f6 + f7 + f8 + f9, f10, set);
        lemma_all_fields_concat(f1 + f2 + f3 + f4 + f5 + f6 + f7 + f8 + f9 + f10, f11, set);
        lemma_all_fields_concat(f1 + f2 + f3 + f4 + f5 + f6 + f7 + f8 + f9 + f10 + f11, f12, set);
        lemma_all_fields_concat(
            f1 + f2 + f3 + f4 + f5 + f6 + f7 + f8 + f9 + f10 + f11 + f12,
            f13,
            set,
        );
        lemma_all_fields_concat(
            f1 + f2 + f3 + f4 + f5 + f6 + f7 + f8 + f9 + f10 + f11 + f12 + f13,
            f14,
            set,
        );
    }

    /// The message with every member at its zero value is written as no byte at all.
    pub proof fn lemma_default_wire()
        ensures
            Self::default().fields() == Seq::<Field>::empty(),
            Self::default().wire() == Seq::<u8>::empty(),
    {
        let v = Self::default();
        assert(KeyValueView::repeated(1, v.attributes) =~= Seq::<Field>::empty());
        assert(fixed64_member(2, v.start_time_unix_nano) =~= Seq::<Field>::empty());
        assert(fixed64_member(3, v.time_unix_nano) =~= Seq::<Field>::empty());
        assert(fixed64_member(4, v.count) =~= Seq::<Field>::empty());
        assert(fixed64_member(5, v.sum) =~= Seq::<Field>::empty());
        assert(varint_member(6, zigzag32(v.scale) as u64) =~= Seq::<Field>::empty());
        assert(fixed64_member(7, v.zero_count) =~= Seq::<Field>::empty());
        assert(
            ExponentialHistogramDataPointBucketsView::optional(8, v.positive)
                =~= Seq::<Field>::empty()
        );
        assert(
            ExponentialHistogramDataPointBucketsView::optional(9, v.negative)
                =~= Seq::<Field>::empty()
        );
        assert(varint_member(10, v.flags as u64) =~= Seq::<Field>::empty());
        assert(ExemplarView::repeated(11, v.exemplars) =~= Seq::<Field>::empty());
        assert(fixed64_member(12, v.min) =~= Seq::<Field>::empty());
        assert(fixed64_member(13, v.max) =~= Seq::<Field>::empty());
        assert(fixed64_member(14, v.zero_threshold) =~= Seq::<Field>::empty());
        assert(v.fields() =~= Seq::<Field>::empty());
        reveal(ExponentialHistogramDataPointView::wire);
    }
}

impl SummaryDataPointValueAtQuantileView {
    /// The field numbers of the members.
    pub open spec fn has_number(number: u32) -> bool {
        number == 1 || number == 2
    }

    /// The message with its first `k` members as they are in `self`, and the others at
    /// their zero value.
    spec fn first_members(self, k: nat) -> Self {
        Self {
            quantile: if k > 0 { self.quantile } else { 0 },
            value: if k > 1 { self.value } else { 0 },
        }
    }

    proof fn lemma_member_quantile(self)
        ensures
            fold_fields(
                Self::merge_fn(),
                self.first_members(0),
                fixed64_member(1, self.quantile),
            ) == Some(self.first_members(1)),
    {
        let v = self;
        let merge = Self::merge_fn();
        let a0 = v.first_members(0);
        let f = Field { number: 1, payload: Payload::Fixed64(v.quantile) };
        lemma_fold_one(merge, a0, f);
    }

    proof fn lemma_member_value(self)
        ensures
            fold_fields(
                Self::merge_fn(),
                self.first_members(1),
                fixed64_member(2, self.value),
            ) == Some(self.first_members(2)),
    {
        let v = self;
        let merge = Self::merge_fn();
        let a1 = v.first_members(1);
        let f = Field { number: 2, payload: Payload::Fixed64(v.value) };
        lemma_fold_one(merge, a1, f);
    }

    /// Merging the fields that the message is written as, into the message with every
    /// member at its zero value, gives the message.
    pub proof fn lemma_fold_fields(self)
        requires
            self.wire().len() <= u64::MAX,
        ensures
            fold_fields(Self::merge_fn(), Self::default(), self.fields()) == Some(self),
    {
        let v = self;
        let merge = Self::merge_fn();
        let f1 = fixed64_member(1, v.quantile);
        let f2 = fixed64_member(2, v.value);
        let a0 = v.first_members(0);
        assert(a0 == Self::default());
        reveal(SummaryDataPointValueAtQuantileView::wire);
        lemma_fields_bytes_concat(f1, f2);
        v.lemma_member_quantile();
        v.lemma_member_value();
        lemma_fold_concat(merge, a0, f1, f2);
        assert(v.first_members(2) == v);
    }

    /// Decoding what was written gives the message back, and so writing what was
    /// decoded from such bytes gives the bytes back. The length of the body must fit in
    /// 64 bits, as that of every message in memory does.
    pub proof fn lemma_round_trip(self)
        requires
            self.wire().len() <= u64::MAX,
        ensures
            Self::decode(self.wire()) == Some(self),
            Self::decode(self.wire()) matches Some(back) && back.wire() == self.wire(),
    {
        reveal(SummaryDataPointValueAtQuantileView::wire);
        reveal(SummaryDataPointValueAtQuantileView::decode);
        lemma_well_formed_by_len(self.fields());
        self.lemma_fold_fields();
        lemma_decode_fields(Self::merge_fn(), Self::default(), self.fields());
    }

    /// Decoding the framed message gives the message back, whatever follows it.
    pub proof fn lemma_framed_round_trip(self, rest: Seq<u8>)
        requires
            self.wire().len() <= u64::MAX,
        ensures
            parse_framed(framed(self.wire()) + rest) == Some(self.wire()),
            Self::decode(self.wire()) == Some(self),
    {
        lemma_frame_round_trip(self.wire(), rest);
        self.lemma_round_trip();
    }

    /// Fields of no member do not count, wherever they stand: the bytes decode to what
    /// the fields of members among them give.
    pub proof fn lemma_passes_over_unknown(b: Seq<u8>)
        ensures
            match parse_fields(b) {
                Some(fs) => Self::decode(b) == fold_fields(
                    Self::merge_fn(),
                    Self::default(),
                    fs.filter(|f: Field| Self::has_number(f.number)),
                ),
                None => Self::decode(b) is None,
            },
    {
        reveal(SummaryDataPointValueAtQuantileView::decode);
        match parse_fields(b) {
            Some(fs) => {
                lemma_fold_passes_over(
                    Self::merge_fn(),
                    Self::default(),
                    fs,
                    |f: Field| Self::has_number(f.number),
                );
            },
            None => {},
        }
    }

    /// A field of no member, appended to bytes that decode, changes nothing: the bytes
    /// still decode, and to the same message.
    pub proof fn lemma_unknown_field(b: Seq<u8>, f: Field)
        requires
            Self::decode(b) is Some,
            !Self::has_number(f.number),
            well_formed(f),
        ensures
            Self::decode(b + field_bytes(f)) == Self::decode(b),
    {
        reveal(SummaryDataPointValueAtQuantileView::decode);
        let fs = parse_fields(b)->Some_0;
        let all = b + field_bytes(f);
        lemma_fields_bytes_one(f);
        assert(all_well_formed(seq![f]));
        lemma_fields_round_trip(seq![f]);
        lemma_parse_fields_concat(b, field_bytes(f));
        let merge = Self::merge_fn();
        lemma_fold_concat(merge, Self::default(), fs, seq![f]);
        lemma_fold_one(merge, Self::decode(b)->Some_0, f);
    }

    /// Whether the member that the field number belongs to differs from its zero
    /// value. For a member that holds one of several kinds of value, whether the kind
    /// with this number is the one in force.
    pub open spec fn is_set(self, number: u32) -> bool {
        if number == 1 {
            self.quantile != 0
        } else if number == 2 {
            self.value != 0
        } else {
            false
        }
    }

    /// A member at its zero value is not written: every field of the message belongs
    /// to a member that differs from its zero value.
    pub proof fn lemma_zero_members_omitted(self)
        ensures
            all_fields(self.fields(), |f: Field| self.is_set(f.number)),
    {
        let v = self;
        let set = |f: Field| self.is_set(f.number);
        let f1 = fixed64_member(1, v.quantile);
        let f2 = fixed64_member(2, v.value);
        assert(all_fields(f1, set)) by {
        }
        assert(all_fields(f2, set)) by {
        }
        lemma_all_fields_concat(f1, f2, set);
    }

    /// The message with every member at its zero value is written as no byte at all.
    pub proof fn lemma_default_wire()
        ensures
            Self::default().fields() == Seq::<Field>::empty(),
            Self::default().wire() == Seq::<u8>::empty(),
    {
        let v = Self::default();
        assert(fixed64_member(1, v.quantile) =~= Seq::<Field>::empty());
        assert(fixed64_member(2, v.value) =~= Seq::<Field>::empty());
        assert(v.fields() =~= Seq::<Field>::empty());
        reveal(SummaryDataPointValueAtQuantileView::wire);
    }
}

impl SummaryDataPointView {
    /// The field numbers of the members.
    pub open spec fn has_number(number: u32) -> bool {
        number == 7
            || number == 2
            || number == 3
            || number == 4
            || number == 5
            || number == 6
            || number == 8
    }

    /// The message with its first `k` members as they are in `self`, and the others at
    /// their zero value.
    spec fn first_members(self, k: nat) -> Self {
        Self {
            attributes: if k > 0 { self.attributes } else { Seq::empty() },
            start_time_unix_nano: if k > 1 { self.start_time_unix_nano } else { 0 },
            time_unix_nano: if k > 2 { self.time_unix_nano } else { 0 },
            count: if k > 3 { self.count } else { 0 },
            sum: if k > 4 { self.sum } else { 0 },
            quantile_values: if k > 5 { self.quantile_values } else { Seq::empty() },
            flags: if k > 6 { self.flags } else { 0 },
        }
    }

    proof fn lemma_member_attributes(self)
        requires
            fields_bytes(KeyValueView::repeated(7, self.attributes)).len() <= u64::MAX,
        ensures
            fold_fields(
                Self::merge_fn(),
                self.first_members(0),
                KeyValueView::repeated(7, self.attributes),
            ) == Some(self.first_members(1)),
    {
        let v = self;
        let merge = Self::merge_fn();
        let f1 = KeyValueView::repeated(7, v.attributes);
        let a0 = v.first_members(0);
        let a1 = v.first_members(1);
        let states = |i: int| Self { attributes: v.attributes.take(i), ..v.first_members(0) };
        assert forall|i: int| 0 <= i < f1.len() implies merge(states(i), #[trigger] f1[i]) == Some(
            states(i + 1),
        ) by {
            lemma_run_shorter(f1, i);
            v.attributes[i].lemma_round_trip();
            assert(v.attributes.take(i).push(v.attributes[i]) =~= v.attributes.take(i + 1));
        }
        lemma_fold_chain(merge, f1, states);
        assert(v.attributes.take(0) =~= Seq::<KeyValueView>::empty());
        assert(v.attributes.take(v.attributes.len() as int) =~= v.attributes);
        assert(states(0) == a0);
        assert(states(f1.len() as int) == a1);
    }

    proof fn lemma_member_start_time_unix_nano(self)
        ensures
            fold_fields(
                Self::merge_fn(),
                self.first_members(1),
                fixed64_member(2, self.start_time_unix_nano),
            ) == Some(self.first_members(2)),
    {
        let v = self;
        let merge = Self::merge_fn();
        let a1 = v.first_members(1);
        let f = Field { number: 2, payload: Payload::Fixed64(v.start_time_unix_nano) };
        lemma_fold_one(merge, a1, f);
    }

    proof fn lemma_member_time_unix_nano(self)
        ensures
            fold_fields(
                Self::merge_fn(),
                self.first_members(2),
                fixed64_member(3, self.time_unix_nano),
            ) == Some(self.first_members(3)),
    {
        let v = self;
        let merge = Self::merge_fn();
        let a2 = v.first_members(2);
        let f = Field { number: 3, payload: Payload::Fixed64(v.time_unix_nano) };
        lemma_fold_one(merge, a2, f);
    }

    proof fn lemma_member_count(self)
        ensures
            fold_fields(
                Self::merge_fn(),
                self.first_members(3),
                fixed64_member(4, self.count),
            ) == Some(self.first_members(4)),
    {
        let v = self;
        let merge = Self::merge_fn();
        let a3 = v.first_members(3);
        let f = Field { number: 4, payload: Payload::Fixed64(v.count) };
        lemma_fold_one(merge, a3, f);
    }

    proof fn lemma_member_sum(self)
        ensures
            fold_fields(
                Self::merge_fn(),
                self.first_members(4),
                fixed64_member(5, self.sum),
            ) == Some(self.first_members(5)),
    {
        let v = self;
        let merge = Self::merge_fn();
        let a4 = v.first_members(4);
        let f = Field { number: 5, payload: Payload::Fixed64(v.sum) };
        lemma_fold_one(merge, a4, f);
    }

    proof fn lemma_member_quantile_values(self)
        requires
            fields_bytes(SummaryDataPointValueAtQuantileView::repeated(6, self.quantile_values)).len()
                <= u64::MAX,
        ensures
            fold_fields(
                Self::merge_fn(),
                self.first_members(5),
                SummaryDataPointValueAtQuantileView::repeated(6, self.quantile_values),
            ) == Some(self.first_members(6)),
    {
        let v = self;
        let merge = Self::merge_fn();
        let f6 = SummaryDataPointValueAtQuantileView::repeated(6, v.quantile_values);
        let a5 = v.first_members(5);
        let a6 = v.first_members(6);
        let states = |i: int| Self {
            quantile_values: v.quantile_values.take(i),
            ..v.first_members(5)
        };
        assert forall|i: int| 0 <= i < f6.len() implies merge(states(i), #[trigger] f6[i]) == Some(
            states(i + 1),
        ) by {
            lemma_run_shorter(f6, i);
            v.quantile_values[i].lemma_round_trip();
            assert(
                v.quantile_values.take(i).push(v.quantile_values[i]) =~= v.quantile_values.take(
                    i + 1,
                )
            );
        }
        lemma_fold_chain(merge, f6, states);
        assert(v.quantile_values.take(0) =~= Seq::<SummaryDataPointValueAtQuantileView>::empty());
        assert(v.quantile_values.take(v.quantile_values.len() as int) =~= v.quantile_values);
        assert(states(0) == a5);
        assert(states(f6.len() as int) == a6);
    }

    proof fn lemma_member_flags(self)
        ensures
            fold_fields(
                Self::merge_fn(),
                self.first_members(6),
                varint_member(8, self.flags as u64),
            ) == Some(self.first_members(7)),
    {
        let v = self;
        let merge = Self::merge_fn();
        let a6 = v.first_members(6);
        let f = Field { number: 8, payload: Payload::Varint(v.flags as u64) };
        lemma_fold_one(merge, a6, f);
    }

    /// Merging the fields that the message is written as, into the message with every
    /// member at its zero value, gives the message.
    pub proof fn lemma_fold_fields(self)
        requires
            self.wire().len() <= u64::MAX,
        ensures
            fold_fields(Self::merge_fn(), Self::default(), self.fields()) == Some(self),
    {
        let v = self;
        let merge = Self::merge_fn();
        let f1 = KeyValueView::repeated(7, v.attributes);
        let f2 = fixed64_member(2, v.start_time_unix_nano);
        let f3 = fixed64_member(3, v.time_unix_nano);
        let f4 = fixed64_member(4, v.count);
        let f5 = fixed64_member(5, v.sum);
        let f6 = SummaryDataPointValueAtQuantileView::repeated(6, v.quantile_values);
        let f7 = varint_member(8, v.flags as u64);
        let a0 = v.first_members(0);
        assert(a0 == Self::default());
        reveal(SummaryDataPointView::wire);
        lemma_fields_bytes_concat(f1, f2);
        lemma_fields_bytes_concat(f1 + f2, f3);
        lemma_fields_bytes_concat(f1 + f2 + f3, f4);
        lemma_fields_bytes_concat(f1 + f2 + f3 + f4, f5);
        lemma_fields_bytes_concat(f1 + f2 + f3 + f4 + f5, f6);
        lemma_fields_bytes_concat(f1 + f2 + f3 + f4 + f5 + f6, f7);
        v.lemma_member_attributes();
        v.lemma_member_start_time_unix_nano();
        lemma_fold_concat(merge, a0, f1, f2);
        v.lemma_member_time_unix_nano();
        lemma_fold_concat(merge, a0, f1 + f2, f3);
        v.lemma_member_count();
        lemma_fold_concat(merge, a0, f1 + f2 + f3, f4);
        v.lemma_member_sum();
        lemma_fold_concat(merge, a0, f1 + f2 + f3 + f4, f5);
        v.lemma_member_quantile_values();
        lemma_fold_concat(merge, a0, f1 + f2 + f3 + f4 + f5, f6);
        v.lemma_member_flags();
        lemma_fold_concat(merge, a0, f1 + f2 + f3 + f4 + f5 + f6, f7);
        assert(v.first_members(7) == v);
    }

    /// Decoding what was written gives the message back, and so writing what was
    /// decoded from such bytes gives the bytes back. The length of the body must fit in
    /// 64 bits, as that of every message in memory does.
    pub proof fn lemma_round_trip(self)
        requires
            self.wire().len() <= u64::MAX,
        ensures
            Self::decode(self.wire()) == Some(self),
            Self::decode(self.wire()) matches Some(back) && back.wire() == self.wire(),
    {
        reveal(SummaryDataPointView::wire);
        reveal(SummaryDataPointView::decode);
        lemma_well_formed_by_len(self.fields());
        self.lemma_fold_fields();
        lemma_decode_fields(Self::merge_fn(), Self::default(), self.fields());
    }

    /// Decoding the framed message gives the message back, whatever follows it.
    pub proof fn lemma_framed_round_trip(self, rest: Seq<u8>)
        requires
            self.wire().len() <= u64::MAX,
        ensures
            parse_framed(framed(self.wire()) + rest) == Some(self.wire()),
            Self::decode(self.wire()) == Some(self),
    {
        lemma_frame_round_trip(self.wire(), rest);
        self.lemma_round_trip();
    }

    /// Fields of no member do not count, wherever they stand: the bytes decode to what
    /// the fields of members among them give.
    pub proof fn lemma_passes_over_unknown(b: Seq<u8>)
        ensures
            match parse_fields(b) {
                Some(fs) => Self::decode(b) == fold_fields(
                    Self::merge_fn(),
                    Self::default(),
                    fs.filter(|f: Field| Self::has_number(f.number)),
                ),
                None => Self::decode(b) is None,
            },
    {
        reveal(SummaryDataPointView::decode);
        match parse_fields(b) {
            Some(fs) => {
                lemma_fold_passes_over(
                    Self::merge_fn(),
                    Self::default(),
                    fs,
                    |f: Field| Self::has_number(f.number),
                );
            },
            None => {},
        }
    }

    /// A field of no member, appended to bytes that decode, changes nothing: the bytes
    /// still decode, and to the same message.
    pub proof fn lemma_unknown_field(b: Seq<u8>, f: Field)
        requires
            Self::decode(b) is Some,
            !Self::has_number(f.number),
            well_formed(f),
        ensures
            Self::decode(b + field_bytes(f)) == Self::decode(b),
    {
        reveal(SummaryDataPointView::decode);
        let fs = parse_fields(b)->Some_0;
        let all = b + field_bytes(f);
        lemma_fields_bytes_one(f);
        assert(all_well_formed(seq![f]));
        lemma_fields_round_trip(seq![f]);
        lemma_parse_fields_concat(b, field_bytes(f));
        let merge = Self::merge_fn();
        lemma_fold_concat(merge, Self::default(), fs, seq![f]);
        lemma_fold_one(merge, Self::decode(b)->Some_0, f);
    }

    /// Whether the member that the field number belongs to differs from its zero
    /// value. For a member that holds one of several kinds of value, whether the kind
    /// with this number is the one in force.
    pub open spec fn is_set(self, number: u32) -> bool {
        if number == 7 {
            self.attributes.len() > 0
        } else if number == 2 {
            self.start_time_unix_nano != 0
        } else if number == 3 {
            self.time_unix_nano != 0
        } else if number == 4 {
            self.count != 0
        } else if number == 5 {
            self.sum != 0
        } else if number == 6 {
            self.quantile_values.len() > 0
        } else if number == 8 {
            self.flags != 0
        } else {
            false
        }
    }

    /// A member at its zero value is not written: every field of the message belongs
    /// to a member that differs from its zero value.
    pub proof fn lemma_zero_members_omitted(self)
        ensures
            all_fields(self.fields(), |f: Field| self.is_set(f.number)),
    {
        let v = self;
        let set = |f: Field| self.is_set(f.number);
        let f1 = KeyValueView::repeated(7, v.attributes);
        let f2 = fixed64_member(2, v.start_time_unix_nano);
        let f3 = fixed64_member(3, v.time_unix_nano);
        let f4 = fixed64_member(4, v.count);
        let f5 = fixed64_member(5, v.sum);
        let f6 = SummaryDataPointValueAtQuantileView::repeated(6, v.quantile_values);
        let f7 = varint_member(8, v.flags as u64);
        assert(all_fields(f1, set)) by {
        }
        assert(all_fields(f2, set)) by {
        }
        assert(all_fields(f3, set)) by {
        }
        assert(all_fields(f4, set)) by {
        }
        assert(all_fields(f5, set)) by {
        }
        assert(all_fields(f6, set)) by {
        }
        assert(all_fields(f7, set)) by {
        }
        lemma_all_fields_concat(f1, f2, set);
        lemma_all_fields_concat(f1 + f2, f3, set);
        lemma_all_fields_concat(f1 + f2 + f3, f4, set);
        lemma_all_fields_concat(f1 + f2 + f3 + f4, f5, set);
        lemma_all_fields_concat(f1 + f2 + f3 + f4 + f5, f6, set);
        lemma_all_fields_concat(f1 + f2 + f3 + f4 + f5 + f6, f7, set);
    }

    /// The message with every member at its zero value is written as no byte at all.
    pub proof fn lemma_default_wire()
        ensures
            Self::default().fields() == Seq::<Field>::empty(),
            Self::default().wire() == Seq::<u8>::empty(),
    {
        let v = Self::default();
        assert(KeyValueView::repeated(7, v.attributes) =~= Seq::<Field>::empty());
        assert(fixed64_member(2, v.start_time_unix_nano) =~= Seq::<Field>::empty());
        assert(fixed64_member(3, v.time_unix_nano) =~= Seq::<Field>::empty());
        assert(fixed64_member(4, v.count) =~= Seq::<Field>::empty());
        assert(fixed64_member(5, v.sum) =~= Seq::<Field>::empty());
        assert(
            SummaryDataPointValueAtQuantileView::repeated(6, v.quantile_values)
                =~= Seq::<Field>::empty()
        );
        assert(varint_member(8, v.flags as u64) =~= Seq::<Field>::empty());
        assert(v.fields() =~= Seq::<Field>::empty());
        reveal(SummaryDataPointView::wire);
    }
}

impl GaugeView {
    /// The field numbers of the members.
    pub open spec fn has_number(number: u32) -> bool {
        number == 1
    }

    /// The message with its first `k` members as they are in `self`, and the others at
    /// their zero value.
    spec fn first_members(self, k: nat) -> Self {
        Self {
            data_points: if k > 0 { self.data_points } else { Seq::empty() },
        }
    }

    proof fn lemma_member_data_points(self)
        requires
            fields_bytes(NumberDataPointView::repeated(1, self.data_points)).len() <= u64::MAX,
        ensures
            fold_fields(
                Self::merge_fn(),
                self.first_members(0),
                NumberDataPointView::repeated(1, self.data_points),
            ) == Some(self.first_members(1)),
    {
        let v = self;
        let merge = Self::merge_fn();
        let f1 = NumberDataPointView::repeated(1, v.data_points);
        let a0 = v.first_members(0);
        let a1 = v.first_members(1);
        let states = |i: int| Self { data_points: v.data_points.take(i) };
        assert forall|i: int| 0 <= i < f1.len() implies merge(states(i), #[trigger] f1[i]) == Some(
            states(i + 1),
        ) by {
            lemma_run_shorter(f1, i);
            v.data_points[i].lemma_round_trip();
            assert(v.data_points.take(i).push(v.data_points[i]) =~= v.data_points.take(i + 1));
        }
        lemma_fold_chain(merge, f1, states);
        assert(v.data_points.take(0) =~= Seq::<NumberDataPointView>::empty());
        assert(v.data_points.take(v.data_points.len() as int) =~= v.data_points);
        assert(states(0) == a0);
        assert(states(f1.len() as int) == a1);
    }

    /// Merging the fields that the message is written as, into the message with every
    /// member at its zero value, gives the message.
    pub proof fn lemma_fold_fields(self)
        requires
            self.wire().len() <= u64::MAX,
        ensures
            fold_fields(Self::merge_fn(), Self::default(), self.fields()) == Some(self),
    {
        let v = self;
        let merge = Self::merge_fn();
        let f1 = NumberDataPointView::repeated(1, v.data_points);
        let a0 = v.first_members(0);
        assert(a0 == Self::default());
        reveal(GaugeView::wire);
        v.lemma_member_data_points();
        assert(v.first_members(1) == v);
    }

    /// Decoding what was written gives the message back, and so writing what was
    /// decoded from such bytes gives the bytes back. The length of the body must fit in
    /// 64 bits, as that of every message in memory does.
    pub proof fn lemma_round_trip(self)
        requires
            self.wire().len() <= u64::MAX,
        ensures
            Self::decode(self.wire()) == Some(self),
            Self::decode(self.wire()) matches Some(back) && back.wire() == self.wire(),
    {
        reveal(GaugeView::wire);
        reveal(GaugeView::decode);
        lemma_well_formed_by_len(self.fields());
        self.lemma_fold_fields();
        lemma_decode_fields(Self::merge_fn(), Self::default(), self.fields());
    }

    /// Decoding the framed message gives the message back, whatever follows it.
    pub proof fn lemma_framed_round_trip(self, rest: Seq<u8>)
        requires
            self.wire().len() <= u64::MAX,
        ensures
            parse_framed(framed(self.wire()) + rest) == Some(self.wire()),
            Self::decode(self.wire()) == Some(self),
    {
        lemma_frame_round_trip(self.wire(), rest);
        self.lemma_round_trip();
    }

    /// Fields of no member do not count, wherever they stand: the bytes decode to what
    /// the fields of members among them give.
    pub proof fn lemma_passes_over_unknown(b: Seq<u8>)
        ensures
            match parse_fields(b) {
                Some(fs) => Self::decode(b) == fold_fields(
                    Self::merge_fn(),
                    Self::default(),
                    fs.filter(|f: Field| Self::has_number(f.number)),
                ),
                None => Self::decode(b) is None,
            },
    {
        reveal(GaugeView::decode);
        match parse_fields(b) {
            Some(fs) => {
                lemma_fold_passes_over(
                    Self::merge_fn(),
                    Self::default(),
                    fs,
                    |f: Field| Self::has_number(f.number),
                );
            },
            None => {},
        }
    }

    /// A field of no member, appended to bytes that decode, changes nothing: the bytes
    /// still decode, and to the same message.
    pub proof fn lemma_unknown_field(b: Seq<u8>, f: Field)
        requires
            Self::decode(b) is Some,
            !Self::has_number(f.number),
            well_formed(f),
        ensures
            Self::decode(b + field_bytes(f)) == Self::decode(b),
    {
        reveal(GaugeView::decode);
        let fs = parse_fields(b)->Some_0;
        let all = b + field_bytes(f);
        lemma_fields_bytes_one(f);
        assert(all_well_formed(seq![f]));
        lemma_fields_round_trip(seq![f]);
        lemma_parse_fields_concat(b, field_bytes(f));
        let merge = Self::merge_fn();
        lemma_fold_concat(merge, Self::default(), fs, seq![f]);
        lemma_fold_one(merge, Self::decode(b)->Some_0, f);
    }

    /// Whether the member that the field number belongs to differs from its zero
    /// value. For a member that holds one of several kinds of value, whether the kind
    /// with this number is the one in force.
    pub open spec fn is_set(self, number: u32) -> bool {
        if number == 1 {
            self.data_points.len() > 0
        } else {
            false
        }
    }

    /// A member at its zero value is not written: every field of the message belongs
    /// to a member that differs from its zero value.
    pub proof fn lemma_zero_members_omitted(self)
        ensures
            all_fields(self.fields(), |f: Field| self.is_set(f.number)),
    {
        let v = self;
        let set = |f: Field| self.is_set(f.number);
        let f1 = NumberDataPointView::repeated(1, v.data_points);
        assert(all_fields(f1, set)) by {
        }
    }

    /// The message with every member at its zero value is written as no byte at all.
    pub proof fn lemma_default_wire()
        ensures
            Self::default().fields() == Seq::<Field>::empty(),
            Self::default().wire() == Seq::<u8>::empty(),
    {
        let v = Self::default();
        assert(NumberDataPointView::repeated(1, v.data_points) =~= Seq::<Field>::empty());
        assert(v.fields() =~= Seq::<Field>::empty());
        reveal(GaugeView::wire);
    }
}

impl SumView {
    /// The field numbers of the members.
    pub open spec fn has_number(number: u32) -> bool {
        number == 1 || number == 2 || number == 3
    }

    /// The message with its first `k` members as they are in `self`, and the others at
    /// their zero value.
    spec fn first_members(self, k: nat) -> Self {
        Self {
            data_points: if k > 0 { self.data_points } else { Seq::empty() },
            aggregation_temporality: if k > 1 {
                self.aggregation_temporality
            } else {
                AggregationTemporality::AGGREGATION_TEMPORALITY_UNSPECIFIED
            },
            is_monotonic: if k > 2 { self.is_monotonic } else { false },
        }
    }

    proof fn lemma_member_data_points(self)
        requires
            fields_bytes(NumberDataPointView::repeated(1, self.data_points)).len() <= u64::MAX,
        ensures
            fold_fields(
                Self::merge_fn(),
                self.first_members(0),
                NumberDataPointView::repeated(1, self.data_points),
            ) == Some(self.first_members(1)),
    {
        let v = self;
        let merge = Self::merge_fn();
        let f1 = NumberDataPointView::repeated(1, v.data_points);
        let a0 = v.first_members(0);
        let a1 = v.first_members(1);
        let states = |i: int| Self { data_points: v.data_points.take(i), ..v.first_members(0) };
        assert forall|i: int| 0 <= i < f1.len() implies merge(states(i), #[trigger] f1[i]) == Some(
            states(i + 1),
        ) by {
            lemma_run_shorter(f1, i);
            v.data_points[i].lemma_round_trip();
            assert(v.data_points.take(i).push(v.data_points[i]) =~= v.data_points.take(i + 1));
        }
        lemma_fold_chain(merge, f1, states);
        assert(v.data_points.take(0) =~= Seq::<NumberDataPointView>::empty());
        assert(v.data_points.take(v.data_points.len() as int) =~= v.data_points);
        assert(states(0) == a0);
        assert(states(f1.len() as int) == a1);
    }

    proof fn lemma_member_aggregation_temporality(self)
        ensures
            fold_fields(
                Self::merge_fn(),
                self.first_members(1),
                varint_member(2, self.aggregation_temporality.spec_number() as u64),
            ) == Some(self.first_members(2)),
    {
        let v = self;
        let merge = Self::merge_fn();
        let a1 = v.first_members(1);
        v.aggregation_temporality.lemma_number_round_trip();
        let f = Field {
            number: 2,
            payload: Payload::Varint(v.aggregation_temporality.spec_number() as u64),
        };
        lemma_fold_one(merge, a1, f);
    }

    proof fn lemma_member_is_monotonic(self)
        ensures
            fold_fields(
                Self::merge_fn(),
                self.first_members(2),
                varint_member(3, if self.is_monotonic { 1u64 } else { 0u64 }),
            ) == Some(self.first_members(3)),
    {
        let v = self;
        let merge = Self::merge_fn();
        let a2 = v.first_members(2);
        let f = Field {
            number: 3,
            payload: Payload::Varint(if v.is_monotonic { 1u64 } else { 0u64 }),
        };
        lemma_fold_one(merge, a2, f);
    }

    /// Merging the fields that the message is written as, into the message with every
    /// member at its zero value, gives the message.
    pub proof fn lemma_fold_fields(self)
        requires
            self.wire().len() <= u64::MAX,
        ensures
            fold_fields(Self::merge_fn(), Self::default(), self.fields()) == Some(self),
    {
        let v = self;
        let merge = Self::merge_fn();
        let f1 = NumberDataPointView::repeated(1, v.data_points);
        let f2 = varint_member(2, v.aggregation_temporality.spec_number() as u64);
        let f3 = varint_member(3, if v.is_monotonic { 1u64 } else { 0u64 });
        let a0 = v.first_members(0);
        assert(a0 == Self::default());
        reveal(SumView::wire);
        lemma_fields_bytes_concat(f1, f2);
        lemma_fields_bytes_concat(f1 + f2, f3);
        v.lemma_member_data_points();
        v.lemma_member_aggregation_temporality();
        lemma_fold_concat(merge, a0, f1, f2);
        v.lemma_member_is_monotonic();
        lemma_fold_concat(merge, a0, f1 + f2, f3);
        assert(v.first_members(3) == v);
    }

    /// Decoding what was written gives the message back, and so writing what was
    /// decoded from such bytes gives the bytes back. The length of the body must fit in
    /// 64 bits, as that of every message in memory does.
    pub proof fn lemma_round_trip(self)
        requires
            self.wire().len() <= u64::MAX,
        ensures
            Self::decode(self.wire()) == Some(self),
            Self::decode(self.wire()) matches Some(back) && back.wire() == self.wire(),
    {
        reveal(SumView::wire);
        reveal(SumView::decode);
        lemma_well_formed_by_len(self.fields());
        self.lemma_fold_fields();
        lemma_decode_fields(Self::merge_fn(), Self::default(), self.fields());
    }

    /// Decoding the framed message gives the message back, whatever follows it.
    pub proof fn lemma_framed_round_trip(self, rest: Seq<u8>)
        requires
            self.wire().len() <= u64::MAX,
        ensures
            parse_framed(framed(self.wire()) + rest) == Some(self.wire()),
            Self::decode(self.wire()) == Some(self),
    {
        lemma_frame_round_trip(self.wire(), rest);
        self.lemma_round_trip();
    }

    /// Fields of no member do not count, wherever they stand: the bytes decode to what
    /// the fields of members among them give.
    pub proof fn lemma_passes_over_unknown(b: Seq<u8>)
        ensures
            match parse_fields(b) {
                Some(fs) => Self::decode(b) == fold_fields(
                    Self::merge_fn(),
                    Self::default(),
                    fs.filter(|f: Field| Self::has_number(f.number)),
                ),
                None => Self::decode(b) is None,
            },
    {
        reveal(SumView::decode);
        match parse_fields(b) {
            Some(fs) => {
                lemma_fold_passes_over(
                    Self::merge_fn(),
                    Self::default(),
                    fs,
                    |f: Field| Self::has_number(f.number),
                );
            },
            None => {},
        }
    }

    /// A field of no member, appended to bytes that decode, changes nothing: the bytes
    /// still decode, and to the same message.
    pub proof fn lemma_unknown_field(b: Seq<u8>, f: Field)
        requires
            Self::decode(b) is Some,
            !Self::has_number(f.number),
            well_formed(f),
        ensures
            Self::decode(b + field_bytes(f)) == Self::decode(b),
    {
        reveal(SumView::decode);
        let fs = parse_fields(b)->Some_0;
        let all = b + field_bytes(f);
        lemma_fields_bytes_one(f);
        assert(all_well_formed(seq![f]));
        lemma_fields_round_trip(seq![f]);
        lemma_parse_fields_concat(b, field_bytes(f));
        let merge = Self::merge_fn();
        lemma_fold_concat(merge, Self::default(), fs, seq![f]);
        lemma_fold_one(merge, Self::decode(b)->Some_0, f);
    }

    /// Whether the member that the field number belongs to differs from its zero
    /// value. For a member that holds one of several kinds of value, whether the kind
    /// with this number is the one in force.
    pub open spec fn is_set(self, number: u32) -> bool {
        if number == 1 {
            self.data_points.len() > 0
        } else if number == 2 {
            self.aggregation_temporality
                != AggregationTemporality::AGGREGATION_TEMPORALITY_UNSPECIFIED
        } else if number == 3 {
            self.is_monotonic
        } else {
            false
        }
    }

    /// A member at its zero value is not written: every field of the message belongs
    /// to a member that differs from its zero value.
    pub proof fn lemma_zero_members_omitted(self)
        ensures
            all_fields(self.fields(), |f: Field| self.is_set(f.number)),
    {
        let v = self;
        let set = |f: Field| self.is_set(f.number);
        let f1 = NumberDataPointView::repeated(1, v.data_points);
        let f2 = varint_member(2, v.aggregation_temporality.spec_number() as u64);
        let f3 = varint_member(3, if v.is_monotonic { 1u64 } else { 0u64 });
        assert(all_fields(f1, set)) by {
        }
        assert(all_fields(f2, set)) by {
            v.aggregation_temporality.lemma_number_round_trip();
        }
        assert(all_fields(f3, set)) by {
        }
        lemma_all_fields_concat(f1, f2, set);
        lemma_all_fields_concat(f1 + f2, f3, set);
    }

    /// The message with every member at its zero value is written as no byte at all.
    pub proof fn lemma_default_wire()
        ensures
            Self::default().fields() == Seq::<Field>::empty(),
            Self::default().wire() == Seq::<u8>::empty(),
    {
        let v = Self::default();
        assert(NumberDataPointView::repeated(1, v.data_points) =~= Seq::<Field>::empty());
        assert(
            varint_member(2, v.aggregation_temporality.spec_number() as u64)
                =~= Seq::<Field>::empty()
        );
        assert(
            varint_member(3, if v.is_monotonic { 1u64 } else { 0u64 }) =~= Seq::<Field>::empty()
        );
        assert(v.fields() =~= Seq::<Field>::empty());
        reveal(SumView::wire);
    }
}

impl HistogramView {
    /// The field numbers of the members.
    pub open spec fn has_number(number: u32) -> bool {
        number == 1 || number == 2
    }

    /// The message with its first `k` members as they are in `self`, and the others at
    /// their zero value.
    spec fn first_members(self, k: nat) -> Self {
        Self {
            data_points: if k > 0 { self.data_points } else { Seq::empty() },
            aggregation_temporality: if k > 1 {
                self.aggregation_temporality
            } else {
                AggregationTemporality::AGGREGATION_TEMPORALITY_UNSPECIFIED
            },
        }
    }

    proof fn lemma_member_data_points(self)
        requires
            fields_bytes(HistogramDataPointView::repeated(1, self.data_points)).len() <= u64::MAX,
        ensures
            fold_fields(
                Self::merge_fn(),
                self.first_members(0),
                HistogramDataPointView::repeated(1, self.data_points),
            ) == Some(self.first_members(1)),
    {
        let v = self;
        let merge = Self::merge_fn();
        let f1 = HistogramDataPointView::repeated(1, v.data_points);
        let a0 = v.first_members(0);
        let a1 = v.first_members(1);
        let states = |i: int| Self { data_points: v.data_points.take(i), ..v.first_members(0) };
        assert forall|i: int| 0 <= i < f1.len() implies merge(states(i), #[trigger] f1[i]) == Some(
            states(i + 1),
        ) by {
            lemma_run_shorter(f1, i);
            v.data_points[i].lemma_round_trip();
            assert(v.data_points.take(i).push(v.data_points[i]) =~= v.data_points.take(i + 1));
        }
        lemma_fold_chain(merge, f1, states);
        assert(v.data_points.take(0) =~= Seq::<HistogramDataPointView>::empty());
        assert(v.data_points.take(v.data_points.len() as int) =~= v.data_points);
        assert(states(0) == a0);
        assert(states(f1.len() as int) == a1);
    }

    proof fn lemma_member_aggregation_temporality(self)
        ensures
            fold_fields(
                Self::merge_fn(),
                self.first_members(1),
                varint_member(2, self.aggregation_temporality.spec_number() as u64),
            ) == Some(self.first_members(2)),
    {
        let v = self;
        let merge = Self::merge_fn();
        let a1 = v.first_members(1);
        v.aggregation_temporality.lemma_number_round_trip();
        let f = Field {
            number: 2,
            payload: Payload::Varint(v.aggregation_temporality.spec_number() as u64),
        };
        lemma_fold_one(merge, a1, f);
    }

    /// Merging the fields that the message is written as, into the message with every
    /// member at its zero value, gives the message.
    pub proof fn lemma_fold_fields(self)
        requires
            self.wire().len() <= u64::MAX,
        ensures
            fold_fields(Self::merge_fn(), Self::default(), self.fields()) == Some(self),
    {
        let v = self;
        let merge = Self::merge_fn();
        let f1 = HistogramDataPointView::repeated(1, v.data_points);
        let f2 = varint_member(2, v.aggregation_temporality.spec_number() as u64);
        let a0 = v.first_members(0);
        assert(a0 == Self::default());
        reveal(HistogramView::wire);
        lemma_fields_bytes_concat(f1, f2);
        v.lemma_member_data_points();
        v.lemma_member_aggregation_temporality();
        lemma_fold_concat(merge, a0, f1, f2);
        assert(v.first_members(2) == v);
    }

    /// Decoding what was written gives the message back, and so writing what was
    /// decoded from such bytes gives the bytes back. The length of the body must fit in
    /// 64 bits, as that of every message in memory does.
    pub proof fn lemma_round_trip(self)
        requires
            self.wire().len() <= u64::MAX,
        ensures
            Self::decode(self.wire()) == Some(self),
            Self::decode(self.wire()) matches Some(back) && back.wire() == self.wire(),
    {
        reveal(HistogramView::wire);
        reveal(HistogramView::decode);
        lemma_well_formed_by_len(self.fields());
        self.lemma_fold_fields();
        lemma_decode_fields(Self::merge_fn(), Self::default(), self.fields());
    }

    /// Decoding the framed message gives the message back, whatever follows it.
    pub proof fn lemma_framed_round_trip(self, rest: Seq<u8>)
        requires
            self.wire().len() <= u64::MAX,
        ensures
            parse_framed(framed(self.wire()) + rest) == Some(self.wire()),
            Self::decode(self.wire()) == Some(self),
    {
        lemma_frame_round_trip(self.wire(), rest);
        self.lemma_round_trip();
    }

    /// Fields of no member do not count, wherever they stand: the bytes decode to what
    /// the fields of members among them give.
    pub proof fn lemma_passes_over_unknown(b: Seq<u8>)
        ensures
            match parse_fields(b) {
                Some(fs) => Self::decode(b) == fold_fields(
                    Self::merge_fn(),
                    Self::default(),
                    fs.filter(|f: Field| Self::has_number(f.number)),
                ),
                None => Self::decode(b) is None,
            },
    {
        reveal(HistogramView::decode);
        match parse_fields(b) {
            Some(fs) => {
                lemma_fold_passes_over(
                    Self::merge_fn(),
                    Self::default(),
                    fs,
                    |f: Field| Self::has_number(f.number),
                );
            },
            None => {},
        }
    }

    /// A field of no member, appended to bytes that decode, changes nothing: the bytes
    /// still decode, and to the same message.
    pub proof fn lemma_unknown_field(b: Seq<u8>, f: Field)
        requires
            Self::decode(b) is Some,
            !Self::has_number(f.number),
            well_formed(f),
        ensures
            Self::decode(b + field_bytes(f)) == Self::decode(b),
    {
        reveal(HistogramView::decode);
        let fs = parse_fields(b)->Some_0;
        let all = b + field_bytes(f);
        lemma_fields_bytes_one(f);
        assert(all_well_formed(seq![f]));
        lemma_fields_round_trip(seq![f]);
        lemma_parse_fields_concat(b, field_bytes(f));
        let merge = Self::merge_fn();
        lemma_fold_concat(merge, Self::default(), fs, seq![f]);
        lemma_fold_one(merge, Self::decode(b)->Some_0, f);
    }

    /// Whether the member that the field number belongs to differs from its zero
    /// value. For a member that holds one of several kinds of value, whether the kind
    /// with this number is the one in force.
    pub open spec fn is_set(self, number: u32) -> bool {
        if number == 1 {
            self.data_points.len() > 0
        } else if number == 2 {
            self.aggregation_temporality
                != AggregationTemporality::AGGREGATION_TEMPORALITY_UNSPECIFIED
        } else {
            false
        }
    }

    /// A member at its zero value is not written: every field of the message belongs
    /// to a member that differs from its zero value.
    pub proof fn lemma_zero_members_omitted(self)
        ensures
            all_fields(self.fields(), |f: Field| self.is_set(f.number)),
    {
        let v = self;
        let set = |f: Field| self.is_set(f.number);
        let f1 = HistogramDataPointView::repeated(1, v.data_points);
        let f2 = varint_member(2, v.aggregation_temporality.spec_number() as u64);
        assert(all_fields(f1, set)) by {
        }
        assert(all_fields(f2, set)) by {
            v.aggregation_temporality.lemma_number_round_trip();
        }
        lemma_all_fields_concat(f1, f2, set);
    }

    /// The message with every member at its zero value is written as no byte at all.
    pub proof fn lemma_default_wire()
        ensures
            Self::default().fields() == Seq::<Field>::empty(),
            Self::default().wire() == Seq::<u8>::empty(),
    {
        let v = Self::default();
        assert(HistogramDataPointView::repeated(1, v.data_points) =~= Seq::<Field>::empty());
        assert(
            varint_member(2, v.aggregation_temporality.spec_number() as u64)
                =~= Seq::<Field>::empty()
        );
        assert(v.fields() =~= Seq::<Field>::empty());
        reveal(HistogramView::wire);
    }
}

impl ExponentialHistogramView {
    /// The field numbers of the members.
    pub open spec fn has_number(number: u32) -> bool {
        number == 1 || number == 2
    }

    /// The message with its first `k` members as they are in `self`, and the others at
    /// their zero value.
    spec fn first_members(self, k: nat) -> Self {
        Self {
            data_points: if k > 0 { self.data_points } else { Seq::empty() },
            aggregation_temporality: if k > 1 {
                self.aggregation_temporality
            } else {
                AggregationTemporality::AGGREGATION_TEMPORALITY_UNSPECIFIED
            },
        }
    }

    proof fn lemma_member_data_points(self)
        requires
            fields_bytes(ExponentialHistogramDataPointView::repeated(1, self.data_points)).len()
                <= u64::MAX,
        ensures
            fold_fields(
                Self::merge_fn(),
                self.first_members(0),
                ExponentialHistogramDataPointView::repeated(1, self.data_points),
            ) == Some(self.first_members(1)),
    {
        let v = self;
        let merge = Self::merge_fn();
        let f1 = ExponentialHistogramDataPointView::repeated(1, v.data_points);
        let a0 = v.first_members(0);
        let a1 = v.first_members(1);
        let states = |i: int| Self { data_points: v.data_points.take(i), ..v.first_members(0) };
        assert forall|i: int| 0 <= i < f1.len() implies merge(states(i), #[trigger] f1[i]) == Some(
            states(i + 1),
        ) by {
            lemma_run_shorter(f1, i);
            v.data_points[i].lemma_round_trip();
            assert(v.data_points.take(i).push(v.data_points[i]) =~= v.data_points.take(i + 1));
        }
        lemma_fold_chain(merge, f1, states);
        assert(v.data_points.take(0) =~= Seq::<ExponentialHistogramDataPointView>::empty());
        assert(v.data_points.take(v.data_points.len() as int) =~= v.data_points);
        assert(states(0) == a0);
        assert(states(f1.len() as int) == a1);
    }

    proof fn lemma_member_aggregation_temporality(self)
        ensures
            fold_fields(
                Self::merge_fn(),
                self.first_members(1),
                varint_member(2, self.aggregation_temporality.spec_number() as u64),
            ) == Some(self.first_members(2)),
    {
        let v = self;
        let merge = Self::merge_fn();
        let a1 = v.first_members(1);
        v.aggregation_temporality.lemma_number_round_trip();
        let f = Field {
            number: 2,
            payload: Payload::Varint(v.aggregation_temporality.spec_number() as u64),
        };
        lemma_fold_one(merge, a1, f);
    }

    /// Merging the fields that the message is written as, into the message with every
    /// member at its zero value, gives the message.
    pub proof fn lemma_fold_fields(self)
        requires
            self.wire().len() <= u64::MAX,
        ensures
            fold_fields(Self::merge_fn(), Self::default(), self.fields()) == Some(self),
    {
        let v = self;
        let merge = Self::merge_fn();
        let f1 = ExponentialHistogramDataPointView::repeated(1, v.data_points);
        let f2 = varint_member(2, v.aggregation_temporality.spec_number() as u64);
        let a0 = v.first_members(0);
        assert(a0 == Self::default());
        reveal(ExponentialHistogramView::wire);
        lemma_fields_bytes_concat(f1, f2);
        v.lemma_member_data_points();
        v.lemma_member_aggregation_temporality();
        lemma_fold_concat(merge, a0, f1, f2);
        assert(v.first_members(2) == v);
    }

    /// Decoding what was written gives the message back, and so writing what was
    /// decoded from such bytes gives the bytes back. The length of the body must fit in
    /// 64 bits, as that of every message in memory does.
    pub proof fn lemma_round_trip(self)
        requires
            self.wire().len() <= u64::MAX,
        ensures
            Self::decode(self.wire()) == Some(self),
            Self::decode(self.wire()) matches Some(back) && back.wire() == self.wire(),
    {
        reveal(ExponentialHistogramView::wire);
        reveal(ExponentialHistogramView::decode);
        lemma_well_formed_by_len(self.fields());
        self.lemma_fold_fields();
        lemma_decode_fields(Self::merge_fn(), Self::default(), self.fields());
    }

    /// Decoding the framed message gives the message back, whatever follows it.
    pub proof fn lemma_framed_round_trip(self, rest: Seq<u8>)
        requires
            self.wire().len() <= u64::MAX,
        ensures
            parse_framed(framed(self.wire()) + rest) == Some(self.wire()),
            Self::decode(self.wire()) == Some(self),
    {
        lemma_frame_round_trip(self.wire(), rest);
        self.lemma_round_trip();
    }

    /// Fields of no member do not count, wherever they stand: the bytes decode to what
    /// the fields of members among them give.
    pub proof fn lemma_passes_over_unknown(b: Seq<u8>)
        ensures
            match parse_fields(b) {
                Some(fs) => Self::decode(b) == fold_fields(
                    Self::merge_fn(),
                    Self::default(),
                    fs.filter(|f: Field| Self::has_number(f.number)),
                ),
                None => Self::decode(b) is None,
            },
    {
        reveal(ExponentialHistogramView::decode);
        match parse_fields(b) {
            Some(fs) => {
                lemma_fold_passes_over(
                    Self::merge_fn(),
                    Self::default(),
                    fs,
                    |f: Field| Self::has_number(f.number),
                );
            },
            None => {},
        }
    }

    /// A field of no member, appended to bytes that decode, changes nothing: the bytes
    /// still decode, and to the same message.
    pub proof fn lemma_unknown_field(b: Seq<u8>, f: Field)
        requires
            Self::decode(b) is Some,
            !Self::has_number(f.number),
            well_formed(f),
        ensures
            Self::decode(b + field_bytes(f)) == Self::decode(b),
    {
        reveal(ExponentialHistogramView::decode);
        let fs = parse_fields(b)->Some_0;
        let all = b + field_bytes(f);
        lemma_fields_bytes_one(f);
        assert(all_well_formed(seq![f]));
        lemma_fields_round_trip(seq![f]);
        lemma_parse_fields_concat(b, field_bytes(f));
        let merge = Self::merge_fn();
        lemma_fold_concat(merge, Self::default(), fs, seq![f]);
        lemma_fold_one(merge, Self::decode(b)->Some_0, f);
    }

    /// Whether the member that the field number belongs to differs from its zero
    /// value. For a member that holds one of several kinds of value, whether the kind
    /// with this number is the one in force.
    pub open spec fn is_set(self, number: u32) -> bool {
        if number == 1 {
            self.data_points.len() > 0
        } else if number == 2 {
            self.aggregation_temporality
                != AggregationTemporality::AGGREGATION_TEMPORALITY_UNSPECIFIED
        } else {
            false
        }
    }

    /// A member at its zero value is not written: every field of the message belongs
    /// to a member that differs from its zero value.
    pub proof fn lemma_zero_members_omitted(self)
        ensures
            all_fields(self.fields(), |f: Field| self.is_set(f.number)),
    {
        let v = self;
        let set = |f: Field| self.is_set(f.number);
        let f1 = ExponentialHistogramDataPointView::repeated(1, v.data_points);
        let f2 = varint_member(2, v.aggregation_temporality.spec_number() as u64);
        assert(all_fields(f1, set)) by {
        }
        assert(all_fields(f2, set)) by {
            v.aggregation_temporality.lemma_number_round_trip();
        }
        lemma_all_fields_concat(f1, f2, set);
    }

    /// The message with every member at its zero value is written as no byte at all.
    pub proof fn lemma_default_wire()
        ensures
            Self::default().fields() == Seq::<Field>::empty(),
            Self::default().wire() == Seq::<u8>::empty(),
    {
        let v = Self::default();
        assert(
            ExponentialHistogramDataPointView::repeated(1, v.data_points) =~= Seq::<Field>::empty()
        );
        assert(
            varint_member(2, v.aggregation_temporality.spec_number() as u64)
                =~= Seq::<Field>::empty()
        );
        assert(v.fields() =~= Seq::<Field>::empty());
        reveal(ExponentialHistogramView::wire);
    }
}

impl SummaryView {
    /// The field numbers of the members.
    pub open spec fn has_number(number: u32) -> bool {
        number == 1
    }

    /// The message with its first `k` members as they are in `self`, and the others at
    /// their zero value.
    spec fn first_members(self, k: nat) -> Self {
        Self {
            data_points: if k > 0 { self.data_points } else { Seq::empty() },
        }
    }

    proof fn lemma_member_data_points(self)
        requires
            fields_bytes(SummaryDataPointView::repeated(1, self.data_points)).len() <= u64::MAX,
        ensures
            fold_fields(
                Self::merge_fn(),
                self.first_members(0),
                SummaryDataPointView::repeated(1, self.data_points),
            ) == Some(self.first_members(1)),
    {
        let v = self;
        let merge = Self::merge_fn();
        let f1 = SummaryDataPointView::repeated(1, v.data_points);
        let a0 = v.first_members(0);
        let a1 = v.first_members(1);
        let states = |i: int| Self { data_points: v.data_points.take(i) };
        assert forall|i: int| 0 <= i < f1.len() implies merge(states(i), #[trigger] f1[i]) == Some(
            states(i + 1),
        ) by {
            lemma_run_shorter(f1, i);
            v.data_points[i].lemma_round_trip();
            assert(v.data_points.take(i).push(v.data_points[i]) =~= v.data_points.take(i + 1));
        }
        lemma_fold_chain(merge, f1, states);
        assert(v.data_points.take(0) =~= Seq::<SummaryDataPointView>::empty());
        assert(v.data_points.take(v.data_points.len() as int) =~= v.data_points);
        assert(states(0) == a0);
        assert(states(f1.len() as int) == a1);
    }

    /// Merging the fields that the message is written as, into the message with every
    /// member at its zero value, gives the message.
    pub proof fn lemma_fold_fields(self)
        requires
            self.wire().len() <= u64::MAX,
        ensures
            fold_fields(Self::merge_fn(), Self::default(), self.fields()) == Some(self),
    {
        let v = self;
        let merge = Self::merge_fn();
        let f1 = SummaryDataPointView::repeated(1, v.data_points);
        let a0 = v.first_members(0);
        assert(a0 == Self::default());
        reveal(SummaryView::wire);
        v.lemma_member_data_points();
        assert(v.first_members(1) == v);
    }

    /// Decoding what was written gives the message back, and so writing what was
    /// decoded from such bytes gives the bytes back. The length of the body must fit in
    /// 64 bits, as that of every message in memory does.
    pub proof fn lemma_round_trip(self)
        requires
            self.wire().len() <= u64::MAX,
        ensures
            Self::decode(self.wire()) == Some(self),
            Self::decode(self.wire()) matches Some(back) && back.wire() == self.wire(),
    {
        reveal(SummaryView::wire);
        reveal(SummaryView::decode);
        lemma_well_formed_by_len(self.fields());
        self.lemma_fold_fields();
        lemma_decode_fields(Self::merge_fn(), Self::default(), self.fields());
    }

    /// Decoding the framed message gives the message back, whatever follows it.
    pub proof fn lemma_framed_round_trip(self, rest: Seq<u8>)
        requires
            self.wire().len() <= u64::MAX,
        ensures
            parse_framed(framed(self.wire()) + rest) == Some(self.wire()),
            Self::decode(self.wire()) == Some(self),
    {
        lemma_frame_round_trip(self.wire(), rest);
        self.lemma_round_trip();
    }

    /// Fields of no member do not count, wherever they stand: the bytes decode to what
    /// the fields of members among them give.
    pub proof fn lemma_passes_over_unknown(b: Seq<u8>)
        ensures
            match parse_fields(b) {
                Some(fs) => Self::decode(b) == fold_fields(
                    Self::merge_fn(),
                    Self::default(),
                    fs.filter(|f: Field| Self::has_number(f.number)),
                ),
                None => Self::decode(b) is None,
            },
    {
        reveal(SummaryView::decode);
        match parse_fields(b) {
            Some(fs) => {
                lemma_fold_passes_over(
                    Self::merge_fn(),
                    Self::default(),
                    fs,
                    |f: Field| Self::has_number(f.number),
                );
            },
            None => {},
        }
    }

    /// A field of no member, appended to bytes that decode, changes nothing: the bytes
    /// still decode, and to the same message.
    pub proof fn lemma_unknown_field(b: Seq<u8>, f: Field)
        requires
            Self::decode(b) is Some,
            !Self::has_number(f.number),
            well_formed(f),
        ensures
            Self::decode(b + field_bytes(f)) == Self::decode(b),
    {
        reveal(SummaryView::decode);
        let fs = parse_fields(b)->Some_0;
        let all = b + field_bytes(f);
        lemma_fields_bytes_one(f);
        assert(all_well_formed(seq![f]));
        lemma_fields_round_trip(seq![f]);
        lemma_parse_fields_concat(b, field_bytes(f));
        let merge = Self::merge_fn();
        lemma_fold_concat(merge, Self::default(), fs, seq![f]);
        lemma_fold_one(merge, Self::decode(b)->Some_0, f);
    }

    /// Whether the member that the field number belongs to differs from its zero
    /// value. For a member that holds one of several kinds of value, whether the kind
    /// with this number is the one in force.
    pub open spec fn is_set(self, number: u32) -> bool {
        if number == 1 {
            self.data_points.len() > 0
        } else {
            false
        }
    }

    /// A member at its zero value is not written: every field of the message belongs
    /// to a member that differs from its zero value.
    pub proof fn lemma_zero_members_omitted(self)
        ensures
            all_fields(self.fields(), |f: Field| self.is_set(f.number)),
    {
        let v = self;
        let set = |f: Field| self.is_set(f.number);
        let f1 = SummaryDataPointView::repeated(1, v.data_points);
        assert(all_fields(f1, set)) by {
        }
    }

    /// The message with every member at its zero value is written as no byte at all.
    pub proof fn lemma_default_wire()
        ensures
            Self::default().fields() == Seq::<Field>::empty(),
            Self::default().wire() == Seq::<u8>::empty(),
    {
        let v = Self::default();
        assert(SummaryDataPointView::repeated(1, v.data_points) =~= Seq::<Field>::empty());
        assert(v.fields() =~= Seq::<Field>::empty());
        reveal(SummaryView::wire);
    }
}

impl MetricView {
    /// The field numbers of the members.
    pub open spec fn has_number(number: u32) -> bool {
        number == 1
            || number == 2
            || number == 3
            || number == 5
            || number == 7
            || number == 9
            || number == 10
            || number == 11
    }

    /// The message with its first `k` members as they are in `self`, and the others at
    /// their zero value.
    spec fn first_members(self, k: nat) -> Self {
        Self {
            name: if k > 0 { self.name } else { Seq::empty() },
            description: if k > 1 { self.description } else { Seq::empty() },
            unit: if k > 2 { self.unit } else { Seq::empty() },
            data: if k > 3 { self.data } else { MetricOneOfdataView::Unset },
        }
    }

    proof fn lemma_member_name(self)
        ensures
            fold_fields(
                Self::merge_fn(),
                self.first_members(0),
                run_member(1, encode_utf8(self.name)),
            ) == Some(self.first_members(1)),
    {
        let v = self;
        let merge = Self::merge_fn();
        let f1 = run_member(1, encode_utf8(v.name));
        let a0 = v.first_members(0);
        encode_utf8_valid_utf8(v.name);
        encode_utf8_decode_utf8(v.name);
        let f = Field { number: 1, payload: Payload::Run(encode_utf8(v.name)) };
        lemma_fold_one(merge, a0, f);
        if f1.len() == 0 {
            assert(v.name =~= Seq::<char>::empty());
        }
        assert(run_member(1, encode_utf8(v.name)).len() <= 1);
    }

    proof fn lemma_member_description(self)
        ensures
            fold_fields(
                Self::merge_fn(),
                self.first_members(1),
                run_member(2, encode_utf8(self.description)),
            ) == Some(self.first_members(2)),
    {
        let v = self;
        let merge = Self::merge_fn();
        let f2 = run_member(2, encode_utf8(v.description));
        let a1 = v.first_members(1);
        encode_utf8_valid_utf8(v.description);
        encode_utf8_decode_utf8(v.description);
        let f = Field { number: 2, payload: Payload::Run(encode_utf8(v.description)) };
        lemma_fold_one(merge, a1, f);
        if f2.len() == 0 {
            assert(v.description =~= Seq::<char>::empty());
        }
        assert(run_member(2, encode_utf8(v.description)).len() <= 1);
    }

    proof fn lemma_member_unit(self)
        ensures
            fold_fields(
                Self::merge_fn(),
                self.first_members(2),
                run_member(3, encode_utf8(self.unit)),
            ) == Some(self.first_members(3)),
    {
        let v = self;
        let merge = Self::merge_fn();
        let f3 = run_member(3, encode_utf8(v.unit));
        let a2 = v.first_members(2);
        encode_utf8_valid_utf8(v.unit);
        encode_utf8_decode_utf8(v.unit);
        let f = Field { number: 3, payload: Payload::Run(encode_utf8(v.unit)) };
        lemma_fold_one(merge, a2, f);
        if f3.len() == 0 {
            assert(v.unit =~= Seq::<char>::empty());
        }
        assert(run_member(3, encode_utf8(v.unit)).len() <= 1);
    }

    proof fn lemma_member_data(self)
        requires
            fields_bytes(self.data.fields()).len() <= u64::MAX,
        ensures
            fold_fields(
                Self::merge_fn(),
                self.first_members(3),
                self.data.fields(),
            ) == Some(self.first_members(4)),
    {
        let v = self;
        let merge = Self::merge_fn();
        let f4 = v.data.fields();
        let a3 = v.first_members(3);
        match v.data {
            MetricOneOfdataView::gauge(x) => {
                let f = Field { number: 5, payload: Payload::Run(x.wire()) };
                assert(f4 =~= seq![f]);
                lemma_run_shorter(f4, 0);
                x.lemma_round_trip();
                lemma_fold_one(merge, a3, f);
            },
            MetricOneOfdataView::sum(x) => {
                let f = Field { number: 7, payload: Payload::Run(x.wire()) };
                assert(f4 =~= seq![f]);
                lemma_run_shorter(f4, 0);
                x.lemma_round_trip();
                lemma_fold_one(merge, a3, f);
            },
            MetricOneOfdataView::histogram(x) => {
                let f = Field { number: 9, payload: Payload::Run(x.wire()) };
                assert(f4 =~= seq![f]);
                lemma_run_shorter(f4, 0);
                x.lemma_round_trip();
                lemma_fold_one(merge, a3, f);
            },
            MetricOneOfdataView::exponential_histogram(x) => {
                let f = Field { number: 10, payload: Payload::Run(x.wire()) };
                assert(f4 =~= seq![f]);
                lemma_run_shorter(f4, 0);
                x.lemma_round_trip();
                lemma_fold_one(merge, a3, f);
            },
            MetricOneOfdataView::summary(x) => {
                let f = Field { number: 11, payload: Payload::Run(x.wire()) };
                assert(f4 =~= seq![f]);
                lemma_run_shorter(f4, 0);
                x.lemma_round_trip();
                lemma_fold_one(merge, a3, f);
            },
            MetricOneOfdataView::Unset => {},
        }
    }

    /// Merging the fields that the message is written as, into the message with every
    /// member at its zero value, gives the message.
    pub proof fn lemma_fold_fields(self)
        requires
            self.wire().len() <= u64::MAX,
        ensures
            fold_fields(Self::merge_fn(), Self::default(), self.fields()) == Some(self),
    {
        let v = self;
        let merge = Self::merge_fn();
        let f1 = run_member(1, encode_utf8(v.name));
        let f2 = run_member(2, encode_utf8(v.description));
        let f3 = run_member(3, encode_utf8(v.unit));
        let f4 = v.data.fields();
        let a0 = v.first_members(0);
        assert(a0 == Self::default());
        reveal(MetricView::wire);
        lemma_fields_bytes_concat(f1, f2);
        lemma_fields_bytes_concat(f1 + f2, f3);
        lemma_fields_bytes_concat(f1 + f2 + f3, f4);
        v.lemma_member_name();
        v.lemma_member_description();
        lemma_fold_concat(merge, a0, f1, f2);
        v.lemma_member_unit();
        lemma_fold_concat(merge, a0, f1 + f2, f3);
        v.lemma_member_data();
        lemma_fold_concat(merge, a0, f1 + f2 + f3, f4);
        assert(v.first_members(4) == v);
    }

    /// Decoding what was written gives the message back, and so writing what was
    /// decoded from such bytes gives the bytes back. The length of the body must fit in
    /// 64 bits, as that of every message in memory does.
    pub proof fn lemma_round_trip(self)
        requires
            self.wire().len() <= u64::MAX,
        ensures
            Self::decode(self.wire()) == Some(self),
            Self::decode(self.wire()) matches Some(back) && back.wire() == self.wire(),
    {
        reveal(MetricView::wire);
        reveal(MetricView::decode);
        lemma_well_formed_by_len(self.fields());
        self.lemma_fold_fields();
        lemma_decode_fields(Self::merge_fn(), Self::default(), self.fields());
    }

    /// Decoding the framed message gives the message back, whatever follows it.
    pub proof fn lemma_framed_round_trip(self, rest: Seq<u8>)
        requires
            self.wire().len() <= u64::MAX,
        ensures
            parse_framed(framed(self.wire()) + rest) == Some(self.wire()),
            Self::decode(self.wire()) == Some(self),
    {
        lemma_frame_round_trip(self.wire(), rest);
        self.lemma_round_trip();
    }

    /// Fields of no member do not count, wherever they stand: the bytes decode to what
    /// the fields of members among them give.
    pub proof fn lemma_passes_over_unknown(b: Seq<u8>)
        ensures
            match parse_fields(b) {
                Some(fs) => Self::decode(b) == fold_fields(
                    Self::merge_fn(),
                    Self::default(),
                    fs.filter(|f: Field| Self::has_number(f.number)),
                ),
                None => Self::decode(b) is None,
            },
    {
        reveal(MetricView::decode);
        match parse_fields(b) {
            Some(fs) => {
                lemma_fold_passes_over(
                    Self::merge_fn(),
                    Self::default(),
                    fs,
                    |f: Field| Self::has_number(f.number),
                );
            },
            None => {},
        }
    }

    /// A field of no member, appended to bytes that decode, changes nothing: the bytes
    /// still decode, and to the same message.
    pub proof fn lemma_unknown_field(b: Seq<u8>, f: Field)
        requires
            Self::decode(b) is Some,
            !Self::has_number(f.number),
            well_formed(f),
        ensures
            Self::decode(b + field_bytes(f)) == Self::decode(b),
    {
        reveal(MetricView::decode);
        let fs = parse_fields(b)->Some_0;
        let all = b + field_bytes(f);
        lemma_fields_bytes_one(f);
        assert(all_well_formed(seq![f]));
        lemma_fields_round_trip(seq![f]);
        lemma_parse_fields_concat(b, field_bytes(f));
        let merge = Self::merge_fn();
        lemma_fold_concat(merge, Self::default(), fs, seq![f]);
        lemma_fold_one(merge, Self::decode(b)->Some_0, f);
    }

    /// Whether the member that the field number belongs to differs from its zero
    /// value. For a member that holds one of several kinds of value, whether the kind
    /// with this number is the one in force.
    pub open spec fn is_set(self, number: u32) -> bool {
        if number == 1 {
            self.name.len() > 0
        } else if number == 2 {
            self.description.len() > 0
        } else if number == 3 {
            self.unit.len() > 0
        } else if number == 5 {
            self.data is gauge
        } else if number == 7 {
            self.data is sum
        } else if number == 9 {
            self.data is histogram
        } else if number == 10 {
            self.data is exponential_histogram
        } else if number == 11 {
            self.data is summary
        } else {
            false
        }
    }

    /// A member at its zero value is not written: every field of the message belongs
    /// to a member that differs from its zero value.
    pub proof fn lemma_zero_members_omitted(self)
        ensures
            all_fields(self.fields(), |f: Field| self.is_set(f.number)),
    {
        let v = self;
        let set = |f: Field| self.is_set(f.number);
        let f1 = run_member(1, encode_utf8(v.name));
        let f2 = run_member(2, encode_utf8(v.description));
        let f3 = run_member(3, encode_utf8(v.unit));
        let f4 = v.data.fields();
        assert(all_fields(f1, set)) by {
            if v.name.len() == 0 {
                assert(encode_utf8(v.name) =~= Seq::<u8>::empty());
            }
        }
        assert(all_fields(f2, set)) by {
            if v.description.len() == 0 {
                assert(encode_utf8(v.description) =~= Seq::<u8>::empty());
            }
        }
        assert(all_fields(f3, set)) by {
            if v.unit.len() == 0 {
                assert(encode_utf8(v.unit) =~= Seq::<u8>::empty());
            }
        }
        assert(all_fields(f4, set)) by {
        }
        lemma_all_fields_concat(f1, f2, set);
        lemma_all_fields_concat(f1 + f2, f3, set);
        lemma_all_fields_concat(f1 + f2 + f3, f4, set);
    }

    /// The message with every member at its zero value is written as no byte at all.
    pub proof fn lemma_default_wire()
        ensures
            Self::default().fields() == Seq::<Field>::empty(),
            Self::default().wire() == Seq::<u8>::empty(),
    {
        let v = Self::default();
        assert(run_member(1, encode_utf8(v.name)) =~= Seq::<Field>::empty());
        assert(run_member(2, encode_utf8(v.description)) =~= Seq::<Field>::empty());
        assert(run_member(3, encode_utf8(v.unit)) =~= Seq::<Field>::empty());
        assert(v.data.fields() =~= Seq::<Field>::empty());
        assert(v.fields() =~= Seq::<Field>::empty());
        reveal(MetricView::wire);
    }
}

impl ScopeMetricsView {
    /// The field numbers of the members.
    pub open spec fn has_number(number: u32) -> bool {
        number == 1 || number == 2 || number == 3
    }

    /// The message with its first `k` members as they are in `self`, and the others at
    /// their zero value.
    spec fn first_members(self, k: nat) -> Self {
        Self {
            scope: if k > 0 { self.scope } else { None },
            metrics: if k > 1 { self.metrics } else { Seq::empty() },
            schema_url: if k > 2 { self.schema_url } else { Seq::empty() },
        }
    }

    proof fn lemma_member_scope(self)
        requires
            fields_bytes(InstrumentationScopeView::optional(1, self.scope)).len() <= u64::MAX,
        ensures
            fold_fields(
                Self::merge_fn(),
                self.first_members(0),
                InstrumentationScopeView::optional(1, self.scope),
            ) == Some(self.first_members(1)),
    {
        let v = self;
        let merge = Self::merge_fn();
        let f1 = InstrumentationScopeView::optional(1, v.scope);
        let a0 = v.first_members(0);
        match v.scope {
            Some(x) => {
                let f = Field { number: 1, payload: Payload::Run(x.wire()) };
                assert(f1 =~= seq![f]);
                lemma_run_shorter(f1, 0);
                x.lemma_round_trip();
                lemma_fold_one(merge, a0, f);
            },
            None => {},
        }
    }

    proof fn lemma_member_metrics(self)
        requires
            fields_bytes(MetricView::repeated(2, self.metrics)).len() <= u64::MAX,
        ensures
            fold_fields(
                Self::merge_fn(),
                self.first_members(1),
                MetricView::repeated(2, self.metrics),
            ) == Some(self.first_members(2)),
    {
        let v = self;
        let merge = Self::merge_fn();
        let f2 = MetricView::repeated(2, v.metrics);
        let a1 = v.first_members(1);
        let a2 = v.first_members(2);
        let states = |i: int| Self { metrics: v.metrics.take(i), ..v.first_members(1) };
        assert forall|i: int| 0 <= i < f2.len() implies merge(states(i), #[trigger] f2[i]) == Some(
            states(i + 1),
        ) by {
            lemma_run_shorter(f2, i);
            v.metrics[i].lemma_round_trip();
            assert(v.metrics.take(i).push(v.metrics[i]) =~= v.metrics.take(i + 1));
        }
        lemma_fold_chain(merge, f2, states);
        assert(v.metrics.take(0) =~= Seq::<MetricView>::empty());
        assert(v.metrics.take(v.metrics.len() as int) =~= v.metrics);
        assert(states(0) == a1);
        assert(states(f2.len() as int) == a2);
    }

    proof fn lemma_member_schema_url(self)
        ensures
            fold_fields(
                Self::merge_fn(),
                self.first_members(2),
                run_member(3, encode_utf8(self.schema_url)),
            ) == Some(self.first_members(3)),
    {
        let v = self;
        let merge = Self::merge_fn();
        let f3 = run_member(3, encode_utf8(v.schema_url));
        let a2 = v.first_members(2);
        encode_utf8_valid_utf8(v.schema_url);
        encode_utf8_decode_utf8(v.schema_url);
        let f = Field { number: 3, payload: Payload::Run(encode_utf8(v.schema_url)) };
        lemma_fold_one(merge, a2, f);
        if f3.len() == 0 {
            assert(v.schema_url =~= Seq::<char>::empty());
        }
        assert(run_member(3, encode_utf8(v.schema_url)).len() <= 1);
    }

    /// Merging the fields that the message is written as, into the message with every
    /// member at its zero value, gives the message.
    pub proof fn lemma_fold_fields(self)
        requires
            self.wire().len() <= u64::MAX,
        ensures
            fold_fields(Self::merge_fn(), Self::default(), self.fields()) == Some(self),
    {
        let v = self;
        let merge = Self::merge_fn();
        let f1 = InstrumentationScopeView::optional(1, v.scope);
        let f2 = MetricView::repeated(2, v.metrics);
        let f3 = run_member(3, encode_utf8(v.schema_url));
        let a0 = v.first_members(0);
        assert(a0 == Self::default());
        reveal(ScopeMetricsView::wire);
        lemma_fields_bytes_concat(f1, f2);
        lemma_fields_bytes_concat(f1 + f2, f3);
        v.lemma_member_scope();
        v.lemma_member_metrics();
        lemma_fold_concat(merge, a0, f1, f2);
        v.lemma_member_schema_url();
        lemma_fold_concat(merge, a0, f1 + f2, f3);
        assert(v.first_members(3) == v);
    }

    /// Decoding what was written gives the message back, and so writing what was
    /// decoded from such bytes gives the bytes back. The length of the body must fit in
    /// 64 bits, as that of every message in memory does.
    pub proof fn lemma_round_trip(self)
        requires
            self.wire().len() <= u64::MAX,
        ensures
            Self::decode(self.wire()) == Some(self),
            Self::decode(self.wire()) matches Some(back) && back.wire() == self.wire(),
    {
        reveal(ScopeMetricsView::wire);
        reveal(ScopeMetricsView::decode);
        lemma_well_formed_by_len(self.fields());
        self.lemma_fold_fields();
        lemma_decode_fields(Self::merge_fn(), Self::default(), self.fields());
    }

    /// Decoding the framed message gives the message back, whatever follows it.
    pub proof fn lemma_framed_round_trip(self, rest: Seq<u8>)
        requires
            self.wire().len() <= u64::MAX,
        ensures
            parse_framed(framed(self.wire()) + rest) == Some(self.wire()),
            Self::decode(self.wire()) == Some(self),
    {
        lemma_frame_round_trip(self.wire(), rest);
        self.lemma_round_trip();
    }

    /// Fields of no member do not count, wherever they stand: the bytes decode to what
    /// the fields of members among them give.
    pub proof fn lemma_passes_over_unknown(b: Seq<u8>)
        ensures
            match parse_fields(b) {
                Some(fs) => Self::decode(b) == fold_fields(
                    Self::merge_fn(),
                    Self::default(),
                    fs.filter(|f: Field| Self::has_number(f.number)),
                ),
                None => Self::decode(b) is None,
            },
    {
        reveal(ScopeMetricsView::decode);
        match parse_fields(b) {
            Some(fs) => {
                lemma_fold_passes_over(
                    Self::merge_fn(),
                    Self::default(),
                    fs,
                    |f: Field| Self::has_number(f.number),
                );
            },
            None => {},
        }
    }

    /// A field of no member, appended to bytes that decode, changes nothing: the bytes
    /// still decode, and to the same message.
    pub proof fn lemma_unknown_field(b: Seq<u8>, f: Field)
        requires
            Self::decode(b) is Some,
            !Self::has_number(f.number),
            well_formed(f),
        ensures
            Self::decode(b + field_bytes(f)) == Self::decode(b),
    {
        reveal(ScopeMetricsView::decode);
        let fs = parse_fields(b)->Some_0;
        let all = b + field_bytes(f);
        lemma_fields_bytes_one(f);
        assert(all_well_formed(seq![f]));
        lemma_fields_round_trip(seq![f]);
        lemma_parse_fields_concat(b, field_bytes(f));
        let merge = Self::merge_fn();
        lemma_fold_concat(merge, Self::default(), fs, seq![f]);
        lemma_fold_one(merge, Self::decode(b)->Some_0, f);
    }

    /// Whether the member that the field number belongs to differs from its zero
    /// value. For a member that holds one of several kinds of value, whether the kind
    /// with this number is the one in force.
    pub open spec fn is_set(self, number: u32) -> bool {
        if number == 1 {
            self.scope is Some
        } else if number == 2 {
            self.metrics.len() > 0
        } else if number == 3 {
            self.schema_url.len() > 0
        } else {
            false
        }
    }

    /// A member at its zero value is not written: every field of the message belongs
    /// to a member that differs from its zero value.
    pub proof fn lemma_zero_members_omitted(self)
        ensures
            all_fields(self.fields(), |f: Field| self.is_set(f.number)),
    {
        let v = self;
        let set = |f: Field| self.is_set(f.number);
        let f1 = InstrumentationScopeView::optional(1, v.scope);
        let f2 = MetricView::repeated(2, v.metrics);
        let f3 = run_member(3, encode_utf8(v.schema_url));
        assert(all_fields(f1, set)) by {
        }
        assert(all_fields(f2, set)) by {
        }
        assert(all_fields(f3, set)) by {
            if v.schema_url.len() == 0 {
                assert(encode_utf8(v.schema_url) =~= Seq::<u8>::empty());
            }
        }
        lemma_all_fields_concat(f1, f2, set);
        lemma_all_fields_concat(f1 + f2, f3, set);
    }

    /// The message with every member at its zero value is written as no byte at all.
    pub proof fn lemma_default_wire()
        ensures
            Self::default().fields() == Seq::<Field>::empty(),
            Self::default().wire() == Seq::<u8>::empty(),
    {
        let v = Self::default();
        assert(InstrumentationScopeView::optional(1, v.scope) =~= Seq::<Field>::empty());
        assert(MetricView::repeated(2, v.metrics) =~= Seq::<Field>::empty());
        assert(run_member(3, encode_utf8(v.schema_url)) =~= Seq::<Field>::empty());
        assert(v.fields() =~= Seq::<Field>::empty());
        reveal(ScopeMetricsView::wire);
    }
}

impl ResourceMetricsView {
    /// The field numbers of the members.
    pub open spec fn has_number(number: u32) -> bool {
        number == 1 || number == 2 || number == 3
    }

    /// The message with its first `k` members as they are in `self`, and the others at
    /// their zero value.
    spec fn first_members(self, k: nat) -> Self {
        Self {
            resource: if k > 0 { self.resource } else { None },
            scope_metrics: if k > 1 { self.scope_metrics } else { Seq::empty() },
            schema_url: if k > 2 { self.schema_url } else { Seq::empty() },
        }
    }

    proof fn lemma_member_resource(self)
        requires
            fields_bytes(ResourceView::optional(1, self.resource)).len() <= u64::MAX,
        ensures
            fold_fields(
                Self::merge_fn(),
                self.first_members(0),
                ResourceView::optional(1, self.resource),
            ) == Some(self.first_members(1)),
    {
        let v = self;
        let merge = Self::merge_fn();
        let f1 = ResourceView::optional(1, v.resource);
        let a0 = v.first_members(0);
        match v.resource {
            Some(x) => {
                let f = Field { number: 1, payload: Payload::Run(x.wire()) };
                assert(f1 =~= seq![f]);
                lemma_run_shorter(f1, 0);
                x.lemma_round_trip();
                lemma_fold_one(merge, a0, f);
            },
            None => {},
        }
    }

    proof fn lemma_member_scope_metrics(self)
        requires
            fields_bytes(ScopeMetricsView::repeated(2, self.scope_metrics)).len() <= u64::MAX,
        ensures
            fold_fields(
                Self::merge_fn(),
                self.first_members(1),
                ScopeMetricsView::repeated(2, self.scope_metrics),
            ) == Some(self.first_members(2)),
    {
        let v = self;
        let merge = Self::merge_fn();
        let f2 = ScopeMetricsView::repeated(2, v.scope_metrics);
        let a1 = v.first_members(1);
        let a2 = v.first_members(2);
        let states = |i: int| Self { scope_metrics: v.scope_metrics.take(i), ..v.first_members(1) };
        assert forall|i: int| 0 <= i < f2.len() implies merge(states(i), #[trigger] f2[i]) == Some(
            states(i + 1),
        ) by {
            lemma_run_shorter(f2, i);
            v.scope_metrics[i].lemma_round_trip();
            assert(
                v.scope_metrics.take(i).push(v.scope_metrics[i]) =~= v.scope_metrics.take(i + 1)
            );
        }
        lemma_fold_chain(merge, f2, states);
        assert(v.scope_metrics.take(0) =~= Seq::<ScopeMetricsView>::empty());
        assert(v.scope_metrics.take(v.scope_metrics.len() as int) =~= v.scope_metrics);
        assert(states(0) == a1);
        assert(states(f2.len() as int) == a2);
    }

    proof fn lemma_member_schema_url(self)
        ensures
            fold_fields(
                Self::merge_fn(),
                self.first_members(2),
                run_member(3, encode_utf8(self.schema_url)),
            ) == Some(self.first_members(3)),
    {
        let v = self;
        let merge = Self::merge_fn();
        let f3 = run_member(3, encode_utf8(v.schema_url));
        let a2 = v.first_members(2);
        encode_utf8_valid_utf8(v.schema_url);
        encode_utf8_decode_utf8(v.schema_url);
        let f = Field { number: 3, payload: Payload::Run(encode_utf8(v.schema_url)) };
        lemma_fold_one(merge, a2, f);
        if f3.len() == 0 {
            assert(v.schema_url =~= Seq::<char>::empty());
        }
        assert(run_member(3, encode_utf8(v.schema_url)).len() <= 1);
    }

    /// Merging the fields that the message is written as, into the message with every
    /// member at its zero value, gives the message.
    pub proof fn lemma_fold_fields(self)
        requires
            self.wire().len() <= u64::MAX,
        ensures
            fold_fields(Self::merge_fn(), Self::default(), self.fields()) == Some(self),
    {
        let v = self;
        let merge = Self::merge_fn();
        let f1 = ResourceView::optional(1, v.resource);
        let f2 = ScopeMetricsView::repeated(2, v.scope_metrics);
        let f3 = run_member(3, encode_utf8(v.schema_url));
        let a0 = v.first_members(0);
        assert(a0 == Self::default());
        reveal(ResourceMetricsView::wire);
        lemma_fields_bytes_concat(f1, f2);
        lemma_fields_bytes_concat(f1 + f2, f3);
        v.lemma_member_resource();
        v.lemma_member_scope_metrics();
        lemma_fold_concat(merge, a0, f1, f2);
        v.lemma_member_schema_url();
        lemma_fold_concat(merge, a0, f1 + f2, f3);
        assert(v.first_members(3) == v);
    }

    /// Decoding what was written gives the message back, and so writing what was
    /// decoded from such bytes gives the bytes back. The length of the body must fit in
    /// 64 bits, as that of every message in memory does.
    pub proof fn lemma_round_trip(self)
        requires
            self.wire().len() <= u64::MAX,
        ensures
            Self::decode(self.wire()) == Some(self),
            Self::decode(self.wire()) matches Some(back) && back.wire() == self.wire(),
    {
        reveal(ResourceMetricsView::wire);
        reveal(ResourceMetricsView::decode);
        lemma_well_formed_by_len(self.fields());
        self.lemma_fold_fields();
        lemma_decode_fields(Self::merge_fn(), Self::default(), self.fields());
    }

    /// Decoding the framed message gives the message back, whatever follows it.
    pub proof fn lemma_framed_round_trip(self, rest: Seq<u8>)
        requires
            self.wire().len() <= u64::MAX,
        ensures
            parse_framed(framed(self.wire()) + rest) == Some(self.wire()),
            Self::decode(self.wire()) == Some(self),
    {
        lemma_frame_round_trip(self.wire(), rest);
        self.lemma_round_trip();
    }

    /// Fields of no member do not count, wherever they stand: the bytes decode to what
    /// the fields of members among them give.
    pub proof fn lemma_passes_over_unknown(b: Seq<u8>)
        ensures
            match parse_fields(b) {
                Some(fs) => Self::decode(b) == fold_fields(
                    Self::merge_fn(),
                    Self::default(),
                    fs.filter(|f: Field| Self::has_number(f.number)),
                ),
                None => Self::decode(b) is None,
            },
    {
        reveal(ResourceMetricsView::decode);
        match parse_fields(b) {
            Some(fs) => {
                lemma_fold_passes_over(
                    Self::merge_fn(),
                    Self::default(),
                    fs,
                    |f: Field| Self::has_number(f.number),
                );
            },
            None => {},
        }
    }

    /// A field of no member, appended to bytes that decode, changes nothing: the bytes
    /// still decode, and to the same message.
    pub proof fn lemma_unknown_field(b: Seq<u8>, f: Field)
        requires
            Self::decode(b) is Some,
            !Self::has_number(f.number),
            well_formed(f),
        ensures
            Self::decode(b + field_bytes(f)) == Self::decode(b),
    {
        reveal(ResourceMetricsView::decode);
        let fs = parse_fields(b)->Some_0;
        let all = b + field_bytes(f);
        lemma_fields_bytes_one(f);
        assert(all_well_formed(seq![f]));
        lemma_fields_round_trip(seq![f]);
        lemma_parse_fields_concat(b, field_bytes(f));
        let merge = Self::merge_fn();
        lemma_fold_concat(merge, Self::default(), fs, seq![f]);
        lemma_fold_one(merge, Self::decode(b)->Some_0, f);
    }

    /// Whether the member that the field number belongs to differs from its zero
    /// value. For a member that holds one of several kinds of value, whether the kind
    /// with this number is the one in force.
    pub open spec fn is_set(self, number: u32) -> bool {
        if number == 1 {
            self.resource is Some
        } else if number == 2 {
            self.scope_metrics.len() > 0
        } else if number == 3 {
            self.schema_url.len() > 0
        } else {
            false
        }
    }

    /// A member at its zero value is not written: every field of the message belongs
    /// to a member that differs from its zero value.
    pub proof fn lemma_zero_members_omitted(self)
        ensures
            all_fields(self.fields(), |f: Field| self.is_set(f.number)),
    {
        let v = self;
        let set = |f: Field| self.is_set(f.number);
        let f1 = ResourceView::optional(1, v.resource);
        let f2 = ScopeMetricsView::repeated(2, v.scope_metrics);
        let f3 = run_member(3, encode_utf8(v.schema_url));
        assert(all_fields(f1, set)) by {
        }
        assert(all_fields(f2, set)) by {
        }
        assert(all_fields(f3, set)) by {
            if v.schema_url.len() == 0 {
                assert(encode_utf8(v.schema_url) =~= Seq::<u8>::empty());
            }
        }
        lemma_all_fields_concat(f1, f2, set);
        lemma_all_fields_concat(f1 + f2, f3, set);
    }

    /// The message with every member at its zero value is written as no byte at all.
    pub proof fn lemma_default_wire()
        ensures
            Self::default().fields() == Seq::<Field>::empty(),
            Self::default().wire() == Seq::<u8>::empty(),
    {
        let v = Self::default();
        assert(ResourceView::optional(1, v.resource) =~= Seq::<Field>::empty());
        assert(ScopeMetricsView::repeated(2, v.scope_metrics) =~= Seq::<Field>::empty());
        assert(run_member(3, encode_utf8(v.schema_url)) =~= Seq::<Field>::empty());
        assert(v.fields() =~= Seq::<Field>::empty());
        reveal(ResourceMetricsView::wire);
    }
}

impl ExportMetricsServiceRequestView {
    /// The field numbers of the members.
    pub open spec fn has_number(number: u32) -> bool {
        number == 1
    }

    /// The message with its first `k` members as they are in `self`, and the others at
    /// their zero value.
    spec fn first_members(self, k: nat) -> Self {
        Self {
            resource_metrics: if k > 0 { self.resource_metrics } else { Seq::empty() },
        }
    }

    proof fn lemma_member_resource_metrics(self)
        requires
            fields_bytes(ResourceMetricsView::repeated(1, self.resource_metrics)).len() <= u64::MAX,
        ensures
            fold_fields(
                Self::merge_fn(),
                self.first_members(0),
                ResourceMetricsView::repeated(1, self.resource_metrics),
            ) == Some(self.first_members(1)),
    {
        let v = self;
        let merge = Self::merge_fn();
        let f1 = ResourceMetricsView::repeated(1, v.resource_metrics);
        let a0 = v.first_members(0);
        let a1 = v.first_members(1);
        let states = |i: int| Self { resource_metrics: v.resource_metrics.take(i) };
        assert forall|i: int| 0 <= i < f1.len() implies merge(states(i), #[trigger] f1[i]) == Some(
            states(i + 1),
        ) by {
            lemma_run_shorter(f1, i);
            v.resource_metrics[i].lemma_round_trip();
            assert(
                v.resource_metrics.take(i).push(v.resource_metrics[i]) =~= v.resource_metrics.take(
                    i + 1,
                )
            );
        }
        lemma_fold_chain(merge, f1, states);
        assert(v.resource_metrics.take(0) =~= Seq::<ResourceMetricsView>::empty());
        assert(v.resource_metrics.take(v.resource_metrics.len() as int) =~= v.resource_metrics);
        assert(states(0) == a0);
        assert(states(f1.len() as int) == a1);
    }

    /// Merging the fields that the message is written as, into the message with every
    /// member at its zero value, gives the message.
    pub proof fn lemma_fold_fields(self)
        requires
            self.wire().len() <= u64::MAX,
        ensures
            fold_fields(Self::merge_fn(), Self::default(), self.fields()) == Some(self),
    {
        let v = self;
        let merge = Self::merge_fn();
        let f1 = ResourceMetricsView::repeated(1, v.resource_metrics);
        let a0 = v.first_members(0);
        assert(a0 == Self::default());
        reveal(ExportMetricsServiceRequestView::wire);
        v.lemma_member_resource_metrics();
        assert(v.first_members(1) == v);
    }

    /// Decoding what was written gives the message back, and so writing what was
    /// decoded from such bytes gives the bytes back. The length of the body must fit in
    /// 64 bits, as that of every message in memory does.
    pub proof fn lemma_round_trip(self)
        requires
            self.wire().len() <= u64::MAX,
        ensures
            Self::decode(self.wire()) == Some(self),
            Self::decode(self.wire()) matches Some(back) && back.wire() == self.wire(),
    {
        reveal(ExportMetricsServiceRequestView::wire);
        reveal(ExportMetricsServiceRequestView::decode);
        lemma_well_formed_by_len(self.fields());
        self.lemma_fold_fields();
        lemma_decode_fields(Self::merge_fn(), Self::default(), self.fields());
    }

    /// Decoding the framed message gives the message back, whatever follows it.
    pub proof fn lemma_framed_round_trip(self, rest: Seq<u8>)
        requires
            self.wire().len() <= u64::MAX,
        ensures
            parse_framed(framed(self.wire()) + rest) == Some(self.wire()),
            Self::decode(self.wire()) == Some(self),
    {
        lemma_frame_round_trip(self.wire(), rest);
        self.lemma_round_trip();
    }

    /// Fields of no member do not count, wherever they stand: the bytes decode to what
    /// the fields of members among them give.
    pub proof fn lemma_passes_over_unknown(b: Seq<u8>)
        ensures
            match parse_fields(b) {
                Some(fs) => Self::decode(b) == fold_fields(
                    Self::merge_fn(),
                    Self::default(),
                    fs.filter(|f: Field| Self::has_number(f.number)),
                ),
                None => Self::decode(b) is None,
            },
    {
        reveal(ExportMetricsServiceRequestView::decode);
        match parse_fields(b) {
            Some(fs) => {
                lemma_fold_passes_over(
                    Self::merge_fn(),
                    Self::default(),
                    fs,
                    |f: Field| Self::has_number(f.number),
                );
            },
            None => {},
        }
    }

    /// A field of no member, appended to bytes that decode, changes nothing: the bytes
    /// still decode, and to the same message.
    pub proof fn lemma_unknown_field(b: Seq<u8>, f: Field)
        requires
            Self::decode(b) is Some,
            !Self::has_number(f.number),
            well_formed(f),
        ensures
            Self::decode(b + field_bytes(f)) == Self::decode(b),
    {
        reveal(ExportMetricsServiceRequestView::decode);
        let fs = parse_fields(b)->Some_0;
        let all = b + field_bytes(f);
        lemma_fields_bytes_one(f);
        assert(all_well_formed(seq![f]));
        lemma_fields_round_trip(seq![f]);
        lemma_parse_fields_concat(b, field_bytes(f));
        let merge = Self::merge_fn();
        lemma_fold_concat(merge, Self::default(), fs, seq![f]);
        lemma_fold_one(merge, Self::decode(b)->Some_0, f);
    }

    /// Whether the member that the field number belongs to differs from its zero
    /// value. For a member that holds one of several kinds of value, whether the kind
    /// with this number is the one in force.
    pub open spec fn is_set(self, number: u32) -> bool {
        if number == 1 {
            self.resource_metrics.len() > 0
        } else {
            false
        }
    }

    /// A member at its zero value is not written: every field of the message belongs
    /// to a member that differs from its zero value.
    pub proof fn lemma_zero_members_omitted(self)
        ensures
            all_fields(self.fields(), |f: Field| self.is_set(f.number)),
    {
        let v = self;
        let set = |f: Field| self.is_set(f.number);
        let f1 = ResourceMetricsView::repeated(1, v.resource_metrics);
        assert(all_fields(f1, set)) by {
        }
    }

    /// The message with every member at its zero value is written as no byte at all.
    pub proof fn lemma_default_wire()
        ensures
            Self::default().fields() == Seq::<Field>::empty(),
            Self::default().wire() == Seq::<u8>::empty(),
    {
        let v = Self::default();
        assert(ResourceMetricsView::repeated(1, v.resource_metrics) =~= Seq::<Field>::empty());
        assert(v.fields() =~= Seq::<Field>::empty());
        reveal(ExportMetricsServiceRequestView::wire);
    }
}

} // verus!
