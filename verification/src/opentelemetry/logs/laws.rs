//! What holds of the wire format of the logs family: a message that was written
//! reads back as itself, a message at its zero value takes no bytes, and a field of
//! no member does no harm.

use crate::field::{
    Field, Payload, all_fields, all_well_formed, field_bytes, fields_bytes, fold_fields,
    lemma_all_fields_concat, lemma_decode_fields, lemma_fields_bytes_concat, lemma_fields_bytes_one,
    lemma_fields_round_trip, lemma_fold_chain, lemma_fold_concat, lemma_fold_one,
    lemma_fold_passes_over, lemma_parse_fields_concat, lemma_run_shorter, lemma_well_formed_by_len,
    parse_fields, well_formed,
};
use crate::member::{
    fixed32_member, fixed64_member, framed, lemma_frame_round_trip, parse_framed, run_member,
    varint_member,
};
use crate::opentelemetry::common::types::{
    AnyValueView, InstrumentationScopeView, KeyValueView, ResourceView,
};
use crate::opentelemetry::logs::types::{
    ExportLogsServiceRequestView, LogRecordView, ResourceLogsView, ScopeLogsView, SeverityNumber,
};
use vstd::prelude::*;
use vstd::utf8::{encode_utf8, encode_utf8_decode_utf8, encode_utf8_valid_utf8};

verus! {

impl LogRecordView {
    /// The field numbers of the members.
    pub open spec fn has_number(number: u32) -> bool {
        number == 1
            || number == 11
            || number == 2
            || number == 3
            || number == 5
            || number == 6
            || number == 7
            || number == 8
            || number == 9
            || number == 10
    }

    /// The message with its first `k` members as they are in `self`, and the others at
    /// their zero value.
    spec fn first_members(self, k: nat) -> Self {
        Self {
            time_unix_nano: if k > 0 { self.time_unix_nano } else { 0 },
            observed_time_unix_nano: if k > 1 { self.observed_time_unix_nano } else { 0 },
            severity_number: if k > 2 {
                self.severity_number
            } else {
                SeverityNumber::SEVERITY_NUMBER_UNSPECIFIED
            },
            severity_text: if k > 3 { self.severity_text } else { Seq::empty() },
            body: if k > 4 { self.body } else { None },
            attributes: if k > 5 { self.attributes } else { Seq::empty() },
            dropped_attributes_count: if k > 6 { self.dropped_attributes_count } else { 0 },
            flags: if k > 7 { self.flags } else { 0 },
            trace_id: if k > 8 { self.trace_id } else { Seq::empty() },
            span_id: if k > 9 { self.span_id } else { Seq::empty() },
        }
    }

    proof fn lemma_member_time_unix_nano(self)
        ensures
            fold_fields(
                Self::merge_fn(),
                self.first_members(0),
                fixed64_member(1, self.time_unix_nano),
            ) == Some(self.first_members(1)),
    {
        let v = self;
        let merge = Self::merge_fn();
        let a0 = v.first_members(0);
        let f = Field { number: 1, payload: Payload::Fixed64(v.time_unix_nano) };
        lemma_fold_one(merge, a0, f);
    }

    proof fn lemma_member_observed_time_unix_nano(self)
        ensures
            fold_fields(
                Self::merge_fn(),
                self.first_members(1),
                fixed64_member(11, self.observed_time_unix_nano),
            ) == Some(self.first_members(2)),
    {
        let v = self;
        let merge = Self::merge_fn();
        let a1 = v.first_members(1);
        let f = Field { number: 11, payload: Payload::Fixed64(v.observed_time_unix_nano) };
        lemma_fold_one(merge, a1, f);
    }

    proof fn lemma_member_severity_number(self)
        ensures
            fold_fields(
                Self::merge_fn(),
                self.first_members(2),
                varint_member(2, self.severity_number.spec_number() as u64),
            ) == Some(self.first_members(3)),
    {
        let v = self;
        let merge = Self::merge_fn();
        let a2 = v.first_members(2);
        v.severity_number.lemma_number_round_trip();
        let f = Field {
            number: 2,
            payload: Payload::Varint(v.severity_number.spec_number() as u64),
        };
        lemma_fold_one(merge, a2, f);
    }

    proof fn lemma_member_severity_text(self)
        ensures
            fold_fields(
                Self::merge_fn(),
                self.first_members(3),
                run_member(3, encode_utf8(self.severity_text)),
            ) == Some(self.first_members(4)),
    {
        let v = self;
        let merge = Self::merge_fn();
        let f4 = run_member(3, encode_utf8(v.severity_text));
        let a3 = v.first_members(3);
        encode_utf8_valid_utf8(v.severity_text);
        encode_utf8_decode_utf8(v.severity_text);
        let f = Field { number: 3, payload: Payload::Run(encode_utf8(v.severity_text)) };
        lemma_fold_one(merge, a3, f);
        if f4.len() == 0 {
            assert(v.severity_text =~= Seq::<char>::empty());
        }
        assert(run_member(3, encode_utf8(v.severity_text)).len() <= 1);
    }

    proof fn lemma_member_body(self)
        requires
            fields_bytes(AnyValueView::optional(5, self.body)).len() <= u64::MAX,
        ensures
            fold_fields(
                Self::merge_fn(),
                self.first_members(4),
                AnyValueView::optional(5, self.body),
            ) == Some(self.first_members(5)),
    {
        let v = self;
        let merge = Self::merge_fn();
        let f5 = AnyValueView::optional(5, v.body);
        let a4 = v.first_members(4);
        match v.body {
            Some(x) => {
                let f = Field { number: 5, payload: Payload::Run(x.wire()) };
                assert(f5 =~= seq![f]);
                lemma_run_shorter(f5, 0);
                x.lemma_round_trip();
                lemma_fold_one(merge, a4, f);
            },
            None => {},
        }
    }

    proof fn lemma_member_attributes(self)
        requires
            fields_bytes(KeyValueView::repeated(6, self.attributes)).len() <= u64::MAX,
        ensures
            fold_fields(
                Self::merge_fn(),
                self.first_members(5),
                KeyValueView::repeated(6, self.attributes),
            ) == Some(self.first_members(6)),
    {
        let v = self;
        let merge = Self::merge_fn();
        let f6 = KeyValueView::repeated(6, v.attributes);
        let a5 = v.first_members(5);
        let a6 = v.first_members(6);
        let states = |i: int| Self { attributes: v.attributes.take(i), ..v.first_members(5) };
        assert forall|i: int| 0 <= i < f6.len() implies merge(states(i), #[trigger] f6[i]) == Some(
            states(i + 1),
        ) by {
            lemma_run_shorter(f6, i);
            v.attributes[i].lemma_round_trip();
            assert(v.attributes.take(i).push(v.attributes[i]) =~= v.attributes.take(i + 1));
        }
        lemma_fold_chain(merge, f6, states);
        assert(v.attributes.take(0) =~= Seq::<KeyValueView>::empty());
        assert(v.attributes.take(v.attributes.len() as int) =~= v.attributes);
        assert(states(0) == a5);
        assert(states(f6.len() as int) == a6);
    }

    proof fn lemma_member_dropped_attributes_count(self)
        ensures
            fold_fields(
                Self::merge_fn(),
                self.first_members(6),
                varint_member(7, self.dropped_attributes_count as u64),
            ) == Some(self.first_members(7)),
    {
        let v = self;
        let merge = Self::merge_fn();
        let a6 = v.first_members(6);
        let f = Field { number: 7, payload: Payload::Varint(v.dropped_attributes_count as u64) };
        lemma_fold_one(merge, a6, f);
    }

    proof fn lemma_member_flags(self)
        ensures
            fold_fields(
                Self::merge_fn(),
                self.first_members(7),
                fixed32_member(8, self.flags),
            ) == Some(self.first_members(8)),
    {
        let v = self;
        let merge = Self::merge_fn();
        let a7 = v.first_members(7);
        let f = Field { number: 8, payload: Payload::Fixed32(v.flags) };
        lemma_fold_one(merge, a7, f);
    }

    proof fn lemma_member_trace_id(self)
        ensures
            fold_fields(
                Self::merge_fn(),
                self.first_members(8),
                run_member(9, self.trace_id),
            ) == Some(self.first_members(9)),
    {
        let v = self;
        let merge = Self::merge_fn();
        let f9 = run_member(9, v.trace_id);
        let a8 = v.first_members(8);
        let f = Field { number: 9, payload: Payload::Run(v.trace_id) };
        lemma_fold_one(merge, a8, f);
        if f9.len() == 0 {
            assert(v.trace_id =~= Seq::<u8>::empty());
        }
    }

    proof fn lemma_member_span_id(self)
        ensures
            fold_fields(
                Self::merge_fn(),
                self.first_members(9),
                run_member(10, self.span_id),
            ) == Some(self.first_members(10)),
    {
        let v = self;
        let merge = Self::merge_fn();
        let f10 = run_member(10, v.span_id);
        let a9 = v.first_members(9);
        let f = Field { number: 10, payload: Payload::Run(v.span_id) };
        lemma_fold_one(merge, a9, f);
        if f10.len() == 0 {
            assert(v.span_id =~= Seq::<u8>::empty());
        }
    }

    /// Merging the fields that the message is written as, into the message with every
    /// member at its zero value, gives the message.
    pub proof fn lemma_fold_fields(self)
        requires
            self.wire().len() <= u64::MAX,
        ensures
            fold_fields(Self::merge_fn(), Self::default(), self.fields()) == Some(self),
    {
        let v = self;
        let merge = Self::merge_fn();
        let f1 = fixed64_member(1, v.time_unix_nano);
        let f2 = fixed64_member(11, v.observed_time_unix_nano);
        let f3 = varint_member(2, v.severity_number.spec_number() as u64);
        let f4 = run_member(3, encode_utf8(v.severity_text));
        let f5 = AnyValueView::optional(5, v.body);
        let f6 = KeyValueView::repeated(6, v.attributes);
        let f7 = varint_member(7, v.dropped_attributes_count as u64);
        let f8 = fixed32_member(8, v.flags);
        let f9 = run_member(9, v.trace_id);
        let f10 = run_member(10, v.span_id);
        let a0 = v.first_members(0);
        assert(a0 == Self::default());
        reveal(LogRecordView::wire);
        lemma_fields_bytes_concat(f1, f2);
        lemma_fields_bytes_concat(f1 + f2, f3);
        lemma_fields_bytes_concat(f1 + f2 + f3, f4);
        lemma_fields_bytes_concat(f1 + f2 + f3 + f4, f5);
        lemma_fields_bytes_concat(f1 + f2 + f3 + f4 + f5, f6);
        lemma_fields_bytes_concat(f1 + f2 + f3 + f4 + f5 + f6, f7);
        lemma_fields_bytes_concat(f1 + f2 + f3 + f4 + f5 + f6 + f7, f8);
        lemma_fields_bytes_concat(f1 + f2 + f3 + f4 + f5 + f6 + f7 + f8, f9);
        lemma_fields_bytes_concat(f1 + f2 + f3 + f4 + f5 + f6 + f7 + f8 + f9, f10);
        v.lemma_member_time_unix_nano();
        v.lemma_member_observed_time_unix_nano();
        lemma_fold_concat(merge, a0, f1, f2);
        v.lemma_member_severity_number();
        lemma_fold_concat(merge, a0, f1 + f2, f3);
        v.lemma_member_severity_text();
        lemma_fold_concat(merge, a0, f1 + f2 + f3, f4);
        v.lemma_member_body();
        lemma_fold_concat(merge, a0, f1 + f2 + f3 + f4, f5);
        v.lemma_member_attributes();
        lemma_fold_concat(merge, a0, f1 + f2 + f3 + f4 + f5, f6);
        v.lemma_member_dropped_attributes_count();
        lemma_fold_concat(merge, a0, f1 + f2 + f3 + f4 + f5 + f6, f7);
        v.lemma_member_flags();
        lemma_fold_concat(merge, a0, f1 + f2 + f3 + f4 + f5 + f6 + f7, f8);
        v.lemma_member_trace_id();
        lemma_fold_concat(merge, a0, f1 + f2 + f3 + f4 + f5 + f6 + f7 + f8, f9);
        v.lemma_member_span_id();
        lemma_fold_concat(merge, a0, f1 + f2 + f3 + f4 + f5 + f6 + f7 + f8 + f9, f10);
        assert(v.first_members(10) == v);
    }

    /// Decoding what was written gives the message back, and so writing what was
    /// decoded from such bytes gives the bytes back. The length of the body must fit in
    /// 64 bits, as that of every message in memory does.
    pub proof fn lemma_round_trip(self)
        requires
            self.wire().len() <= u64::MAX,
        ensures
            Self::decode(self.wire()) == Some(self),
            Self::decode(self.wire()) matches Some(back) && back.wire() == self.wire(),
    {
        reveal(LogRecordView::wire);
        reveal(LogRecordView::decode);
        lemma_well_formed_by_len(self.fields());
        self.lemma_fold_fields();
        lemma_decode_fields(Self::merge_fn(), Self::default(), self.fields());
    }

    /// Decoding the framed message gives the message back, whatever follows it.
    pub proof fn lemma_framed_round_trip(self, rest: Seq<u8>)
        requires
            self.wire().len() <= u64::MAX,
        ensures
            parse_framed(framed(self.wire()) + rest) == Some(self.wire()),
            Self::decode(self.wire()) == Some(self),
    {
        lemma_frame_round_trip(self.wire(), rest);
        self.lemma_round_trip();
    }

    /// Fields of no member do not count, wherever they stand: the bytes decode to what
    /// the fields of members among them give.
    pub proof fn lemma_passes_over_unknown(b: Seq<u8>)
        ensures
            match parse_fields(b) {
                Some(fs) => Self::decode(b) == fold_fields(
                    Self::merge_fn(),
                    Self::default(),
                    fs.filter(|f: Field| Self::has_number(f.number)),
                ),
                None => Self::decode(b) is None,
            },
    {
        reveal(LogRecordView::decode);
        match parse_fields(b) {
            Some(fs) => {
                lemma_fold_passes_over(
                    Self::merge_fn(),
                    Self::default(),
                    fs,
                    |f: Field| Self::has_number(f.number),
                );
            },
            None => {},
        }
    }

    /// A field of no member, appended to bytes that decode, changes nothing: the bytes
    /// still decode, and to the same message.
    pub proof fn lemma_unknown_field(b: Seq<u8>, f: Field)
        requires
            Self::decode(b) is Some,
            !Self::has_number(f.number),
            well_formed(f),
        ensures
            Self::decode(b + field_bytes(f)) == Self::decode(b),
    {
        reveal(LogRecordView::decode);
        let fs = parse_fields(b)->Some_0;
        let all = b + field_bytes(f);
        lemma_fields_bytes_one(f);
        assert(all_well_formed(seq![f]));
        lemma_fields_round_trip(seq![f]);
        lemma_parse_fields_concat(b, field_bytes(f));
        let merge = Self::merge_fn();
        lemma_fold_concat(merge, Self::default(), fs, seq![f]);
        lemma_fold_one(merge, Self::decode(b)->Some_0, f);
    }

    /// Whether the member that the field number belongs to differs from its zero
    /// value. For a member that holds one of several kinds of value, whether the kind
    /// with this number is the one in force.
    pub open spec fn is_set(self, number: u32) -> bool {
        if number == 1 {
            self.time_unix_nano != 0
        } else if number == 11 {
            self.observed_time_unix_nano != 0
        } else if number == 2 {
            self.severity_number != SeverityNumber::SEVERITY_NUMBER_UNSPECIFIED
        } else if number == 3 {
            self.severity_text.len() > 0
        } else if number == 5 {
            self.body is Some
        } else if number == 6 {
            self.attributes.len() > 0
        } else if number == 7 {
            self.dropped_attributes_count != 0
        } else if number == 8 {
            self.flags != 0
        } else if number == 9 {
            self.trace_id.len() > 0
        } else if number == 10 {
            self.span_id.len() > 0
        } else {
            false
        }
    }

    /// A member at its zero value is not written: every field of the message belongs
    /// to a member that differs from its zero value.
    pub proof fn lemma_zero_members_omitted(self)
        ensures
            all_fields(self.fields(), |f: Field| self.is_set(f.number)),
    {
        let v = self;
        let set = |f: Field| self.is_set(f.number);
        let f1 = fixed64_member(1, v.time_unix_nano);
        let f2 = fixed64_member(11, v.observed_time_unix_nano);
        let f3 = varint_member(2, v.severity_number.spec_number() as u64);
        let f4 = run_member(3, encode_utf8(v.severity_text));
        let f5 = AnyValueView::optional(5, v.body);
        let f6 = KeyValueView::repeated(6, v.attributes);
        let f7 = varint_member(7, v.dropped_attributes_count as u64);
        let f8 = fixed32_member(8, v.flags);
        let f9 = run_member(9, v.trace_id);
        let f10 = run_member(10, v.span_id);
        assert(all_fields(f1, set)) by {
        }
        assert(all_fields(f2, set)) by {
        }
        assert(all_fields(f3, set)) by {
            v.severity_number.lemma_number_round_trip();
        }
        assert(all_fields(f4, set)) by {
            if v.severity_text.len() == 0 {
                assert(encode_utf8(v.severity_text) =~= Seq::<u8>::empty());
            }
        }
        assert(all_fields(f5, set)) by {
        }
        assert(all_fields(f6, set)) by {
        }
        assert(all_fields(f7, set)) by {
        }
        assert(all_fields(f8, set)) by {
        }
        assert(all_fields(f9, set)) by {
        }
        assert(all_fields(f10, set)) by {
        }
        lemma_all_fields_concat(f1, f2, set);
        lemma_all_fields_concat(f1 + f2, f3, set);
        lemma_all_fields_concat(f1 + f2 + f3, f4, set);
        lemma_all_fields_concat(f1 + f2 + f3 + f4, f5, set);
        lemma_all_fields_concat(f1 + f2 + f3 + f4 + f5, f6, set);
        lemma_all_fields_concat(f1 + f2 + f3 + f4 + f5 + f6, f7, set);
        lemma_all_fields_concat(f1 + f2 + f3 + f4 + f5 + f6 + f7, f8, set);
        lemma_all_fields_concat(f1 + f2 + f3 + f4 + f5 + f6 + f7 + f8, f9, set);
        lemma_all_fields_concat(f1 + f2 + f3 + f4 + f5 + f6 + f7 + f8 + f9, f10, set);
    }

    /// The message with every member at its zero value is written as no byte at all.
    pub proof fn lemma_default_wire()
        ensures
            Self::default().fields() == Seq::<Field>::empty(),
            Self::default().wire() == Seq::<u8>::empty(),
    {
        let v = Self::default();
        assert(fixed64_member(1, v.time_unix_nano) =~= Seq::<Field>::empty());
        assert(fixed64_member(11, v.observed_time_unix_nano) =~= Seq::<Field>::empty());
        assert(varint_member(2, v.severity_number.spec_number() as u64) =~= Seq::<Field>::empty());
        assert(run_member(3, encode_utf8(v.severity_text)) =~= Seq::<Field>::empty());
        assert(AnyValueView::optional(5, v.body) =~= Seq::<Field>::empty());
        assert(KeyValueView::repeated(6, v.attributes) =~= Seq::<Field>::empty());
        assert(varint_member(7, v.dropped_attributes_count as u64) =~= Seq::<Field>::empty());
        assert(fixed32_member(8, v.flags) =~= Seq::<Field>::empty());
        assert(run_member(9, v.trace_id) =~= Seq::<Field>::empty());
        assert(run_member(10, v.span_id) =~= Seq::<Field>::empty());
        assert(v.fields() =~= Seq::<Field>::empty());
        reveal(LogRecordView::wire);
    }
}

impl ScopeLogsView {
    /// The field numbers of the members.
    pub open spec fn has_number(number: u32) -> bool {
        number == 1 || number == 2 || number == 3
    }

    /// The message with its first `k` members as they are in `self`, and the others at
    /// their zero value.
    spec fn first_members(self, k: nat) -> Self {
        Self {
            scope: if k > 0 { self.scope } else { None },
            log_records: if k > 1 { self.log_records } else { Seq::empty() },
            schema_url: if k > 2 { self.schema_url } else { Seq::empty() },
        }
    }

    proof fn lemma_member_scope(self)
        requires
            fields_bytes(InstrumentationScopeView::optional(1, self.scope)).len() <= u64::MAX,
        ensures
            fold_fields(
                Self::merge_fn(),
                self.first_members(0),
                InstrumentationScopeView::optional(1, self.scope),
            ) == Some(self.first_members(1)),
    {
        let v = self;
        let merge = Self::merge_fn();
        let f1 = InstrumentationScopeView::optional(1, v.scope);
        let a0 = v.first_members(0);
        match v.scope {
            Some(x) => {
                let f = Field { number: 1, payload: Payload::Run(x.wire()) };
                assert(f1 =~= seq![f]);
                lemma_run_shorter(f1, 0);
                x.lemma_round_trip();
                lemma_fold_one(merge, a0, f);
            },
            None => {},
        }
    }

    proof fn lemma_member_log_records(self)
        requires
            fields_bytes(LogRecordView::repeated(2, self.log_records)).len() <= u64::MAX,
        ensures
            fold_fields(
                Self::merge_fn(),
                self.first_members(1),
                LogRecordView::repeated(2, self.log_records),
            ) == Some(self.first_members(2)),
    {
        let v = self;
        let merge = Self::merge_fn();
        let f2 = LogRecordView::repeated(2, v.log_records);
        let a1 = v.first_members(1);
        let a2 = v.first_members(2);
        let states = |i: int| Self { log_records: v.log_records.take(i), ..v.first_members(1) };
        assert forall|i: int| 0 <= i < f2.len() implies merge(states(i), #[trigger] f2[i]) == Some(
            states(i + 1),
        ) by {
            lemma_run_shorter(f2, i);
            v.log_records[i].lemma_round_trip();
            assert(v.log_records.take(i).push(v.log_records[i]) =~= v.log_records.take(i + 1));
        }
        lemma_fold_chain(merge, f2, states);
        assert(v.log_records.take(0) =~= Seq::<LogRecordView>::empty());
        assert(v.log_records.take(v.log_records.len() as int) =~= v.log_records);
        assert(states(0) == a1);
        assert(states(f2.len() as int) == a2);
    }

    proof fn lemma_member_schema_url(self)
        ensures
            fold_fields(
                Self::merge_fn(),
                self.first_members(2),
                run_member(3, encode_utf8(self.schema_url)),
            ) == Some(self.first_members(3)),
    {
        let v = self;
        let merge = Self::merge_fn();
        let f3 = run_member(3, encode_utf8(v.schema_url));
        let a2 = v.first_members(2);
        encode_utf8_valid_utf8(v.schema_url);
        encode_utf8_decode_utf8(v.schema_url);
        let f = Field { number: 3, payload: Payload::Run(encode_utf8(v.schema_url)) };
        lemma_fold_one(merge, a2, f);
        if f3.len() == 0 {
            assert(v.schema_url =~= Seq::<char>::empty());
        }
        assert(run_member(3, encode_utf8(v.schema_url)).len() <= 1);
    }

    /// Merging the fields that the message is written as, into the message with every
    /// member at its zero value, gives the message.
    pub proof fn lemma_fold_fields(self)
        requires
            self.wire().len() <= u64::MAX,
        ensures
            fold_fields(Self::merge_fn(), Self::default(), self.fields()) == Some(self),
    {
        let v = self;
        let merge = Self::merge_fn();
        let f1 = InstrumentationScopeView::optional(1, v.scope);
        let f2 = LogRecordView::repeated(2, v.log_records);
        let f3 = run_member(3, encode_utf8(v.schema_url));
        let a0 = v.first_members(0);
        assert(a0 == Self::default());
        reveal(ScopeLogsView::wire);
        lemma_fields_bytes_concat(f1, f2);
        lemma_fields_bytes_concat(f1 + f2, f3);
        v.lemma_member_scope();
        v.lemma_member_log_records();
        lemma_fold_concat(merge, a0, f1, f2);
        v.lemma_member_schema_url();
        lemma_fold_concat(merge, a0, f1 + f2, f3);
        assert(v.first_members(3) == v);
    }

    /// Decoding what was written gives the message back, and so writing what was
    /// decoded from such bytes gives the bytes back. The length of the body must fit in
    /// 64 bits, as that of every message in memory does.
    pub proof fn lemma_round_trip(self)
        requires
            self.wire().len() <= u64::MAX,
        ensures
            Self::decode(self.wire()) == Some(self),
            Self::decode(self.wire()) matches Some(back) && back.wire() == self.wire(),
    {
        reveal(ScopeLogsView::wire);
        reveal(ScopeLogsView::decode);
        lemma_well_formed_by_len(self.fields());
        self.lemma_fold_fields();
        lemma_decode_fields(Self::merge_fn(), Self::default(), self.fields());
    }

    /// Decoding the framed message gives the message back, whatever follows it.
    pub proof fn lemma_framed_round_trip(self, rest: Seq<u8>)
        requires
            self.wire().len() <= u64::MAX,
        ensures
            parse_framed(framed(self.wire()) + rest) == Some(self.wire()),
            Self::decode(self.wire()) == Some(self),
    {
        lemma_frame_round_trip(self.wire(), rest);
        self.lemma_round_trip();
    }

    /// Fields of no member do not count, wherever they stand: the bytes decode to what
    /// the fields of members among them give.
    pub proof fn lemma_passes_over_unknown(b: Seq<u8>)
        ensures
            match parse_fields(b) {
                Some(fs) => Self::decode(b) == fold_fields(
                    Self::merge_fn(),
                    Self::default(),
                    fs.filter(|f: Field| Self::has_number(f.number)),
                ),
                None => Self::decode(b) is None,
            },
    {
        reveal(ScopeLogsView::decode);
        match parse_fields(b) {
            Some(fs) => {
                lemma_fold_passes_over(
                    Self::merge_fn(),
                    Self::default(),
                    fs,
                    |f: Field| Self::has_number(f.number),
                );
            },
            None => {},
        }
    }

    /// A field of no member, appended to bytes that decode, changes nothing: the bytes
    /// still decode, and to the same message.
    pub proof fn lemma_unknown_field(b: Seq<u8>, f: Field)
        requires
            Self::decode(b) is Some,
            !Self::has_number(f.number),
            well_formed(f),
        ensures
            Self::decode(b + field_bytes(f)) == Self::decode(b),
    {
        reveal(ScopeLogsView::decode);
        let fs = parse_fields(b)->Some_0;
        let all = b + field_bytes(f);
        lemma_fields_bytes_one(f);
        assert(all_well_formed(seq![f]));
        lemma_fields_round_trip(seq![f]);
        lemma_parse_fields_concat(b, field_bytes(f));
        let merge = Self::merge_fn();
        lemma_fold_concat(merge, Self::default(), fs, seq![f]);
        lemma_fold_one(merge, Self::decode(b)->Some_0, f);
    }

    /// Whether the member that the field number belongs to differs from its zero
    /// value. For a member that holds one of several kinds of value, whether the kind
    /// with this number is the one in force.
    pub open spec fn is_set(self, number: u32) -> bool {
        if number == 1 {
            self.scope is Some
        } else if number == 2 {
            self.log_records.len() > 0
        } else if number == 3 {
            self.schema_url.len() > 0
        } else {
            false
        }
    }

    /// A member at its zero value is not written: every field of the message belongs
    /// to a member that differs from its zero value.
    pub proof fn lemma_zero_members_omitted(self)
        ensures
            all_fields(self.fields(), |f: Field| self.is_set(f.number)),
    {
        let v = self;
        let set = |f: Field| self.is_set(f.number);
        let f1 = InstrumentationScopeView::optional(1, v.scope);
        let f2 = LogRecordView::repeated(2, v.log_records);
        let f3 = run_member(3, encode_utf8(v.schema_url));
        assert(all_fields(f1, set)) by {
        }
        assert(all_fields(f2, set)) by {
        }
        assert(all_fields(f3, set)) by {
            if v.schema_url.len() == 0 {
                assert(encode_utf8(v.schema_url) =~= Seq::<u8>::empty());
            }
        }
        lemma_all_fields_concat(f1, f2, set);
        lemma_all_fields_concat(f1 + f2, f3, set);
    }

    /// The message with every member at its zero value is written as no byte at all.
    pub proof fn lemma_default_wire()
        ensures
            Self::default().fields() == Seq::<Field>::empty(),
            Self::default().wire() == Seq::<u8>::empty(),
    {
        let v = Self::default();
        assert(InstrumentationScopeView::optional(1, v.scope) =~= Seq::<Field>::empty());
        assert(LogRecordView::repeated(2, v.log_records) =~= Seq::<Field>::empty());
        assert(run_member(3, encode_utf8(v.schema_url)) =~= Seq::<Field>::empty());
        assert(v.fields() =~= Seq::<Field>::empty());
        reveal(ScopeLogsView::wire);
    }
}

impl ResourceLogsView {
    /// The field numbers of the members.
    pub open spec fn has_number(number: u32) -> bool {
        number == 1 || number == 2 || number == 3
    }

    /// The message with its first `k` members as they are in `self`, and the others at
    /// their zero value.
    spec fn first_members(self, k: nat) -> Self {
        Self {
            resource: if k > 0 { self.resource } else { None },
            scope_logs: if k > 1 { self.scope_logs } else { Seq::empty() },
            schema_url: if k > 2 { self.schema_url } else { Seq::empty() },
        }
    }

    proof fn lemma_member_resource(self)
        requires
            fields_bytes(ResourceView::optional(1, self.resource)).len() <= u64::MAX,
        ensures
            fold_fields(
                Self::merge_fn(),
                self.first_members(0),
                ResourceView::optional(1, self.resource),
            ) == Some(self.first_members(1)),
    {
        let v = self;
        let merge = Self::merge_fn();
        let f1 = ResourceView::optional(1, v.resource);
        let a0 = v.first_members(0);
        match v.resource {
            Some(x) => {
                let f = Field { number: 1, payload: Payload::Run(x.wire()) };
                assert(f1 =~= seq![f]);
                lemma_run_shorter(f1, 0);
                x.lemma_round_trip();
                lemma_fold_one(merge, a0, f);
            },
            None => {},
        }
    }

    proof fn lemma_member_scope_logs(self)
        requires
            fields_bytes(ScopeLogsView::repeated(2, self.scope_logs)).len() <= u64::MAX,
        ensures
            fold_fields(
                Self::merge_fn(),
                self.first_members(1),
                ScopeLogsView::repeated(2, self.scope_logs),
            ) == Some(self.first_members(2)),
    {
        let v = self;
        let merge = Self::merge_fn();
        let f2 = ScopeLogsView::repeated(2, v.scope_logs);
        let a1 = v.first_members(1);
        let a2 = v.first_members(2);
        let states = |i: int| Self { scope_logs: v.scope_logs.take(i), ..v.first_members(1) };
        assert forall|i: int| 0 <= i < f2.len() implies merge(states(i), #[trigger] f2[i]) == Some(
            states(i + 1),
        ) by {
            lemma_run_shorter(f2, i);
            v.scope_logs[i].lemma_round_trip();
            assert(v.scope_logs.take(i).push(v.scope_logs[i]) =~= v.scope_logs.take(i + 1));
        }
        lemma_fold_chain(merge, f2, states);
        assert(v.scope_logs.take(0) =~= Seq::<ScopeLogsView>::empty());
        assert(v.scope_logs.take(v.scope_logs.len() as int) =~= v.scope_logs);
        assert(states(0) == a1);
        assert(states(f2.len() as int) == a2);
    }

    proof fn lemma_member_schema_url(self)
        ensures
            fold_fields(
                Self::merge_fn(),
                self.first_members(2),
                run_member(3, encode_utf8(self.schema_url)),
            ) == Some(self.first_members(3)),
    {
        let v = self;
        let merge = Self::merge_fn();
        let f3 = run_member(3, encode_utf8(v.schema_url));
        let a2 = v.first_members(2);
        encode_utf8_valid_utf8(v.schema_url);
        encode_utf8_decode_utf8(v.schema_url);
        let f = Field { number: 3, payload: Payload::Run(encode_utf8(v.schema_url)) };
        lemma_fold_one(merge, a2, f);
        if f3.len() == 0 {
            assert(v.schema_url =~= Seq::<char>::empty());
        }
        assert(run_member(3, encode_utf8(v.schema_url)).len() <= 1);
    }

    /// Merging the fields that the message is written as, into the message with every
    /// member at its zero value, gives the message.
    pub proof fn lemma_fold_fields(self)
        requires
            self.wire().len() <= u64::MAX,
        ensures
            fold_fields(Self::merge_fn(), Self::default(), self.fields()) == Some(self),
    {
        let v = self;
        let merge = Self::merge_fn();
        let f1 = ResourceView::optional(1, v.resource);
        let f2 = ScopeLogsView::repeated(2, v.scope_logs);
        let f3 = run_member(3, encode_utf8(v.schema_url));
        let a0 = v.first_members(0);
        assert(a0 == Self::default());
        reveal(ResourceLogsView::wire);
        lemma_fields_bytes_concat(f1, f2);
        lemma_fields_bytes_concat(f1 + f2, f3);
        v.lemma_member_resource();
        v.lemma_member_scope_logs();
        lemma_fold_concat(merge, a0, f1, f2);
        v.lemma_member_schema_url();
        lemma_fold_concat(merge, a0, f1 + f2, f3);
        assert(v.first_members(3) == v);
    }

    /// Decoding what was written gives the message back, and so writing what was
    /// decoded from such bytes gives the bytes back. The length of the body must fit in
    /// 64 bits, as that of every message in memory does.
    pub proof fn lemma_round_trip(self)
        requires
            self.wire().len() <= u64::MAX,
        ensures
            Self::decode(self.wire()) == Some(self),
            Self::decode(self.wire()) matches Some(back) && back.wire() == self.wire(),
    {
        reveal(ResourceLogsView::wire);
        reveal(ResourceLogsView::decode);
        lemma_well_formed_by_len(self.fields());
        self.lemma_fold_fields();
        lemma_decode_fields(Self::merge_fn(), Self::default(), self.fields());
    }

    /// Decoding the framed message gives the message back, whatever follows it.
    pub proof fn lemma_framed_round_trip(self, rest: Seq<u8>)
        requires
            self.wire().len() <= u64::MAX,
        ensures
            parse_framed(framed(self.wire()) + rest) == Some(self.wire()),
            Self::decode(self.wire()) == Some(self),
    {
        lemma_frame_round_trip(self.wire(), rest);
        self.lemma_round_trip();
    }

    /// Fields of no member do not count, wherever they stand: the bytes decode to what
    /// the fields of members among them give.
    pub proof fn lemma_passes_over_unknown(b: Seq<u8>)
        ensures
            match parse_fields(b) {
                Some(fs) => Self::decode(b) == fold_fields(
                    Self::merge_fn(),
                    Self::default(),
                    fs.filter(|f: Field| Self::has_number(f.number)),
                ),
                None => Self::decode(b) is None,
            },
    {
        reveal(ResourceLogsView::decode);
        match parse_fields(b) {
            Some(fs) => {
                lemma_fold_passes_over(
                    Self::merge_fn(),
                    Self::default(),
                    fs,
                    |f: Field| Self::has_number(f.number),
                );
            },
            None => {},
        }
    }

    /// A field of no member, appended to bytes that decode, changes nothing: the bytes
    /// still decode, and to the same message.
    pub proof fn lemma_unknown_field(b: Seq<u8>, f: Field)
        requires
            Self::decode(b) is Some,
            !Self::has_number(f.number),
            well_formed(f),
        ensures
            Self::decode(b + field_bytes(f)) == Self::decode(b),
    {
        reveal(ResourceLogsView::decode);
        let fs = parse_fields(b)->Some_0;
        let all = b + field_bytes(f);
        lemma_fields_bytes_one(f);
        assert(all_well_formed(seq![f]));
        lemma_fields_round_trip(seq![f]);
        lemma_parse_fields_concat(b, field_bytes(f));
        let merge = Self::merge_fn();
        lemma_fold_concat(merge, Self::default(), fs, seq![f]);
        lemma_fold_one(merge, Self::decode(b)->Some_0, f);
    }

    /// Whether the member that the field number belongs to differs from its zero
    /// value. For a member that holds one of several kinds of value, whether the kind
    /// with this number is the one in force.
    pub open spec fn is_set(self, number: u32) -> bool {
        if number == 1 {
            self.resource is Some
        } else if number == 2 {
            self.scope_logs.len() > 0
        } else if number == 3 {
            self.schema_url.len() > 0
        } else {
            false
        }
    }

    /// A member at its zero value is not written: every field of the message belongs
    /// to a member that differs from its zero value.
    pub proof fn lemma_zero_members_omitted(self)
        ensures
            all_fields(self.fields(), |f: Field| self.is_set(f.number)),
    {
        let v = self;
        let set = |f: Field| self.is_set(f.number);
        let f1 = ResourceView::optional(1, v.resource);
        let f2 = ScopeLogsView::repeated(2, v.scope_logs);
        let f3 = run_member(3, encode_utf8(v.schema_url));
        assert(all_fields(f1, set)) by {
        }
        assert(all_fields(f2, set)) by {
        }
        assert(all_fields(f3, set)) by {
            if v.schema_url.len() == 0 {
                assert(encode_utf8(v.schema_url) =~= Seq::<u8>::empty());
            }
        }
        lemma_all_fields_concat(f1, f2, set);
        lemma_all_fields_concat(f1 + f2, f3, set);
    }

    /// The message with every member at its zero value is written as no byte at all.
    pub proof fn lemma_default_wire()
        ensures
            Self::default().fields() == Seq::<Field>::empty(),
            Self::default().wire() == Seq::<u8>::empty(),
    {
        let v = Self::default();
        assert(ResourceView::optional(1, v.resource) =~= Seq::<Field>::empty());
        assert(ScopeLogsView::repeated(2, v.scope_logs) =~= Seq::<Field>::empty());
        assert(run_member(3, encode_utf8(v.schema_url)) =~= Seq::<Field>::empty());
        assert(v.fields() =~= Seq::<Field>::empty());
        reveal(ResourceLogsView::wire);
    }
}

impl ExportLogsServiceRequestView {
    /// The field numbers of the members.
    pub open spec fn has_number(number: u32) -> bool {
        number == 1
    }

    /// The message with its first `k` members as they are in `self`, and the others at
    /// their zero value.
    spec fn first_members(self, k: nat) -> Self {
        Self {
            resource_logs: if k > 0 { self.resource_logs } else { Seq::empty() },
        }
    }

    proof fn lemma_member_resource_logs(self)
        requires
            fields_bytes(ResourceLogsView::repeated(1, self.resource_logs)).len() <= u64::MAX,
        ensures
            fold_fields(
                Self::merge_fn(),
                self.first_members(0),
                ResourceLogsView::repeated(1, self.resource_logs),
            ) == Some(self.first_members(1)),
    {
        let v = self;
        let merge = Self::merge_fn();
        let f1 = ResourceLogsView::repeated(1, v.resource_logs);
        let a0 = v.first_members(0);
        let a1 = v.first_members(1);
        let states = |i: int| Self { resource_logs: v.resource_logs.take(i) };
        assert forall|i: int| 0 <= i < f1.len() implies merge(states(i), #[trigger] f1[i]) == Some(
            states(i + 1),
        ) by {
            lemma_run_shorter(f1, i);
            v.resource_logs[i].lemma_round_trip();
            assert(
                v.resource_logs.take(i).push(v.resource_logs[i]) =~= v.resource_logs.take(i + 1)
            );
        }
        lemma_fold_chain(merge, f1, states);
        assert(v.resource_logs.take(0) =~= Seq::<ResourceLogsView>::empty());
        assert(v.resource_logs.take(v.resource_logs.len() as int) =~= v.resource_logs);
        assert(states(0) == a0);
        assert(states(f1.len() as int) == a1);
    }

    /// Merging the fields that the message is written as, into the message with every
    /// member at its zero value, gives the message.
    pub proof fn lemma_fold_fields(self)
        requires
            self.wire().len() <= u64::MAX,
        ensures
            fold_fields(Self::merge_fn(), Self::default(), self.fields()) == Some(self),
    {
        let v = self;
        let merge = Self::merge_fn();
        let f1 = ResourceLogsView::repeated(1, v.resource_logs);
        let a0 = v.first_members(0);
        assert(a0 == Self::default());
        reveal(ExportLogsServiceRequestView::wire);
        v.lemma_member_resource_logs();
        assert(v.first_members(1) == v);
    }

    /// Decoding what was written gives the message back, and so writing what was
    /// decoded from such bytes gives the bytes back. The length of the body must fit in
    /// 64 bits, as that of every message in memory does.
    pub proof fn lemma_round_trip(self)
        requires
            self.wire().len() <= u64::MAX,
        ensures
            Self::decode(self.wire()) == Some(self),
            Self::decode(self.wire()) matches Some(back) && back.wire() == self.wire(),
    {
        reveal(ExportLogsServiceRequestView::wire);
        reveal(ExportLogsServiceRequestView::decode);
        lemma_well_formed_by_len(self.fields());
        self.lemma_fold_fields();
        lemma_decode_fields(Self::merge_fn(), Self::default(), self.fields());
    }

    /// Decoding the framed message gives the message back, whatever follows it.
    pub proof fn lemma_framed_round_trip(self, rest: Seq<u8>)
        requires
            self.wire().len() <= u64::MAX,
        ensures
            parse_framed(framed(self.wire()) + rest) == Some(self.wire()),
            Self::decode(self.wire()) == Some(self),
    {
        lemma_frame_round_trip(self.wire(), rest);
        self.lemma_round_trip();
    }

    /// Fields of no member do not count, wherever they stand: the bytes decode to what
    /// the fields of members among them give.
    pub proof fn lemma_passes_over_unknown(b: Seq<u8>)
        ensures
            match parse_fields(b) {
                Some(fs) => Self::decode(b) == fold_fields(
                    Self::merge_fn(),
                    Self::default(),
                    fs.filter(|f: Field| Self::has_number(f.number)),
                ),
                None => Self::decode(b) is None,
            },
    {
        reveal(ExportLogsServiceRequestView::decode);
        match parse_fields(b) {
            Some(fs) => {
                lemma_fold_passes_over(
                    Self::merge_fn(),
                    Self::default(),
                    fs,
                    |f: Field| Self::has_number(f.number),
                );
            },
            None => {},
        }
    }

    /// A field of no member, appended to bytes that decode, changes nothing: the bytes
    /// still decode, and to the same message.
    pub proof fn lemma_unknown_field(b: Seq<u8>, f: Field)
        requires
            Self::decode(b) is Some,
            !Self::has_number(f.number),
            well_formed(f),
        ensures
            Self::decode(b + field_bytes(f)) == Self::decode(b),
    {
        reveal(ExportLogsServiceRequestView::decode);
        let fs = parse_fields(b)->Some_0;
        let all = b + field_bytes(f);
        lemma_fields_bytes_one(f);
        assert(all_well_formed(seq![f]));
        lemma_fields_round_trip(seq![f]);
        lemma_parse_fields_concat(b, field_bytes(f));
        let merge = Self::merge_fn();
        lemma_fold_concat(merge, Self::default(), fs, seq![f]);
        lemma_fold_one(merge, Self::decode(b)->Some_0, f);
    }

    /// Whether the member that the field number belongs to differs from its zero
    /// value. For a member that holds one of several kinds of value, whether the kind
    /// with this number is the one in force.
    pub open spec fn is_set(self, number: u32) -> bool {
        if number == 1 {
            self.resource_logs.len() > 0
        } else {
            false
        }
    }

    /// A member at its zero value is not written: every field of the message belongs
    /// to a member that differs from its zero value.
    pub proof fn lemma_zero_members_omitted(self)
        ensures
            all_fields(self.fields(), |f: Field| self.is_set(f.number)),
    {
        let v = self;
        let set = |f: Field| self.is_set(f.number);
        let f1 = ResourceLogsView::repeated(1, v.resource_logs);
        assert(all_fields(f1, set)) by {
        }
    }

    /// The message with every member at its zero value is written as no byte at all.
    pub proof fn lemma_default_wire()
        ensures
            Self::default().fields() == Seq::<Field>::empty(),
            Self::default().wire() == Seq::<u8>::empty(),
    {
        let v = Self::default();
        assert(ResourceLogsView::repeated(1, v.resource_logs) =~= Seq::<Field>::empty());
        assert(v.fields() =~= Seq::<Field>::empty());
        reveal(ExportLogsServiceRequestView::wire);
    }
}

} // verus!
