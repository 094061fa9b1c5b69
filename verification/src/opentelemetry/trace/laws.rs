//! What holds of the wire format of the trace family: a message that was written
//! reads back as itself, a message at its zero value takes no bytes, and a field of
//! no member does no harm.

use crate::field::{
    Field, Payload, all_fields, all_well_formed, field_bytes, fields_bytes, fold_fields,
    lemma_all_fields_concat, lemma_decode_fields, lemma_fields_bytes_concat, lemma_fields_bytes_one,
    lemma_fields_round_trip, lemma_fold_chain, lemma_fold_concat, lemma_fold_one,
    lemma_fold_passes_over, lemma_parse_fields_concat, lemma_run_shorter, lemma_well_formed_by_len,
    parse_fields, well_formed,
};
use crate::member::{
    fixed64_member, framed, lemma_frame_round_trip, parse_framed, run_member, varint_member,
};
use crate::opentelemetry::common::types::{InstrumentationScopeView, KeyValueView, ResourceView};
use crate::opentelemetry::trace::types::{
    ExportTraceServiceRequestView, ResourceSpansView, ScopeSpansView, SpanEventView, SpanKind,
    SpanLinkView, SpanView, StatusCode, StatusView,
};
use vstd::prelude::*;
use vstd::utf8::{encode_utf8, encode_utf8_decode_utf8, encode_utf8_valid_utf8};

verus! {

impl StatusView {
    /// The field numbers of the members.
    pub open spec fn has_number(number: u32) -> bool {
        number == 2 || number == 3
    }

    /// The message with its first `k` members as they are in `self`, and the others at
    /// their zero value.
    spec fn first_members(self, k: nat) -> Self {
        Self {
            message: if k > 0 { self.message } else { Seq::empty() },
            code: if k > 1 { self.code } else { StatusCode::STATUS_CODE_UNSET },
        }
    }

    proof fn lemma_member_message(self)
        ensures
            fold_fields(
                Self::merge_fn(),
                self.first_members(0),
                run_member(2, encode_utf8(self.message)),
            ) == Some(self.first_members(1)),
    {
        let v = self;
        let merge = Self::merge_fn();
        let f1 = run_member(2, encode_utf8(v.message));
        let a0 = v.first_members(0);
        encode_utf8_valid_utf8(v.message);
        encode_utf8_decode_utf8(v.message);
        let f = Field { number: 2, payload: Payload::Run(encode_utf8(v.message)) };
        lemma_fold_one(merge, a0, f);
        if f1.len() == 0 {
            assert(v.message =~= Seq::<char>::empty());
        }
        assert(run_member(2, encode_utf8(v.message)).len() <= 1);
    }

    proof fn lemma_member_code(self)
        ensures
            fold_fields(
                Self::merge_fn(),
                self.first_members(1),
                varint_member(3, self.code.spec_number() as u64),
            ) == Some(self.first_members(2)),
    {
        let v = self;
        let merge = Self::merge_fn();
        let a1 = v.first_members(1);
        v.code.lemma_number_round_trip();
        let f = Field { number: 3, payload: Payload::Varint(v.code.spec_number() as u64) };
        lemma_fold_one(merge, a1, f);
    }

    /// Merging the fields that the message is written as, into the message with every
    /// member at its zero value, gives the message.
    pub proof fn lemma_fold_fields(self)
        requires
            self.wire().len() <= u64::MAX,
        ensures
            fold_fields(Self::merge_fn(), Self::default(), self.fields()) == Some(self),
    {
        let v = self;
        let merge = Self::merge_fn();
        let f1 = run_member(2, encode_utf8(v.message));
        let f2 = varint_member(3, v.code.spec_number() as u64);
        let a0 = v.first_members(0);
        assert(a0 == Self::default());
        reveal(StatusView::wire);
        lemma_fields_bytes_concat(f1, f2);
        v.lemma_member_message();
        v.lemma_member_code();
        lemma_fold_concat(merge, a0, f1, f2);
        assert(v.first_members(2) == v);
    }

    /// Decoding what was written gives the message back, and so writing what was
    /// decoded from such bytes gives the bytes back. The length of the body must fit in
    /// 64 bits, as that of every message in memory does.
    pub proof fn lemma_round_trip(self)
        requires
            self.wire().len() <= u64::MAX,
        ensures
            Self::decode(self.wire()) == Some(self),
            Self::decode(self.wire()) matches Some(back) && back.wire() == self.wire(),
    {
        reveal(StatusView::wire);
        reveal(StatusView::decode);
        lemma_well_formed_by_len(self.fields());
        self.lemma_fold_fields();
        lemma_decode_fields(Self::merge_fn(), Self::default(), self.fields());
    }

    /// Decoding the framed message gives the message back, whatever follows it.
    pub proof fn lemma_framed_round_trip(self, rest: Seq<u8>)
        requires
            self.wire().len() <= u64::MAX,
        ensures
            parse_framed(framed(self.wire()) + rest) == Some(self.wire()),
            Self::decode(self.wire()) == Some(self),
    {
        lemma_frame_round_trip(self.wire(), rest);
        self.lemma_round_trip();
    }

    /// Fields of no member do not count, wherever they stand: the bytes decode to what
    /// the fields of members among them give.
    pub proof fn lemma_passes_over_unknown(b: Seq<u8>)
        ensures
            match parse_fields(b) {
                Some(fs) => Self::decode(b) == fold_fields(
                    Self::merge_fn(),
                    Self::default(),
                    fs.filter(|f: Field| Self::has_number(f.number)),
                ),
                None => Self::decode(b) is None,
            },
    {
        reveal(StatusView::decode);
        match parse_fields(b) {
            Some(fs) => {
                lemma_fold_passes_over(
                    Self::merge_fn(),
                    Self::default(),
                    fs,
                    |f: Field| Self::has_number(f.number),
                );
            },
            None => {},
        }
    }

    /// A field of no member, appended to bytes that decode, changes nothing: the bytes
    /// still decode, and to the same message.
    pub proof fn lemma_unknown_field(b: Seq<u8>, f: Field)
        requires
            Self::decode(b) is Some,
            !Self::has_number(f.number),
            well_formed(f),
        ensures
            Self::decode(b + field_bytes(f)) == Self::decode(b),
    {
        reveal(StatusView::decode);
        let fs = parse_fields(b)->Some_0;
        let all = b + field_bytes(f);
        lemma_fields_bytes_one(f);
        assert(all_well_formed(seq![f]));
        lemma_fields_round_trip(seq![f]);
        lemma_parse_fields_concat(b, field_bytes(f));
        let merge = Self::merge_fn();
        lemma_fold_concat(merge, Self::default(), fs, seq![f]);
        lemma_fold_one(merge, Self::decode(b)->Some_0, f);
    }

    /// Whether the member that the field number belongs to differs from its zero
    /// value. For a member that holds one of several kinds of value, whether the kind
    /// with this number is the one in force.
    pub open spec fn is_set(self, number: u32) -> bool {
        if number == 2 {
            self.message.len() > 0
        } else if number == 3 {
            self.code != StatusCode::STATUS_CODE_UNSET
        } else {
            false
        }
    }

    /// A member at its zero value is not written: every field of the message belongs
    /// to a member that differs from its zero value.
    pub proof fn lemma_zero_members_omitted(self)
        ensures
            all_fields(self.fields(), |f: Field| self.is_set(f.number)),
    {
        let v = self;
        let set = |f: Field| self.is_set(f.number);
        let f1 = run_member(2, encode_utf8(v.message));
        let f2 = varint_member(3, v.code.spec_number() as u64);
        assert(all_fields(f1, set)) by {
            if v.message.len() == 0 {
                assert(encode_utf8(v.message) =~= Seq::<u8>::empty());
            }
        }
        assert(all_fields(f2, set)) by {
            v.code.lemma_number_round_trip();
        }
        lemma_all_fields_concat(f1, f2, set);
    }

    /// The message with every member at its zero value is written as no byte at all.
    pub proof fn lemma_default_wire()
        ensures
            Self::default().fields() == Seq::<Field>::empty(),
            Self::default().wire() == Seq::<u8>::empty(),
    {
        let v = Self::default();
        assert(run_member(2, encode_utf8(v.message)) =~= Seq::<Field>::empty());
        assert(varint_member(3, v.code.spec_number() as u64) =~= Seq::<Field>::empty());
        assert(v.fields() =~= Seq::<Field>::empty());
        reveal(StatusView::wire);
    }
}

impl SpanEventView {
    /// The field numbers of the members.
    pub open spec fn has_number(number: u32) -> bool {
        number == 1 || number == 2 || number == 3 || number == 4
    }

    /// The message with its first `k` members as they are in `self`, and the others at
    /// their zero value.
    spec fn first_members(self, k: nat) -> Self {
        Self {
            time_unix_nano: if k > 0 { self.time_unix_nano } else { 0 },
            name: if k > 1 { self.name } else { Seq::empty() },
            attributes: if k > 2 { self.attributes } else { Seq::empty() },
            dropped_attributes_count: if k > 3 { self.dropped_attributes_count } else { 0 },
        }
    }

    proof fn lemma_member_time_unix_nano(self)
        ensures
            fold_fields(
                Self::merge_fn(),
                self.first_members(0),
                fixed64_member(1, self.time_unix_nano),
            ) == Some(self.first_members(1)),
    {
        let v = self;
        let merge = Self::merge_fn();
        let a0 = v.first_members(0);
        let f = Field { number: 1, payload: Payload::Fixed64(v.time_unix_nano) };
        lemma_fold_one(merge, a0, f);
    }

    proof fn lemma_member_name(self)
        ensures
            fold_fields(
                Self::merge_fn(),
                self.first_members(1),
                run_member(2, encode_utf8(self.name)),
            ) == Some(self.first_members(2)),
    {
        let v = self;
        let merge = Self::merge_fn();
        let f2 = run_member(2, encode_utf8(v.name));
        let a1 = v.first_members(1);
        encode_utf8_valid_utf8(v.name);
        encode_utf8_decode_utf8(v.name);
        let f = Field { number: 2, payload: Payload::Run(encode_utf8(v.name)) };
        lemma_fold_one(merge, a1, f);
        if f2.len() == 0 {
            assert(v.name =~= Seq::<char>::empty());
        }
        assert(run_member(2, encode_utf8(v.name)).len() <= 1);
    }

    proof fn lemma_member_attributes(self)
        requires
            fields_bytes(KeyValueView::repeated(3, self.attributes)).len() <= u64::MAX,
        ensures
            fold_fields(
                Self::merge_fn(),
                self.first_members(2),
                KeyValueView::repeated(3, self.attributes),
            ) == Some(self.first_members(3)),
    {
        let v = self;
        let merge = Self::merge_fn();
        let f3 = KeyValueView::repeated(3, v.attributes);
        let a2 = v.first_members(2);
        let a3 = v.first_members(3);
        let states = |i: int| Self { attributes: v.attributes.take(i), ..v.first_members(2) };
        assert forall|i: int| 0 <= i < f3.len() implies merge(states(i), #[trigger] f3[i]) == Some(
            states(i + 1),
        ) by {
            lemma_run_shorter(f3, i);
            v.attributes[i].lemma_round_trip();
            assert(v.attributes.take(i).push(v.attributes[i]) =~= v.attributes.take(i + 1));
        }
        lemma_fold_chain(merge, f3, states);
        assert(v.attributes.take(0) =~= Seq::<KeyValueView>::empty());
        assert(v.attributes.take(v.attributes.len() as int) =~= v.attributes);
        assert(states(0) == a2);
        assert(states(f3.len() as int) == a3);
    }

    proof fn lemma_member_dropped_attributes_count(self)
        ensures
            fold_fields(
                Self::merge_fn(),
                self.first_members(3),
                varint_member(4, self.dropped_attributes_count as u64),
            ) == Some(self.first_members(4)),
    {
        let v = self;
        let merge = Self::merge_fn();
        let a3 = v.first_members(3);
        let f = Field { number: 4, payload: Payload::Varint(v.dropped_attributes_count as u64) };
        lemma_fold_one(merge, a3, f);
    }

    /// Merging the fields that the message is written as, into the message with every
    /// member at its zero value, gives the message.
    pub proof fn lemma_fold_fields(self)
        requires
            self.wire().len() <= u64::MAX,
        ensures
            fold_fields(Self::merge_fn(), Self::default(), self.fields()) == Some(self),
    {
        let v = self;
        let merge = Self::merge_fn();
        let f1 = fixed64_member(1, v.time_unix_nano);
        let f2 = run_member(2, encode_utf8(v.name));
        let f3 = KeyValueView::repeated(3, v.attributes);
        let f4 = varint_member(4, v.dropped_attributes_count as u64);
        let a0 = v.first_members(0);
        assert(a0 == Self::default());
        reveal(SpanEventView::wire);
        lemma_fields_bytes_concat(f1, f2);
        lemma_fields_bytes_concat(f1 + f2, f3);
        lemma_fields_bytes_concat(f1 + f2 + f3, f4);
        v.lemma_member_time_unix_nano();
        v.lemma_member_name();
        lemma_fold_concat(merge, a0, f1, f2);
        v.lemma_member_attributes();
        lemma_fold_concat(merge, a0, f1 + f2, f3);
        v.lemma_member_dropped_attributes_count();
        lemma_fold_concat(merge, a0, f1 + f2 + f3, f4);
        assert(v.first_members(4) == v);
    }

    /// Decoding what was written gives the message back, and so writing what was
    /// decoded from such bytes gives the bytes back. The length of the body must fit in
    /// 64 bits, as that of every message in memory does.
    pub proof fn lemma_round_trip(self)
        requires
            self.wire().len() <= u64::MAX,
        ensures
            Self::decode(self.wire()) == Some(self),
            Self::decode(self.wire()) matches Some(back) && back.wire() == self.wire(),
    {
        reveal(SpanEventView::wire);
        reveal(SpanEventView::decode);
        lemma_well_formed_by_len(self.fields());
        self.lemma_fold_fields();
        lemma_decode_fields(Self::merge_fn(), Self::default(), self.fields());
    }

    /// Decoding the framed message gives the message back, whatever follows it.
    pub proof fn lemma_framed_round_trip(self, rest: Seq<u8>)
        requires
            self.wire().len() <= u64::MAX,
        ensures
            parse_framed(framed(self.wire()) + rest) == Some(self.wire()),
            Self::decode(self.wire()) == Some(self),
    {
        lemma_frame_round_trip(self.wire(), rest);
        self.lemma_round_trip();
    }

    /// Fields of no member do not count, wherever they stand: the bytes decode to what
    /// the fields of members among them give.
    pub proof fn lemma_passes_over_unknown(b: Seq<u8>)
        ensures
            match parse_fields(b) {
                Some(fs) => Self::decode(b) == fold_fields(
                    Self::merge_fn(),
                    Self::default(),
                    fs.filter(|f: Field| Self::has_number(f.number)),
                ),
                None => Self::decode(b) is None,
            },
    {
        reveal(SpanEventView::decode);
        match parse_fields(b) {
            Some(fs) => {
                lemma_fold_passes_over(
                    Self::merge_fn(),
                    Self::default(),
                    fs,
                    |f: Field| Self::has_number(f.number),
                );
            },
            None => {},
        }
    }

    /// A field of no member, appended to bytes that decode, changes nothing: the bytes
    /// still decode, and to the same message.
    pub proof fn lemma_unknown_field(b: Seq<u8>, f: Field)
        requires
            Self::decode(b) is Some,
            !Self::has_number(f.number),
            well_formed(f),
        ensures
            Self::decode(b + field_bytes(f)) == Self::decode(b),
    {
        reveal(SpanEventView::decode);
        let fs = parse_fields(b)->Some_0;
        let all = b + field_bytes(f);
        lemma_fields_bytes_one(f);
        assert(all_well_formed(seq![f]));
        lemma_fields_round_trip(seq![f]);
        lemma_parse_fields_concat(b, field_bytes(f));
        let merge = Self::merge_fn();
        lemma_fold_concat(merge, Self::default(), fs, seq![f]);
        lemma_fold_one(merge, Self::decode(b)->Some_0, f);
    }

    /// Whether the member that the field number belongs to differs from its zero
    /// value. For a member that holds one of several kinds of value, whether the kind
    /// with this number is the one in force.
    pub open spec fn is_set(self, number: u32) -> bool {
        if number == 1 {
            self.time_unix_nano != 0
        } else if number == 2 {
            self.name.len() > 0
        } else if number == 3 {
            self.attributes.len() > 0
        } else if number == 4 {
            self.dropped_attributes_count != 0
        } else {
            false
        }
    }

    /// A member at its zero value is not written: every field of the message belongs
    /// to a member that differs from its zero value.
    pub proof fn lemma_zero_members_omitted(self)
        ensures
            all_fields(self.fields(), |f: Field| self.is_set(f.number)),
    {
        let v = self;
        let set = |f: Field| self.is_set(f.number);
        let f1 = fixed64_member(1, v.time_unix_nano);
        let f2 = run_member(2, encode_utf8(v.name));
        let f3 = KeyValueView::repeated(3, v.attributes);
        let f4 = varint_member(4, v.dropped_attributes_count as u64);
        assert(all_fields(f1, set)) by {
        }
        assert(all_fields(f2, set)) by {
            if v.name.len() == 0 {
                assert(encode_utf8(v.name) =~= Seq::<u8>::empty());
            }
        }
        assert(all_fields(f3, set)) by {
        }
        assert(all_fields(f4, set)) by {
        }
        lemma_all_fields_concat(f1, f2, set);
        lemma_all_fields_concat(f1 + f2, f3, set);
        lemma_all_fields_concat(f1 + f2 + f3, f4, set);
    }

    /// The message with every member at its zero value is written as no byte at all.
    pub proof fn lemma_default_wire()
        ensures
            Self::default().fields() == Seq::<Field>::empty(),
            Self::default().wire() == Seq::<u8>::empty(),
    {
        let v = Self::default();
        assert(fixed64_member(1, v.time_unix_nano) =~= Seq::<Field>::empty());
        assert(run_member(2, encode_utf8(v.name)) =~= Seq::<Field>::empty());
        assert(KeyValueView::repeated(3, v.attributes) =~= Seq::<Field>::empty());
        assert(varint_member(4, v.dropped_attributes_count as u64) =~= Seq::<Field>::empty());
        assert(v.fields() =~= Seq::<Field>::empty());
        reveal(SpanEventView::wire);
    }
}

impl SpanLinkView {
    /// The field numbers of the members.
    pub open spec fn has_number(number: u32) -> bool {
        number == 1 || number == 2 || number == 3 || number == 4 || number == 5
    }

    /// The message with its first `k` members as they are in `self`, and the others at
    /// their zero value.
    spec fn first_members(self, k: nat) -> Self {
        Self {
            trace_id: if k > 0 { self.trace_id } else { Seq::empty() },
            span_id: if k > 1 { self.span_id } else { Seq::empty() },
            trace_state: if k > 2 { self.trace_state } else { Seq::empty() },
            attributes: if k > 3 { self.attributes } else { Seq::empty() },
            dropped_attributes_count: if k > 4 { self.dropped_attributes_count } else { 0 },
        }
    }

    proof fn lemma_member_trace_id(self)
        ensures
            fold_fields(
                Self::merge_fn(),
                self.first_members(0),
                run_member(1, self.trace_id),
            ) == Some(self.first_members(1)),
    {
        let v = self;
        let merge = Self::merge_fn();
        let f1 = run_member(1, v.trace_id);
        let a0 = v.first_members(0);
        let f = Field { number: 1, payload: Payload::Run(v.trace_id) };
        lemma_fold_one(merge, a0, f);
        if f1.len() == 0 {
            assert(v.trace_id =~= Seq::<u8>::empty());
        }
    }

    proof fn lemma_member_span_id(self)
        ensures
            fold_fields(
                Self::merge_fn(),
                self.first_members(1),
                run_member(2, self.span_id),
            ) == Some(self.first_members(2)),
    {
        let v = self;
        let merge = Self::merge_fn();
        let f2 = run_member(2, v.span_id);
        let a1 = v.first_members(1);
        let f = Field { number: 2, payload: Payload::Run(v.span_id) };
        lemma_fold_one(merge, a1, f);
        if f2.len() == 0 {
            assert(v.span_id =~= Seq::<u8>::empty());
        }
    }

    proof fn lemma_member_trace_state(self)
        ensures
            fold_fields(
                Self::merge_fn(),
                self.first_members(2),
                run_member(3, encode_utf8(self.trace_state)),
            ) == Some(self.first_members(3)),
    {
        let v = self;
        let merge = Self::merge_fn();
        let f3 = run_member(3, encode_utf8(v.trace_state));
        let a2 = v.first_members(2);
        encode_utf8_valid_utf8(v.trace_state);
        encode_utf8_decode_utf8(v.trace_state);
        let f = Field { number: 3, payload: Payload::Run(encode_utf8(v.trace_state)) };
        lemma_fold_one(merge, a2, f);
        if f3.len() == 0 {
            assert(v.trace_state =~= Seq::<char>::empty());
        }
        assert(run_member(3, encode_utf8(v.trace_state)).len() <= 1);
    }

    proof fn lemma_member_attributes(self)
        requires
            fields_bytes(KeyValueView::repeated(4, self.attributes)).len() <= u64::MAX,
        ensures
            fold_fields(
                Self::merge_fn(),
                self.first_members(3),
                KeyValueView::repeated(4, self.attributes),
            ) == Some(self.first_members(4)),
    {
        let v = self;
        let merge = Self::merge_fn();
        let f4 = KeyValueView::repeated(4, v.attributes);
        let a3 = v.first_members(3);
        let a4 = v.first_members(4);
        let states = |i: int| Self { attributes: v.attributes.take(i), ..v.first_members(3) };
        assert forall|i: int| 0 <= i < f4.len() implies merge(states(i), #[trigger] f4[i]) == Some(
            states(i + 1),
        ) by {
            lemma_run_shorter(f4, i);
            v.attributes[i].lemma_round_trip();
            assert(v.attributes.take(i).push(v.attributes[i]) =~= v.attributes.take(i + 1));
        }
        lemma_fold_chain(merge, f4, states);
        assert(v.attributes.take(0) =~= Seq::<KeyValueView>::empty());
        assert(v.attributes.take(v.attributes.len() as int) =~= v.attributes);
        assert(states(0) == a3);
        assert(states(f4.len() as int) == a4);
    }

    proof fn lemma_member_dropped_attributes_count(self)
        ensures
            fold_fields(
                Self::merge_fn(),
                self.first_members(4),
                varint_member(5, self.dropped_attributes_count as u64),
            ) == Some(self.first_members(5)),
    {
        let v = self;
        let merge = Self::merge_fn();
        let a4 = v.first_members(4);
        let f = Field { number: 5, payload: Payload::Varint(v.dropped_attributes_count as u64) };
        lemma_fold_one(merge, a4, f);
    }

    /// Merging the fields that the message is written as, into the message with every
    /// member at its zero value, gives the message.
    pub proof fn lemma_fold_fields(self)
        requires
            self.wire().len() <= u64::MAX,
        ensures
            fold_fields(Self::merge_fn(), Self::default(), self.fields()) == Some(self),
    {
        let v = self;
        let merge = Self::merge_fn();
        let f1 = run_member(1, v.trace_id);
        let f2 = run_member(2, v.span_id);
        let f3 = run_member(3, encode_utf8(v.trace_state));
        let f4 = KeyValueView::repeated(4, v.attributes);
        let f5 = varint_member(5, v.dropped_attributes_count as u64);
        let a0 = v.first_members(0);
        assert(a0 == Self::default());
        reveal(SpanLinkView::wire);
        lemma_fields_bytes_concat(f1, f2);
        lemma_fields_bytes_concat(f1 + f2, f3);
        lemma_fields_bytes_concat(f1 + f2 + f3, f4);
        lemma_fields_bytes_concat(f1 + f2 + f3 + f4, f5);
        v.lemma_member_trace_id();
        v.lemma_member_span_id();
        lemma_fold_concat(merge, a0, f1, f2);
        v.lemma_member_trace_state();
        lemma_fold_concat(merge, a0, f1 + f2, f3);
        v.lemma_member_attributes();
        lemma_fold_concat(merge, a0, f1 + f2 + f3, f4);
        v.lemma_member_dropped_attributes_count();
        lemma_fold_concat(merge, a0, f1 + f2 + f3 + f4, f5);
        assert(v.first_members(5) == v);
    }

    /// Decoding what was written gives the message back, and so writing what was
    /// decoded from such bytes gives the bytes back. The length of the body must fit in
    /// 64 bits, as that of every message in memory does.
    pub proof fn lemma_round_trip(self)
        requires
            self.wire().len() <= u64::MAX,
        ensures
            Self::decode(self.wire()) == Some(self),
            Self::decode(self.wire()) matches Some(back) && back.wire() == self.wire(),
    {
        reveal(SpanLinkView::wire);
        reveal(SpanLinkView::decode);
        lemma_well_formed_by_len(self.fields());
        self.lemma_fold_fields();
        lemma_decode_fields(Self::merge_fn(), Self::default(), self.fields());
    }

    /// Decoding the framed message gives the message back, whatever follows it.
    pub proof fn lemma_framed_round_trip(self, rest: Seq<u8>)
        requires
            self.wire().len() <= u64::MAX,
        ensures
            parse_framed(framed(self.wire()) + rest) == Some(self.wire()),
            Self::decode(self.wire()) == Some(self),
    {
        lemma_frame_round_trip(self.wire(), rest);
        self.lemma_round_trip();
    }

    /// Fields of no member do not count, wherever they stand: the bytes decode to what
    /// the fields of members among them give.
    pub proof fn lemma_passes_over_unknown(b: Seq<u8>)
        ensures
            match parse_fields(b) {
                Some(fs) => Self::decode(b) == fold_fields(
                    Self::merge_fn(),
                    Self::default(),
                    fs.filter(|f: Field| Self::has_number(f.number)),
                ),
                None => Self::decode(b) is None,
            },
    {
        reveal(SpanLinkView::decode);
        match parse_fields(b) {
            Some(fs) => {
                lemma_fold_passes_over(
                    Self::merge_fn(),
                    Self::default(),
                    fs,
                    |f: Field| Self::has_number(f.number),
                );
            },
            None => {},
        }
    }

    /// A field of no member, appended to bytes that decode, changes nothing: the bytes
    /// still decode, and to the same message.
    pub proof fn lemma_unknown_field(b: Seq<u8>, f: Field)
        requires
            Self::decode(b) is Some,
            !Self::has_number(f.number),
            well_formed(f),
        ensures
            Self::decode(b + field_bytes(f)) == Self::decode(b),
    {
        reveal(SpanLinkView::decode);
        let fs = parse_fields(b)->Some_0;
        let all = b + field_bytes(f);
        lemma_fields_bytes_one(f);
        assert(all_well_formed(seq![f]));
        lemma_fields_round_trip(seq![f]);
        lemma_parse_fields_concat(b, field_bytes(f));
        let merge = Self::merge_fn();
        lemma_fold_concat(merge, Self::default(), fs, seq![f]);
        lemma_fold_one(merge, Self::decode(b)->Some_0, f);
    }

    /// Whether the member that the field number belongs to differs from its zero
    /// value. For a member that holds one of several kinds of value, whether the kind
    /// with this number is the one in force.
    pub open spec fn is_set(self, number: u32) -> bool {
        if number == 1 {
            self.trace_id.len() > 0
        } else if number == 2 {
            self.span_id.len() > 0
        } else if number == 3 {
            self.trace_state.len() > 0
        } else if number == 4 {
            self.attributes.len() > 0
        } else if number == 5 {
            self.dropped_attributes_count != 0
        } else {
            false
        }
    }

    /// A member at its zero value is not written: every field of the message belongs
    /// to a member that differs from its zero value.
    pub proof fn lemma_zero_members_omitted(self)
        ensures
            all_fields(self.fields(), |f: Field| self.is_set(f.number)),
    {
        let v = self;
        let set = |f: Field| self.is_set(f.number);
        let f1 = run_member(1, v.trace_id);
        let f2 = run_member(2, v.span_id);
        let f3 = run_member(3, encode_utf8(v.trace_state));
        let f4 = KeyValueView::repeated(4, v.attributes);
        let f5 = varint_member(5, v.dropped_attributes_count as u64);
        assert(all_fields(f1, set)) by {
        }
        assert(all_fields(f2, set)) by {
        }
        assert(all_fields(f3, set)) by {
            if v.trace_state.len() == 0 {
                assert(encode_utf8(v.trace_state) =~= Seq::<u8>::empty());
            }
        }
        assert(all_fields(f4, set)) by {
        }
        assert(all_fields(f5, set)) by {
        }
        lemma_all_fields_concat(f1, f2, set);
        lemma_all_fields_concat(f1 + f2, f3, set);
        lemma_all_fields_concat(f1 + f2 + f3, f4, set);
        lemma_all_fields_concat(f1 + f2 + f3 + f4, f5, set);
    }

    /// The message with every member at its zero value is written as no byte at all.
    pub proof fn lemma_default_wire()
        ensures
            Self::default().fields() == Seq::<Field>::empty(),
            Self::default().wire() == Seq::<u8>::empty(),
    {
        let v = Self::default();
        assert(run_member(1, v.trace_id) =~= Seq::<Field>::empty());
        assert(run_member(2, v.span_id) =~= Seq::<Field>::empty());
        assert(run_member(3, encode_utf8(v.trace_state)) =~= Seq::<Field>::empty());
        assert(KeyValueView::repeated(4, v.attributes) =~= Seq::<Field>::empty());
        assert(varint_member(5, v.dropped_attributes_count as u64) =~= Seq::<Field>::empty());
        assert(v.fields() =~= Seq::<Field>::empty());
        reveal(SpanLinkView::wire);
    }
}

impl SpanView {
    /// The field numbers of the members.
    pub open spec fn has_number(number: u32) -> bool {
        number == 1
            || number == 2
            || number == 3
            || number == 4
            || number == 5
            || number == 6
            || number == 7
            || number == 8
            || number == 9
            || number == 10
            || number == 11
            || number == 12
            || number == 13
            || number == 14
            || number == 15
    }

    /// The message with its first `k` members as they are in `self`, and the others at
    /// their zero value.
    spec fn first_members(self, k: nat) -> Self {
        Self {
            trace_id: if k > 0 { self.trace_id } else { Seq::empty() },
            span_id: if k > 1 { self.span_id } else { Seq::empty() },
            trace_state: if k > 2 { self.trace_state } else { Seq::empty() },
            parent_span_id: if k > 3 { self.parent_span_id } else { Seq::empty() },
            name: if k > 4 { self.name } else { Seq::empty() },
            kind: if k > 5 { self.kind } else { SpanKind::SPAN_KIND_UNSPECIFIED },
            start_time_unix_nano: if k > 6 { self.start_time_unix_nano } else { 0 },
            end_time_unix_nano: if k > 7 { self.end_time_unix_nano } else { 0 },
            attributes: if k > 8 { self.attributes } else { Seq::empty() },
            dropped_attributes_count: if k > 9 { self.dropped_attributes_count } else { 0 },
            events: if k > 10 { self.events } else { Seq::empty() },
            dropped_events_count: if k > 11 { self.dropped_events_count } else { 0 },
            links: if k > 12 { self.links } else { Seq::empty() },
            dropped_links_count: if k > 13 { self.dropped_links_count } else { 0 },
            status: if k > 14 { self.status } else { None },
        }
    }

    proof fn lemma_member_trace_id(self)
        ensures
            fold_fields(
                Self::merge_fn(),
                self.first_members(0),
                run_member(1, self.trace_id),
            ) == Some(self.first_members(1)),
    {
        let v = self;
        let merge = Self::merge_fn();
        let f1 = run_member(1, v.trace_id);
        let a0 = v.first_members(0);
        let f = Field { number: 1, payload: Payload::Run(v.trace_id) };
        lemma_fold_one(merge, a0, f);
        if f1.len() == 0 {
            assert(v.trace_id =~= Seq::<u8>::empty());
        }
    }

    proof fn lemma_member_span_id(self)
        ensures
            fold_fields(
                Self::merge_fn(),
                self.first_members(1),
                run_member(2, self.span_id),
            ) == Some(self.first_members(2)),
    {
        let v = self;
        let merge = Self::merge_fn();
        let f2 = run_member(2, v.span_id);
        let a1 = v.first_members(1);
        let f = Field { number: 2, payload: Payload::Run(v.span_id) };
        lemma_fold_one(merge, a1, f);
        if f2.len() == 0 {
            assert(v.span_id =~= Seq::<u8>::empty());
        }
    }

    proof fn lemma_member_trace_state(self)
        ensures
            fold_fields(
                Self::merge_fn(),
                self.first_members(2),
                run_member(3, encode_utf8(self.trace_state)),
            ) == Some(self.first_members(3)),
    {
        let v = self;
        let merge = Self::merge_fn();
        let f3 = run_member(3, encode_utf8(v.trace_state));
        let a2 = v.first_members(2);
        encode_utf8_valid_utf8(v.trace_state);
        encode_utf8_decode_utf8(v.trace_state);
        let f = Field { number: 3, payload: Payload::Run(encode_utf8(v.trace_state)) };
        lemma_fold_one(merge, a2, f);
        if f3.len() == 0 {
            assert(v.trace_state =~= Seq::<char>::empty());
        }
        assert(run_member(3, encode_utf8(v.trace_state)).len() <= 1);
    }

    proof fn lemma_member_parent_span_id(self)
        ensures
            fold_fields(
                Self::merge_fn(),
                self.first_members(3),
                run_member(4, self.parent_span_id),
            ) == Some(self.first_members(4)),
    {
        let v = self;
        let merge = Self::merge_fn();
        let f4 = run_member(4, v.parent_span_id);
        let a3 = v.first_members(3);
        let f = Field { number: 4, payload: Payload::Run(v.parent_span_id) };
        lemma_fold_one(merge, a3, f);
        if f4.len() == 0 {
            assert(v.parent_span_id =~= Seq::<u8>::empty());
        }
    }

    proof fn lemma_member_name(self)
        ensures
            fold_fields(
                Self::merge_fn(),
                self.first_members(4),
                run_member(5, encode_utf8(self.name)),
            ) == Some(self.first_members(5)),
    {
        let v = self;
        let merge = Self::merge_fn();
        let f5 = run_member(5, encode_utf8(v.name));
        let a4 = v.first_members(4);
        encode_utf8_valid_utf8(v.name);
        encode_utf8_decode_utf8(v.name);
        let f = Field { number: 5, payload: Payload::Run(encode_utf8(v.name)) };
        lemma_fold_one(merge, a4, f);
        if f5.len() == 0 {
            assert(v.name =~= Seq::<char>::empty());
        }
        assert(run_member(5, encode_utf8(v.name)).len() <= 1);
    }

    proof fn lemma_member_kind(self)
        ensures
            fold_fields(
                Self::merge_fn(),
                self.first_members(5),
                varint_member(6, self.kind.spec_number() as u64),
            ) == Some(self.first_members(6)),
    {
        let v = self;
        let merge = Self::merge_fn();
        let a5 = v.first_members(5);
        v.kind.lemma_number_round_trip();
        let f = Field { number: 6, payload: Payload::Varint(v.kind.spec_number() as u64) };
        lemma_fold_one(merge, a5, f);
    }

    proof fn lemma_member_start_time_unix_nano(self)
        ensures
            fold_fields(
                Self::merge_fn(),
                self.first_members(6),
                fixed64_member(7, self.start_time_unix_nano),
            ) == Some(self.first_members(7)),
    {
        let v = self;
        let merge = Self::merge_fn();
        let a6 = v.first_members(6);
        let f = Field { number: 7, payload: Payload::Fixed64(v.start_time_unix_nano) };
        lemma_fold_one(merge, a6, f);
    }

    proof fn lemma_member_end_time_unix_nano(self)
        ensures
            fold_fields(
                Self::merge_fn(),
                self.first_members(7),
                fixed64_member(8, self.end_time_unix_nano),
            ) == Some(self.first_members(8)),
    {
        let v = self;
        let merge = Self::merge_fn();
        let a7 = v.first_members(7);
        let f = Field { number: 8, payload: Payload::Fixed64(v.end_time_unix_nano) };
        lemma_fold_one(merge, a7, f);
    }

    proof fn lemma_member_attributes(self)
        requires
            fields_bytes(KeyValueView::repeated(9, self.attributes)).len() <= u64::MAX,
        ensures
            fold_fields(
                Self::merge_fn(),
                self.first_members(8),
                KeyValueView::repeated(9, self.attributes),
            ) == Some(self.first_members(9)),
    {
        let v = self;
        let merge = Self::merge_fn();
        let f9 = KeyValueView::repeated(9, v.attributes);
        let a8 = v.first_members(8);
        let a9 = v.first_members(9);
        let states = |i: int| Self { attributes: v.attributes.take(i), ..v.first_members(8) };
        assert forall|i: int| 0 <= i < f9.len() implies merge(states(i), #[trigger] f9[i]) == Some(
            states(i + 1),
        ) by {
            lemma_run_shorter(f9, i);
            v.attributes[i].lemma_round_trip();
            assert(v.attributes.take(i).push(v.attributes[i]) =~= v.attributes.take(i + 1));
        }
        lemma_fold_chain(merge, f9, states);
        assert(v.attributes.take(0) =~= Seq::<KeyValueView>::empty());
        assert(v.attributes.take(v.attributes.len() as int) =~= v.attributes);
        assert(states(0) == a8);
        assert(states(f9.len() as int) == a9);
    }

    proof fn lemma_member_dropped_attributes_count(self)
        ensures
            fold_fields(
                Self::merge_fn(),
                self.first_members(9),
                varint_member(10, self.dropped_attributes_count as u64),
            ) == Some(self.first_members(10)),
    {
        let v = self;
        let merge = Self::merge_fn();
        let a9 = v.first_members(9);
        let f = Field { number: 10, payload: Payload::Varint(v.dropped_attributes_count as u64) };
        lemma_fold_one(merge, a9, f);
    }

    proof fn lemma_member_events(self)
        requires
            fields_bytes(SpanEventView::repeated(11, self.events)).len() <= u64::MAX,
        ensures
            fold_fields(
                Self::merge_fn(),
                self.first_members(10),
                SpanEventView::repeated(11, self.events),
            ) == Some(self.first_members(11)),
    {
        let v = self;
        let merge = Self::merge_fn();
        let f11 = SpanEventView::repeated(11, v.events);
        let a10 = v.first_members(10);
        let a11 = v.first_members(11);
        let states = |i: int| Self { events: v.events.take(i), ..v.first_members(10) };
        assert forall|i: int| 0 <= i < f11.len() implies merge(states(i), #[trigger] f11[i])
            == Some(
            states(i + 1),
        ) by {
            lemma_run_shorter(f11, i);
            v.events[i].lemma_round_trip();
            assert(v.events.take(i).push(v.events[i]) =~= v.events.take(i + 1));
        }
        lemma_fold_chain(merge, f11, states);
        assert(v.events.take(0) =~= Seq::<SpanEventView>::empty());
        assert(v.events.take(v.events.len() as int) =~= v.events);
        assert(states(0) == a10);
        assert(states(f11.len() as int) == a11);
    }

    proof fn lemma_member_dropped_events_count(self)
        ensures
            fold_fields(
                Self::merge_fn(),
                self.first_members(11),
                varint_member(12, self.dropped_events_count as u64),
            ) == Some(self.first_members(12)),
    {
        let v = self;
        let merge = Self::merge_fn();
        let a11 = v.first_members(11);
        let f = Field { number: 12, payload: Payload::Varint(v.dropped_events_count as u64) };
        lemma_fold_one(merge, a11, f);
    }

    proof fn lemma_member_links(self)
        requires
            fields_bytes(SpanLinkView::repeated(13, self.links)).len() <= u64::MAX,
        ensures
            fold_fields(
                Self::merge_fn(),
                self.first_members(12),
                SpanLinkView::repeated(13, self.links),
            ) == Some(self.first_members(13)),
    {
        let v = self;
        let merge = Self::merge_fn();
        let f13 = SpanLinkView::repeated(13, v.links);
        let a12 = v.first_members(12);
        let a13 = v.first_members(13);
        let states = |i: int| Self { links: v.links.take(i), ..v.first_members(12) };
        assert forall|i: int| 0 <= i < f13.len() implies merge(states(i), #[trigger] f13[i])
            == Some(
            states(i + 1),
        ) by {
            lemma_run_shorter(f13, i);
            v.links[i].lemma_round_trip();
            assert(v.links.take(i).push(v.links[i]) =~= v.links.take(i + 1));
        }
        lemma_fold_chain(merge, f13, states);
        assert(v.links.take(0) =~= Seq::<SpanLinkView>::empty());
        assert(v.links.take(v.links.len() as int) =~= v.links);
        assert(states(0) == a12);
        assert(states(f13.len() as int) == a13);
    }

    proof fn lemma_member_dropped_links_count(self)
        ensures
            fold_fields(
                Self::merge_fn(),
                self.first_members(13),
                varint_member(14, self.dropped_links_count as u64),
            ) == Some(self.first_members(14)),
    {
        let v = self;
        let merge = Self::merge_fn();
        let a13 = v.first_members(13);
        let f = Field { number: 14, payload: Payload::Varint(v.dropped_links_count as u64) };
        lemma_fold_one(merge, a13, f);
    }

    proof fn lemma_member_status(self)
        requires
            fields_bytes(StatusView::optional(15, self.status)).len() <= u64::MAX,
        ensures
            fold_fields(
                Self::merge_fn(),
                self.first_members(14),
                StatusView::optional(15, self.status),
            ) == Some(self.first_members(15)),
    {
        let v = self;
        let merge = Self::merge_fn();
        let f15 = StatusView::optional(15, v.status);
        let a14 = v.first_members(14);
        match v.status {
            Some(x) => {
                let f = Field { number: 15, payload: Payload::Run(x.wire()) };
                assert(f15 =~= seq![f]);
                lemma_run_shorter(f15, 0);
                x.lemma_round_trip();
                lemma_fold_one(merge, a14, f);
            },
            None => {},
        }
    }

    /// Merging the fields that the message is written as, into the message with every
    /// member at its zero value, gives the message.
    pub proof fn lemma_fold_fields(self)
        requires
            self.wire().len() <= u64::MAX,
        ensures
            fold_fields(Self::merge_fn(), Self::default(), self.fields()) == Some(self),
    {
        let v = self;
        let merge = Self::merge_fn();
        let f1 = run_member(1, v.trace_id);
        let f2 = run_member(2, v.span_id);
        let f3 = run_member(3, encode_utf8(v.trace_state));
        let f4 = run_member(4, v.parent_span_id);
        let f5 = run_member(5, encode_utf8(v.name));
        let f6 = varint_member(6, v.kind.spec_number() as u64);
        let f7 = fixed64_member(7, v.start_time_unix_nano);
        let f8 = fixed64_member(8, v.end_time_unix_nano);
        let f9 = KeyValueView::repeated(9, v.attributes);
        let f10 = varint_member(10, v.dropped_attributes_count as u64);
        let f11 = SpanEventView::repeated(11, v.events);
        let f12 = varint_member(12, v.dropped_events_count as u64);
        let f13 = SpanLinkView::repeated(13, v.links);
        let f14 = varint_member(14, v.dropped_links_count as u64);
        let f15 = StatusView::optional(15, v.status);
        let a0 = v.first_members(0);
        assert(a0 == Self::default());
        reveal(SpanView::wire);
        lemma_fields_bytes_concat(f1, f2);
        lemma_fields_bytes_concat(f1 + f2, f3);
        lemma_fields_bytes_concat(f1 + f2 + f3, f4);
        lemma_fields_bytes_concat(f1 + f2 + f3 + f4, f5);
        lemma_fields_bytes_concat(f1 + f2 + f3 + f4 + f5, f6);
        lemma_fields_bytes_concat(f1 + f2 + f3 + f4 + f5 + f6, f7);
        lemma_fields_bytes_concat(f1 + f2 + f3 + f4 + f5 + f6 + f7, f8);
        lemma_fields_bytes_concat(f1 + f2 + f3 + f4 + f5 + f6 + f7 + f8, f9);
        lemma_fields_bytes_concat(f1 + f2 + f3 + f4 + f5 + f6 + f7 + f8 + f9, f10);
        lemma_fields_bytes_concat(f1 + f2 + f3 + f4 + f5 + f6 + f7 + f8 + f9 + f10, f11);
        lemma_fields_bytes_concat(f1 + f2 + f3 + f4 + f5 + f6 + f7 + f8 + f9 + f10 + f11, f12);
        lemma_fields_bytes_concat(
            f1 + f2 + f3 + f4 + f5 + f6 + f7 + f8 + f9 + f10 + f11 + f12,
            f13,
        );
        lemma_fields_bytes_concat(
            f1 + f2 + f3 + f4 + f5 + f6 + f7 + f8 + f9 + f10 + f11 + f12 + f13,
            f14,
        );
        lemma_fields_bytes_concat(
            f1 + f2 + f3 + f4 + f5 + f6 + f7 + f8 + f9 + f10 + f11 + f12 + f13 + f14,
            f15,
        );
        v.lemma_member_trace_id();
        v.lemma_member_span_id();
        lemma_fold_concat(merge, a0, f1, f2);
        v.lemma_member_trace_state();
        lemma_fold_concat(merge, a0, f1 + f2, f3);
        v.lemma_member_parent_span_id();
        lemma_fold_concat(merge, a0, f1 + f2 + f3, f4);
        v.lemma_member_name();
        lemma_fold_concat(merge, a0, f1 + f2 + f3 + f4, f5);
        v.lemma_member_kind();
        lemma_fold_concat(merge, a0, f1 + f2 + f3 + f4 + f5, f6);
        v.lemma_member_start_time_unix_nano();
        lemma_fold_concat(merge, a0, f1 + f2 + f3 + f4 + f5 + f6, f7);
        v.lemma_member_end_time_unix_nano();
        lemma_fold_concat(merge, a0, f1 + f2 + f3 + f4 + f5 + f6 + f7, f8);
        v.lemma_member_attributes();
        lemma_fold_concat(merge, a0, f1 + f2 + f3 + f4 + f5 + f6 + f7 + f8, f9);
        v.lemma_member_dropped_attributes_count();
        lemma_fold_concat(merge, a0, f1 + f2 + f3 + f4 + f5 + f6 + f7 + f8 + f9, f10);
        v.lemma_member_events();
        lemma_fold_concat(merge, a0, f1 + f2 + f3 + f4 + f5 + f6 + f7 + f8 + f9 + f10, f11);
        v.lemma_member_dropped_events_count();
        lemma_fold_concat(merge, a0, f1 + f2 + f3 + f4 + f5 + f6 + f7 + f8 + f9 + f10 + f11, f12);
        v.lemma_member_links();
        lemma_fold_concat(
            merge,
            a0,
            f1 + f2 + f3 + f4 + f5 + f6 + f7 + f8 + f9 + f10 + f11 + f12,
            f13,
        );
        v.lemma_member_dropped_links_count();
        lemma_fold_concat(
            merge,
            a0,
            f1 + f2 + f3 + f4 + f5 + f6 + f7 + f8 + f9 + f10 + f11 + f12 + f13,
            f14,
        );
        v.lemma_member_status();
        lemma_fold_concat(
            merge,
            a0,
            f1 + f2 + f3 + f4 + f5 + f6 + f7 + f8 + f9 + f10 + f11 + f12 + f13 + f14,
            f15,
        );
        assert(v.first_members(15) == v);
    }

    /// Decoding what was written gives the message back, and so writing what was
    /// decoded from such bytes gives the bytes back. The length of the body must fit in
    /// 64 bits, as that of every message in memory does.
    pub proof fn lemma_round_trip(self)
        requires
            self.wire().len() <= u64::MAX,
        ensures
            Self::decode(self.wire()) == Some(self),
            Self::decode(self.wire()) matches Some(back) && back.wire() == self.wire(),
    {
        reveal(SpanView::wire);
        reveal(SpanView::decode);
        lemma_well_formed_by_len(self.fields());
        self.lemma_fold_fields();
        lemma_decode_fields(Self::merge_fn(), Self::default(), self.fields());
    }

    /// Decoding the framed message gives the message back, whatever follows it.
    pub proof fn lemma_framed_round_trip(self, rest: Seq<u8>)
        requires
            self.wire().len() <= u64::MAX,
        ensures
            parse_framed(framed(self.wire()) + rest) == Some(self.wire()),
            Self::decode(self.wire()) == Some(self),
    {
        lemma_frame_round_trip(self.wire(), rest);
        self.lemma_round_trip();
    }

    /// Fields of no member do not count, wherever they stand: the bytes decode to what
    /// the fields of members among them give.
    pub proof fn lemma_passes_over_unknown(b: Seq<u8>)
        ensures
            match parse_fields(b) {
                Some(fs) => Self::decode(b) == fold_fields(
                    Self::merge_fn(),
                    Self::default(),
                    fs.filter(|f: Field| Self::has_number(f.number)),
                ),
                None => Self::decode(b) is None,
            },
    {
        reveal(SpanView::decode);
        match parse_fields(b) {
            Some(fs) => {
                lemma_fold_passes_over(
                    Self::merge_fn(),
                    Self::default(),
                    fs,
                    |f: Field| Self::has_number(f.number),
                );
            },
            None => {},
        }
    }

    /// A field of no member, appended to bytes that decode, changes nothing: the bytes
    /// still decode, and to the same message.
    pub proof fn lemma_unknown_field(b: Seq<u8>, f: Field)
        requires
            Self::decode(b) is Some,
            !Self::has_number(f.number),
            well_formed(f),
        ensures
            Self::decode(b + field_bytes(f)) == Self::decode(b),
    {
        reveal(SpanView::decode);
        let fs = parse_fields(b)->Some_0;
        let all = b + field_bytes(f);
        lemma_fields_bytes_one(f);
        assert(all_well_formed(seq![f]));
        lemma_fields_round_trip(seq![f]);
        lemma_parse_fields_concat(b, field_bytes(f));
        let merge = Self::merge_fn();
        lemma_fold_concat(merge, Self::default(), fs, seq![f]);
        lemma_fold_one(merge, Self::decode(b)->Some_0, f);
    }

    /// Whether the member that the field number belongs to differs from its zero
    /// value. For a member that holds one of several kinds of value, whether the kind
    /// with this number is the one in force.
    pub open spec fn is_set(self, number: u32) -> bool {
        if number == 1 {
            self.trace_id.len() > 0
        } else if number == 2 {
            self.span_id.len() > 0
        } else if number == 3 {
            self.trace_state.len() > 0
        } else if number == 4 {
            self.parent_span_id.len() > 0
        } else if number == 5 {
            self.name.len() > 0
        } else if number == 6 {
            self.kind != SpanKind::SPAN_KIND_UNSPECIFIED
        } else if number == 7 {
            self.start_time_unix_nano != 0
        } else if number == 8 {
            self.end_time_unix_nano != 0
        } else if number == 9 {
            self.attributes.len() > 0
        } else if number == 10 {
            self.dropped_attributes_count != 0
        } else if number == 11 {
            self.events.len() > 0
        } else if number == 12 {
            self.dropped_events_count != 0
        } else if number == 13 {
            self.links.len() > 0
        } else if number == 14 {
            self.dropped_links_count != 0
        } else if number == 15 {
            self.status is Some
        } else {
            false
        }
    }

    /// A member at its zero value is not written: every field of the message belongs
    /// to a member that differs from its zero value.
    pub proof fn lemma_zero_members_omitted(self)
        ensures
            all_fields(self.fields(), |f: Field| self.is_set(f.number)),
    {
        let v = self;
        let set = |f: Field| self.is_set(f.number);
        let f1 = run_member(1, v.trace_id);
        let f2 = run_member(2, v.span_id);
        let f3 = run_member(3, encode_utf8(v.trace_state));
        let f4 = run_member(4, v.parent_span_id);
        let f5 = run_member(5, encode_utf8(v.name));
        let f6 = varint_member(6, v.kind.spec_number() as u64);
        let f7 = fixed64_member(7, v.start_time_unix_nano);
        let f8 = fixed64_member(8, v.end_time_unix_nano);
        let f9 = KeyValueView::repeated(9, v.attributes);
        let f10 = varint_member(10, v.dropped_attributes_count as u64);
        let f11 = SpanEventView::repeated(11, v.events);
        let f12 = varint_member(12, v.dropped_events_count as u64);
        let f13 = SpanLinkView::repeated(13, v.links);
        let f14 = varint_member(14, v.dropped_links_count as u64);
        let f15 = StatusView::optional(15, v.status);
        assert(all_fields(f1, set)) by {
        }
        assert(all_fields(f2, set)) by {
        }
        assert(all_fields(f3, set)) by {
            if v.trace_state.len() == 0 {
                assert(encode_utf8(v.trace_state) =~= Seq::<u8>::empty());
            }
        }
        assert(all_fields(f4, set)) by {
        }
        assert(all_fields(f5, set)) by {
            if v.name.len() == 0 {
                assert(encode_utf8(v.name) =~= Seq::<u8>::empty());
            }
        }
        assert(all_fields(f6, set)) by {
            v.kind.lemma_number_round_trip();
        }
        assert(all_fields(f7, set)) by {
        }
        assert(all_fields(f8, set)) by {
        }
        assert(all_fields(f9, set)) by {
        }
        assert(all_fields(f10, set)) by {
        }
        assert(all_fields(f11, set)) by {
        }
        assert(all_fields(f12, set)) by {
        }
        assert(all_fields(f13, set)) by {
        }
        assert(all_fields(f14, set)) by {
        }
        assert(all_fields(f15, set)) by {
        }
        lemma_all_fields_concat(f1, f2, set);
        lemma_all_fields_concat(f1 + f2, f3, set);
        lemma_all_fields_concat(f1 + f2 + f3, f4, set);
        lemma_all_fields_concat(f1 + f2 + f3 + f4, f5, set);
        lemma_all_fields_concat(f1 + f2 + f3 + f4 + f5, f6, set);
        lemma_all_fields_concat(f1 + f2 + f3 + f4 + f5 + f6, f7, set);
        lemma_all_fields_concat(f1 + f2 + f3 + f4 + f5 + f6 + f7, f8, set);
        lemma_all_fields_concat(f1 + f2 + f3 + f4 + f5 + f6 + f7 + f8, f9, set);
        lemma_all_fields_concat(f1 + f2 + f3 + f4 + f5 + f6 + f7 + f8 + f9, f10, set);
        lemma_all_fields_concat(f1 + f2 + f3 + f4 + f5 + f6 + f7 + f8 + f9 + f10, f11, set);
        lemma_all_fields_concat(f1 + f2 + f3 + f4 + f5 + f6 + f7 + f8 + f9 + f10 + f11, f12, set);
        lemma_all_fields_concat(
            f1 + f2 + f3 + f4 + f5 + f6 + f7 + f8 + f9 + f10 + f11 + f12,
            f13,
            set,
        );
        lemma_all_fields_concat(
            f1 + f2 + f3 + f4 + f5 + f6 + f7 + f8 + f9 + f10 + f11 + f12 + f13,
            f14,
            set,
        );
        lemma_all_fields_concat(
            f1 + f2 + f3 + f4 + f5 + f6 + f7 + f8 + f9 + f10 + f11 + f12 + f13 + f14,
            f15,
            set,
        );
    }

    /// The message with every member at its zero value is written as no byte at all.
    pub proof fn lemma_default_wire()
        ensures
            Self::default().fields() == Seq::<Field>::empty(),
            Self::default().wire() == Seq::<u8>::empty(),
    {
        let v = Self::default();
        assert(run_member(1, v.trace_id) =~= Seq::<Field>::empty());
        assert(run_member(2, v.span_id) =~= Seq::<Field>::empty());
        assert(run_member(3, encode_utf8(v.trace_state)) =~= Seq::<Field>::empty());
        assert(run_member(4, v.parent_span_id) =~= Seq::<Field>::empty());
        assert(run_member(5, encode_utf8(v.name)) =~= Seq::<Field>::empty());
        assert(varint_member(6, v.kind.spec_number() as u64) =~= Seq::<Field>::empty());
        assert(fixed64_member(7, v.start_time_unix_nano) =~= Seq::<Field>::empty());
        assert(fixed64_member(8, v.end_time_unix_nano) =~= Seq::<Field>::empty());
        assert(KeyValueView::repeated(9, v.attributes) =~= Seq::<Field>::empty());
        assert(varint_member(10, v.dropped_attributes_count as u64) =~= Seq::<Field>::empty());
        assert(SpanEventView::repeated(11, v.events) =~= Seq::<Field>::empty());
        assert(varint_member(12, v.dropped_events_count as u64) =~= Seq::<Field>::empty());
        assert(SpanLinkView::repeated(13, v.links) =~= Seq::<Field>::empty());
        assert(varint_member(14, v.dropped_links_count as u64) =~= Seq::<Field>::empty());
        assert(StatusView::optional(15, v.status) =~= Seq::<Field>::empty());
        assert(v.fields() =~= Seq::<Field>::empty());
        reveal(SpanView::wire);
    }
}

impl ScopeSpansView {
    /// The field numbers of the members.
    pub open spec fn has_number(number: u32) -> bool {
        number == 1 || number == 2 || number == 3
    }

    /// The message with its first `k` members as they are in `self`, and the others at
    /// their zero value.
    spec fn first_members(self, k: nat) -> Self {
        Self {
            scope: if k > 0 { self.scope } else { None },
            spans: if k > 1 { self.spans } else { Seq::empty() },
            schema_url: if k > 2 { self.schema_url } else { Seq::empty() },
        }
    }

    proof fn lemma_member_scope(self)
        requires
            fields_bytes(InstrumentationScopeView::optional(1, self.scope)).len() <= u64::MAX,
        ensures
            fold_fields(
                Self::merge_fn(),
                self.first_members(0),
                InstrumentationScopeView::optional(1, self.scope),
            ) == Some(self.first_members(1)),
    {
        let v = self;
        let merge = Self::merge_fn();
        let f1 = InstrumentationScopeView::optional(1, v.scope);
        let a0 = v.first_members(0);
        match v.scope {
            Some(x) => {
                let f = Field { number: 1, payload: Payload::Run(x.wire()) };
                assert(f1 =~= seq![f]);
                lemma_run_shorter(f1, 0);
                x.lemma_round_trip();
                lemma_fold_one(merge, a0, f);
            },
            None => {},
        }
    }

    proof fn lemma_member_spans(self)
        requires
            fields_bytes(SpanView::repeated(2, self.spans)).len() <= u64::MAX,
        ensures
            fold_fields(
                Self::merge_fn(),
                self.first_members(1),
                SpanView::repeated(2, self.spans),
            ) == Some(self.first_members(2)),
    {
        let v = self;
        let merge = Self::merge_fn();
        let f2 = SpanView::repeated(2, v.spans);
        let a1 = v.first_members(1);
        let a2 = v.first_members(2);
        let states = |i: int| Self { spans: v.spans.take(i), ..v.first_members(1) };
        assert forall|i: int| 0 <= i < f2.len() implies merge(states(i), #[trigger] f2[i]) == Some(
            states(i + 1),
        ) by {
            lemma_run_shorter(f2, i);
            v.spans[i].lemma_round_trip();
            assert(v.spans.take(i).push(v.spans[i]) =~= v.spans.take(i + 1));
        }
        lemma_fold_chain(merge, f2, states);
        assert(v.spans.take(0) =~= Seq::<SpanView>::empty());
        assert(v.spans.take(v.spans.len() as int) =~= v.spans);
        assert(states(0) == a1);
        assert(states(f2.len() as int) == a2);
    }

    proof fn lemma_member_schema_url(self)
        ensures
            fold_fields(
                Self::merge_fn(),
                self.first_members(2),
                run_member(3, encode_utf8(self.schema_url)),
            ) == Some(self.first_members(3)),
    {
        let v = self;
        let merge = Self::merge_fn();
        let f3 = run_member(3, encode_utf8(v.schema_url));
        let a2 = v.first_members(2);
        encode_utf8_valid_utf8(v.schema_url);
        encode_utf8_decode_utf8(v.schema_url);
        let f = Field { number: 3, payload: Payload::Run(encode_utf8(v.schema_url)) };
        lemma_fold_one(merge, a2, f);
        if f3.len() == 0 {
            assert(v.schema_url =~= Seq::<char>::empty());
        }
        assert(run_member(3, encode_utf8(v.schema_url)).len() <= 1);
    }

    /// Merging the fields that the message is written as, into the message with every
    /// member at its zero value, gives the message.
    pub proof fn lemma_fold_fields(self)
        requires
            self.wire().len() <= u64::MAX,
        ensures
            fold_fields(Self::merge_fn(), Self::default(), self.fields()) == Some(self),
    {
        let v = self;
        let merge = Self::merge_fn();
        let f1 = InstrumentationScopeView::optional(1, v.scope);
        let f2 = SpanView::repeated(2, v.spans);
        let f3 = run_member(3, encode_utf8(v.schema_url));
        let a0 = v.first_members(0);
        assert(a0 == Self::default());
        reveal(ScopeSpansView::wire);
        lemma_fields_bytes_concat(f1, f2);
        lemma_fields_bytes_concat(f1 + f2, f3);
        v.lemma_member_scope();
        v.lemma_member_spans();
        lemma_fold_concat(merge, a0, f1, f2);
        v.lemma_member_schema_url();
        lemma_fold_concat(merge, a0, f1 + f2, f3);
        assert(v.first_members(3) == v);
    }

    /// Decoding what was written gives the message back, and so writing what was
    /// decoded from such bytes gives the bytes back. The length of the body must fit in
    /// 64 bits, as that of every message in memory does.
    pub proof fn lemma_round_trip(self)
        requires
            self.wire().len() <= u64::MAX,
        ensures
            Self::decode(self.wire()) == Some(self),
            Self::decode(self.wire()) matches Some(back) && back.wire() == self.wire(),
    {
        reveal(ScopeSpansView::wire);
        reveal(ScopeSpansView::decode);
        lemma_well_formed_by_len(self.fields());
        self.lemma_fold_fields();
        lemma_decode_fields(Self::merge_fn(), Self::default(), self.fields());
    }

    /// Decoding the framed message gives the message back, whatever follows it.
    pub proof fn lemma_framed_round_trip(self, rest: Seq<u8>)
        requires
            self.wire().len() <= u64::MAX,
        ensures
            parse_framed(framed(self.wire()) + rest) == Some(self.wire()),
            Self::decode(self.wire()) == Some(self),
    {
        lemma_frame_round_trip(self.wire(), rest);
        self.lemma_round_trip();
    }

    /// Fields of no member do not count, wherever they stand: the bytes decode to what
    /// the fields of members among them give.
    pub proof fn lemma_passes_over_unknown(b: Seq<u8>)
        ensures
            match parse_fields(b) {
                Some(fs) => Self::decode(b) == fold_fields(
                    Self::merge_fn(),
                    Self::default(),
                    fs.filter(|f: Field| Self::has_number(f.number)),
                ),
                None => Self::decode(b) is None,
            },
    {
        reveal(ScopeSpansView::decode);
        match parse_fields(b) {
            Some(fs) => {
                lemma_fold_passes_over(
                    Self::merge_fn(),
                    Self::default(),
                    fs,
                    |f: Field| Self::has_number(f.number),
                );
            },
            None => {},
        }
    }

    /// A field of no member, appended to bytes that decode, changes nothing: the bytes
    /// still decode, and to the same message.
    pub proof fn lemma_unknown_field(b: Seq<u8>, f: Field)
        requires
            Self::decode(b) is Some,
            !Self::has_number(f.number),
            well_formed(f),
        ensures
            Self::decode(b + field_bytes(f)) == Self::decode(b),
    {
        reveal(ScopeSpansView::decode);
        let fs = parse_fields(b)->Some_0;
        let all = b + field_bytes(f);
        lemma_fields_bytes_one(f);
        assert(all_well_formed(seq![f]));
        lemma_fields_round_trip(seq![f]);
        lemma_parse_fields_concat(b, field_bytes(f));
        let merge = Self::merge_fn();
        lemma_fold_concat(merge, Self::default(), fs, seq![f]);
        lemma_fold_one(merge, Self::decode(b)->Some_0, f);
    }

    /// Whether the member that the field number belongs to differs from its zero
    /// value. For a member that holds one of several kinds of value, whether the kind
    /// with this number is the one in force.
    pub open spec fn is_set(self, number: u32) -> bool {
        if number == 1 {
            self.scope is Some
        } else if number == 2 {
            self.spans.len() > 0
        } else if number == 3 {
            self.schema_url.len() > 0
        } else {
            false
        }
    }

    /// A member at its zero value is not written: every field of the message belongs
    /// to a member that differs from its zero value.
    pub proof fn lemma_zero_members_omitted(self)
        ensures
            all_fields(self.fields(), |f: Field| self.is_set(f.number)),
    {
        let v = self;
        let set = |f: Field| self.is_set(f.number);
        let f1 = InstrumentationScopeView::optional(1, v.scope);
        let f2 = SpanView::repeated(2, v.spans);
        let f3 = run_member(3, encode_utf8(v.schema_url));
        assert(all_fields(f1, set)) by {
        }
        assert(all_fields(f2, set)) by {
        }
        assert(all_fields(f3, set)) by {
            if v.schema_url.len() == 0 {
                assert(encode_utf8(v.schema_url) =~= Seq::<u8>::empty());
            }
        }
        lemma_all_fields_concat(f1, f2, set);
        lemma_all_fields_concat(f1 + f2, f3, set);
    }

    /// The message with every member at its zero value is written as no byte at all.
    pub proof fn lemma_default_wire()
        ensures
            Self::default().fields() == Seq::<Field>::empty(),
            Self::default().wire() == Seq::<u8>::empty(),
    {
        let v = Self::default();
        assert(InstrumentationScopeView::optional(1, v.scope) =~= Seq::<Field>::empty());
        assert(SpanView::repeated(2, v.spans) =~= Seq::<Field>::empty());
        assert(run_member(3, encode_utf8(v.schema_url)) =~= Seq::<Field>::empty());
        assert(v.fields() =~= Seq::<Field>::empty());
        reveal(ScopeSpansView::wire);
    }
}

impl ResourceSpansView {
    /// The field numbers of the members.
    pub open spec fn has_number(number: u32) -> bool {
        number == 1 || number == 2 || number == 3
    }

    /// The message with its first `k` members as they are in `self`, and the others at
    /// their zero value.
    spec fn first_members(self, k: nat) -> Self {
        Self {
            resource: if k > 0 { self.resource } else { None },
            scope_spans: if k > 1 { self.scope_spans } else { Seq::empty() },
            schema_url: if k > 2 { self.schema_url } else { Seq::empty() },
        }
    }

    proof fn lemma_member_resource(self)
        requires
            fields_bytes(ResourceView::optional(1, self.resource)).len() <= u64::MAX,
        ensures
            fold_fields(
                Self::merge_fn(),
                self.first_members(0),
                ResourceView::optional(1, self.resource),
            ) == Some(self.first_members(1)),
    {
        let v = self;
        let merge = Self::merge_fn();
        let f1 = ResourceView::optional(1, v.resource);
        let a0 = v.first_members(0);
        match v.resource {
            Some(x) => {
                let f = Field { number: 1, payload: Payload::Run(x.wire()) };
                assert(f1 =~= seq![f]);
                lemma_run_shorter(f1, 0);
                x.lemma_round_trip();
                lemma_fold_one(merge, a0, f);
            },
            None => {},
        }
    }

    proof fn lemma_member_scope_spans(self)
        requires
            fields_bytes(ScopeSpansView::repeated(2, self.scope_spans)).len() <= u64::MAX,
        ensures
            fold_fields(
                Self::merge_fn(),
                self.first_members(1),
                ScopeSpansView::repeated(2, self.scope_spans),
            ) == Some(self.first_members(2)),
    {
        let v = self;
        let merge = Self::merge_fn();
        let f2 = ScopeSpansView::repeated(2, v.scope_spans);
        let a1 = v.first_members(1);
        let a2 = v.first_members(2);
        let states = |i: int| Self { scope_spans: v.scope_spans.take(i), ..v.first_members(1) };
        assert forall|i: int| 0 <= i < f2.len() implies merge(states(i), #[trigger] f2[i]) == Some(
            states(i + 1),
        ) by {
            lemma_run_shorter(f2, i);
            v.scope_spans[i].lemma_round_trip();
            assert(v.scope_spans.take(i).push(v.scope_spans[i]) =~= v.scope_spans.take(i + 1));
        }
        lemma_fold_chain(merge, f2, states);
        assert(v.scope_spans.take(0) =~= Seq::<ScopeSpansView>::empty());
        assert(v.scope_spans.take(v.scope_spans.len() as int) =~= v.scope_spans);
        assert(states(0) == a1);
        assert(states(f2.len() as int) == a2);
    }

    proof fn lemma_member_schema_url(self)
        ensures
            fold_fields(
                Self::merge_fn(),
                self.first_members(2),
                run_member(3, encode_utf8(self.schema_url)),
            ) == Some(self.first_members(3)),
    {
        let v = self;
        let merge = Self::merge_fn();
        let f3 = run_member(3, encode_utf8(v.schema_url));
        let a2 = v.first_members(2);
        encode_utf8_valid_utf8(v.schema_url);
        encode_utf8_decode_utf8(v.schema_url);
        let f = Field { number: 3, payload: Payload::Run(encode_utf8(v.schema_url)) };
        lemma_fold_one(merge, a2, f);
        if f3.len() == 0 {
            assert(v.schema_url =~= Seq::<char>::empty());
        }
        assert(run_member(3, encode_utf8(v.schema_url)).len() <= 1);
    }

    /// Merging the fields that the message is written as, into the message with every
    /// member at its zero value, gives the message.
    pub proof fn lemma_fold_fields(self)
        requires
            self.wire().len() <= u64::MAX,
        ensures
            fold_fields(Self::merge_fn(), Self::default(), self.fields()) == Some(self),
    {
        let v = self;
        let merge = Self::merge_fn();
        let f1 = ResourceView::optional(1, v.resource);
        let f2 = ScopeSpansView::repeated(2, v.scope_spans);
        let f3 = run_member(3, encode_utf8(v.schema_url));
        let a0 = v.first_members(0);
        assert(a0 == Self::default());
        reveal(ResourceSpansView::wire);
        lemma_fields_bytes_concat(f1, f2);
        lemma_fields_bytes_concat(f1 + f2, f3);
        v.lemma_member_resource();
        v.lemma_member_scope_spans();
        lemma_fold_concat(merge, a0, f1, f2);
        v.lemma_member_schema_url();
        lemma_fold_concat(merge, a0, f1 + f2, f3);
        assert(v.first_members(3) == v);
    }

    /// Decoding what was written gives the message back, and so writing what was
    /// decoded from such bytes gives the bytes back. The length of the body must fit in
    /// 64 bits, as that of every message in memory does.
    pub proof fn lemma_round_trip(self)
        requires
            self.wire().len() <= u64::MAX,
        ensures
            Self::decode(self.wire()) == Some(self),
            Self::decode(self.wire()) matches Some(back) && back.wire() == self.wire(),
    {
        reveal(ResourceSpansView::wire);
        reveal(ResourceSpansView::decode);
        lemma_well_formed_by_len(self.fields());
        self.lemma_fold_fields();
        lemma_decode_fields(Self::merge_fn(), Self::default(), self.fields());
    }

    /// Decoding the framed message gives the message back, whatever follows it.
    pub proof fn lemma_framed_round_trip(self, rest: Seq<u8>)
        requires
            self.wire().len() <= u64::MAX,
        ensures
            parse_framed(framed(self.wire()) + rest) == Some(self.wire()),
            Self::decode(self.wire()) == Some(self),
    {
        lemma_frame_round_trip(self.wire(), rest);
        self.lemma_round_trip();
    }

    /// Fields of no member do not count, wherever they stand: the bytes decode to what
    /// the fields of members among them give.
    pub proof fn lemma_passes_over_unknown(b: Seq<u8>)
        ensures
            match parse_fields(b) {
                Some(fs) => Self::decode(b) == fold_fields(
                    Self::merge_fn(),
                    Self::default(),
                    fs.filter(|f: Field| Self::has_number(f.number)),
                ),
                None => Self::decode(b) is None,
            },
    {
        reveal(ResourceSpansView::decode);
        match parse_fields(b) {
            Some(fs) => {
                lemma_fold_passes_over(
                    Self::merge_fn(),
                    Self::default(),
                    fs,
                    |f: Field| Self::has_number(f.number),
                );
            },
            None => {},
        }
    }

    /// A field of no member, appended to bytes that decode, changes nothing: the bytes
    /// still decode, and to the same message.
    pub proof fn lemma_unknown_field(b: Seq<u8>, f: Field)
        requires
            Self::decode(b) is Some,
            !Self::has_number(f.number),
            well_formed(f),
        ensures
            Self::decode(b + field_bytes(f)) == Self::decode(b),
    {
        reveal(ResourceSpansView::decode);
        let fs = parse_fields(b)->Some_0;
        let all = b + field_bytes(f);
        lemma_fields_bytes_one(f);
        assert(all_well_formed(seq![f]));
        lemma_fields_round_trip(seq![f]);
        lemma_parse_fields_concat(b, field_bytes(f));
        let merge = Self::merge_fn();
        lemma_fold_concat(merge, Self::default(), fs, seq![f]);
        lemma_fold_one(merge, Self::decode(b)->Some_0, f);
    }

    /// Whether the member that the field number belongs to differs from its zero
    /// value. For a member that holds one of several kinds of value, whether the kind
    /// with this number is the one in force.
    pub open spec fn is_set(self, number: u32) -> bool {
        if number == 1 {
            self.resource is Some
        } else if number == 2 {
            self.scope_spans.len() > 0
        } else if number == 3 {
            self.schema_url.len() > 0
        } else {
            false
        }
    }

    /// A member at its zero value is not written: every field of the message belongs
    /// to a member that differs from its zero value.
    pub proof fn lemma_zero_members_omitted(self)
        ensures
            all_fields(self.fields(), |f: Field| self.is_set(f.number)),
    {
        let v = self;
        let set = |f: Field| self.is_set(f.number);
        let f1 = ResourceView::optional(1, v.resource);
        let f2 = ScopeSpansView::repeated(2, v.scope_spans);
        let f3 = run_member(3, encode_utf8(v.schema_url));
        assert(all_fields(f1, set)) by {
        }
        assert(all_fields(f2, set)) by {
        }
        assert(all_fields(f3, set)) by {
            if v.schema_url.len() == 0 {
                assert(encode_utf8(v.schema_url) =~= Seq::<u8>::empty());
            }
        }
        lemma_all_fields_concat(f1, f2, set);
        lemma_all_fields_concat(f1 + f2, f3, set);
    }

    /// The message with every member at its zero value is written as no byte at all.
    pub proof fn lemma_default_wire()
        ensures
            Self::default().fields() == Seq::<Field>::empty(),
            Self::default().wire() == Seq::<u8>::empty(),
    {
        let v = Self::default();
        assert(ResourceView::optional(1, v.resource) =~= Seq::<Field>::empty());
        assert(ScopeSpansView::repeated(2, v.scope_spans) =~= Seq::<Field>::empty());
        assert(run_member(3, encode_utf8(v.schema_url)) =~= Seq::<Field>::empty());
        assert(v.fields() =~= Seq::<Field>::empty());
        reveal(ResourceSpansView::wire);
    }
}

impl ExportTraceServiceRequestView {
    /// The field numbers of the members.
    pub open spec fn has_number(number: u32) -> bool {
        number == 1
    }

    /// The message with its first `k` members as they are in `self`, and the others at
    /// their zero value.
    spec fn first_members(self, k: nat) -> Self {
        Self {
            resource_spans: if k > 0 { self.resource_spans } else { Seq::empty() },
        }
    }

    proof fn lemma_member_resource_spans(self)
        requires
            fields_bytes(ResourceSpansView::repeated(1, self.resource_spans)).len() <= u64::MAX,
        ensures
            fold_fields(
                Self::merge_fn(),
                self.first_members(0),
                ResourceSpansView::repeated(1, self.resource_spans),
            ) == Some(self.first_members(1)),
    {
        let v = self;
        let merge = Self::merge_fn();
        let f1 = ResourceSpansView::repeated(1, v.resource_spans);
        let a0 = v.first_members(0);
        let a1 = v.first_members(1);
        let states = |i: int| Self { resource_spans: v.resource_spans.take(i) };
        assert forall|i: int| 0 <= i < f1.len() implies merge(states(i), #[trigger] f1[i]) == Some(
            states(i + 1),
        ) by {
            lemma_run_shorter(f1, i);
            v.resource_spans[i].lemma_round_trip();
            assert(
                v.resource_spans.take(i).push(v.resource_spans[i]) =~= v.resource_spans.take(i + 1)
            );
        }
        lemma_fold_chain(merge, f1, states);
        assert(v.resource_spans.take(0) =~= Seq::<ResourceSpansView>::empty());
        assert(v.resource_spans.take(v.resource_spans.len() as int) =~= v.resource_spans);
        assert(states(0) == a0);
        assert(states(f1.len() as int) == a1);
    }

    /// Merging the fields that the message is written as, into the message with every
    /// member at its zero value, gives the message.
    pub proof fn lemma_fold_fields(self)
        requires
            self.wire().len() <= u64::MAX,
        ensures
            fold_fields(Self::merge_fn(), Self::default(), self.fields()) == Some(self),
    {
        let v = self;
        let merge = Self::merge_fn();
        let f1 = ResourceSpansView::repeated(1, v.resource_spans);
        let a0 = v.first_members(0);
        assert(a0 == Self::default());
        reveal(ExportTraceServiceRequestView::wire);
        v.lemma_member_resource_spans();
        assert(v.first_members(1) == v);
    }

    /// Decoding what was written gives the message back, and so writing what was
    /// decoded from such bytes gives the bytes back. The length of the body must fit in
    /// 64 bits, as that of every message in memory does.
    pub proof fn lemma_round_trip(self)
        requires
            self.wire().len() <= u64::MAX,
        ensures
            Self::decode(self.wire()) == Some(self),
            Self::decode(self.wire()) matches Some(back) && back.wire() == self.wire(),
    {
        reveal(ExportTraceServiceRequestView::wire);
        reveal(ExportTraceServiceRequestView::decode);
        lemma_well_formed_by_len(self.fields());
        self.lemma_fold_fields();
        lemma_decode_fields(Self::merge_fn(), Self::default(), self.fields());
    }

    /// Decoding the framed message gives the message back, whatever follows it.
    pub proof fn lemma_framed_round_trip(self, rest: Seq<u8>)
        requires
            self.wire().len() <= u64::MAX,
        ensures
            parse_framed(framed(self.wire()) + rest) == Some(self.wire()),
            Self::decode(self.wire()) == Some(self),
    {
        lemma_frame_round_trip(self.wire(), rest);
        self.lemma_round_trip();
    }

    /// Fields of no member do not count, wherever they stand: the bytes decode to what
    /// the fields of members among them give.
    pub proof fn lemma_passes_over_unknown(b: Seq<u8>)
        ensures
            match parse_fields(b) {
                Some(fs) => Self::decode(b) == fold_fields(
                    Self::merge_fn(),
                    Self::default(),
                    fs.filter(|f: Field| Self::has_number(f.number)),
                ),
                None => Self::decode(b) is None,
            },
    {
        reveal(ExportTraceServiceRequestView::decode);
        match parse_fields(b) {
            Some(fs) => {
                lemma_fold_passes_over(
                    Self::merge_fn(),
                    Self::default(),
                    fs,
                    |f: Field| Self::has_number(f.number),
                );
            },
            None => {},
        }
    }

    /// A field of no member, appended to bytes that decode, changes nothing: the bytes
    /// still decode, and to the same message.
    pub proof fn lemma_unknown_field(b: Seq<u8>, f: Field)
        requires
            Self::decode(b) is Some,
            !Self::has_number(f.number),
            well_formed(f),
        ensures
            Self::decode(b + field_bytes(f)) == Self::decode(b),
    {
        reveal(ExportTraceServiceRequestView::decode);
        let fs = parse_fields(b)->Some_0;
        let all = b + field_bytes(f);
        lemma_fields_bytes_one(f);
        assert(all_well_formed(seq![f]));
        lemma_fields_round_trip(seq![f]);
        lemma_parse_fields_concat(b, field_bytes(f));
        let merge = Self::merge_fn();
        lemma_fold_concat(merge, Self::default(), fs, seq![f]);
        lemma_fold_one(merge, Self::decode(b)->Some_0, f);
    }

    /// Whether the member that the field number belongs to differs from its zero
    /// value. For a member that holds one of several kinds of value, whether the kind
    /// with this number is the one in force.
    pub open spec fn is_set(self, number: u32) -> bool {
        if number == 1 {
            self.resource_spans.len() > 0
        } else {
            false
        }
    }

    /// A member at its zero value is not written: every field of the message belongs
    /// to a member that differs from its zero value.
    pub proof fn lemma_zero_members_omitted(self)
        ensures
            all_fields(self.fields(), |f: Field| self.is_set(f.number)),
    {
        let v = self;
        let set = |f: Field| self.is_set(f.number);
        let f1 = ResourceSpansView::repeated(1, v.resource_spans);
        assert(all_fields(f1, set)) by {
        }
    }

    /// The message with every member at its zero value is written as no byte at all.
    pub proof fn lemma_default_wire()
        ensures
            Self::default().fields() == Seq::<Field>::empty(),
            Self::default().wire() == Seq::<u8>::empty(),
    {
        let v = Self::default();
        assert(ResourceSpansView::repeated(1, v.resource_spans) =~= Seq::<Field>::empty());
        assert(v.fields() =~= Seq::<Field>::empty());
        reveal(ExportTraceServiceRequestView::wire);
    }
}

} // verus!
