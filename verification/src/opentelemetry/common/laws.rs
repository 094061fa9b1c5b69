//! What holds of the wire format of the common family: a message that was written
//! reads back as itself, a message at its zero value takes no bytes, and a field of
//! no member does no harm.

use crate::field::{
    Field, Payload, all_fields, all_well_formed, field_bytes, fields_bytes, fold_fields,
    lemma_all_fields_concat, lemma_decode_fields, lemma_fields_bytes_concat, lemma_fields_bytes_one,
    lemma_fields_round_trip, lemma_fold_chain, lemma_fold_concat, lemma_fold_one,
    lemma_fold_passes_over, lemma_fold_same, lemma_parse_fields_concat, lemma_parsed_runs_shorter,
    lemma_run_shorter, lemma_well_formed_by_len, parse_fields, well_formed,
};
use crate::member::{framed, lemma_frame_round_trip, parse_framed, run_member, varint_member};
use crate::opentelemetry::common::types::{
    AnyValueOneOfvalueView, AnyValueView, ArrayValueView, InstrumentationScopeView,
    KeyValueListView, KeyValueView, ResourceView,
};
use crate::wire::unsigned64;
use vstd::prelude::*;
use vstd::utf8::{encode_utf8, encode_utf8_decode_utf8, encode_utf8_valid_utf8};

verus! {

impl AnyValueView {
    /// The field numbers of the members.
    pub open spec fn has_number(number: u32) -> bool {
        number == 1
            || number == 2
            || number == 3
            || number == 4
            || number == 5
            || number == 6
            || number == 7
    }

    /// The message with its first `k` members as they are in `self`, and the others at
    /// their zero value.
    spec fn first_members(self, k: nat) -> Self {
        Self {
            value: if k > 0 { self.value } else { AnyValueOneOfvalueView::Unset },
        }
    }

    proof fn lemma_member_value(self, budget: nat)
        requires
            fields_bytes(self.value.fields()).len() <= u64::MAX,
            fields_bytes(self.value.fields()).len() <= budget,
        ensures
            fold_fields(
                Self::merge_fn(budget),
                self.first_members(0),
                self.value.fields(),
            ) == Some(self.first_members(1)),
        decreases self, 0int,
    {
        let v = self;
        let merge = Self::merge_fn(budget);
        let f1 = v.value.fields();
        let a0 = v.first_members(0);
        match v.value {
            AnyValueOneOfvalueView::string_value(x) => {
                encode_utf8_valid_utf8(x);
                encode_utf8_decode_utf8(x);
                let f = Field { number: 1, payload: Payload::Run(encode_utf8(x)) };
                assert(f1 =~= seq![f]);
                lemma_fold_one(merge, a0, f);
            },
            AnyValueOneOfvalueView::bool_value(x) => {
                let f = Field { number: 2, payload: Payload::Varint(if x { 1u64 } else { 0u64 }) };
                assert(f1 =~= seq![f]);
                lemma_fold_one(merge, a0, f);
            },
            AnyValueOneOfvalueView::int_value(x) => {
                let f = Field { number: 3, payload: Payload::Varint(unsigned64(x)) };
                assert(f1 =~= seq![f]);
                lemma_fold_one(merge, a0, f);
            },
            AnyValueOneOfvalueView::double_value(x) => {
                let f = Field { number: 4, payload: Payload::Fixed64(x) };
                assert(f1 =~= seq![f]);
                lemma_fold_one(merge, a0, f);
            },
            AnyValueOneOfvalueView::array_value(x) => {
                let f = Field { number: 5, payload: Payload::Run(x.wire()) };
                assert(f1 =~= seq![f]);
                lemma_run_shorter(f1, 0);
                x.lemma_round_trip();
                lemma_fold_one(merge, a0, f);
            },
            AnyValueOneOfvalueView::kvlist_value(x) => {
                let f = Field { number: 6, payload: Payload::Run(x.wire()) };
                assert(f1 =~= seq![f]);
                lemma_run_shorter(f1, 0);
                x.lemma_round_trip();
                lemma_fold_one(merge, a0, f);
            },
            AnyValueOneOfvalueView::bytes_value(x) => {
                let f = Field { number: 7, payload: Payload::Run(x) };
                assert(f1 =~= seq![f]);
                lemma_fold_one(merge, a0, f);
            },
            AnyValueOneOfvalueView::Unset => {},
        }
    }

    /// Merging the fields that the message is written as, into the message with every
    /// member at its zero value, gives the message.
    pub proof fn lemma_fold_fields(self, budget: nat)
        requires
            self.wire().len() <= u64::MAX,
            self.wire().len() <= budget,
        ensures
            fold_fields(Self::merge_fn(budget), Self::default(), self.fields()) == Some(self),
        decreases self, 1int,
    {
        let v = self;
        let merge = Self::merge_fn(budget);
        let f1 = v.value.fields();
        let a0 = v.first_members(0);
        assert(a0 == Self::default());
        v.lemma_member_value(budget);
        assert(v.first_members(1) == v);
    }

    /// Decoding what was written gives the message back, and so writing what was
    /// decoded from such bytes gives the bytes back. The length of the body must fit in
    /// 64 bits, as that of every message in memory does.
    pub proof fn lemma_round_trip(self)
        requires
            self.wire().len() <= u64::MAX,
        ensures
            Self::decode(self.wire()) == Some(self),
            Self::decode(self.wire()) matches Some(back) && back.wire() == self.wire(),
        decreases self, 2int,
    {
        lemma_well_formed_by_len(self.fields());
        self.lemma_fold_fields(self.wire().len());
        lemma_decode_fields(Self::merge_fn(self.wire().len()), Self::default(), self.fields());
    }

    /// Decoding the framed message gives the message back, whatever follows it.
    pub proof fn lemma_framed_round_trip(self, rest: Seq<u8>)
        requires
            self.wire().len() <= u64::MAX,
        ensures
            parse_framed(framed(self.wire()) + rest) == Some(self.wire()),
            Self::decode(self.wire()) == Some(self),
    {
        lemma_frame_round_trip(self.wire(), rest);
        self.lemma_round_trip();
    }

    /// Fields of no member do not count, wherever they stand: the bytes decode to what
    /// the fields of members among them give.
    pub proof fn lemma_passes_over_unknown(b: Seq<u8>)
        ensures
            match parse_fields(b) {
                Some(fs) => Self::decode(b) == fold_fields(
                    Self::merge_fn(b.len()),
                    Self::default(),
                    fs.filter(|f: Field| Self::has_number(f.number)),
                ),
                None => Self::decode(b) is None,
            },
    {
        match parse_fields(b) {
            Some(fs) => {
                lemma_fold_passes_over(
                    Self::merge_fn(b.len()),
                    Self::default(),
                    fs,
                    |f: Field| Self::has_number(f.number),
                );
            },
            None => {},
        }
    }

    /// A field of no member, appended to bytes that decode, changes nothing: the bytes
    /// still decode, and to the same message.
    pub proof fn lemma_unknown_field(b: Seq<u8>, f: Field)
        requires
            Self::decode(b) is Some,
            !Self::has_number(f.number),
            well_formed(f),
        ensures
            Self::decode(b + field_bytes(f)) == Self::decode(b),
    {
        let fs = parse_fields(b)->Some_0;
        let all = b + field_bytes(f);
        lemma_fields_bytes_one(f);
        assert(all_well_formed(seq![f]));
        lemma_fields_round_trip(seq![f]);
        lemma_parse_fields_concat(b, field_bytes(f));
        let merge = Self::merge_fn(all.len());
        lemma_parsed_runs_shorter(b);
        lemma_fold_same(Self::merge_fn(b.len()), merge, Self::default(), fs);
        lemma_fold_concat(merge, Self::default(), fs, seq![f]);
        lemma_fold_one(merge, Self::decode(b)->Some_0, f);
    }

    /// Whether the member that the field number belongs to differs from its zero
    /// value. For a member that holds one of several kinds of value, whether the kind
    /// with this number is the one in force.
    pub open spec fn is_set(self, number: u32) -> bool {
        if number == 1 {
            self.value is string_value
        } else if number == 2 {
            self.value is bool_value
        } else if number == 3 {
            self.value is int_value
        } else if number == 4 {
            self.value is double_value
        } else if number == 5 {
            self.value is array_value
        } else if number == 6 {
            self.value is kvlist_value
        } else if number == 7 {
            self.value is bytes_value
        } else {
            false
        }
    }

    /// A member at its zero value is not written: every field of the message belongs
    /// to a member that differs from its zero value.
    pub proof fn lemma_zero_members_omitted(self)
        ensures
            all_fields(self.fields(), |f: Field| self.is_set(f.number)),
    {
        let v = self;
        let set = |f: Field| self.is_set(f.number);
        let f1 = v.value.fields();
        assert(all_fields(f1, set)) by {
        }
    }

    /// The message with every member at its zero value is written as no byte at all.
    pub proof fn lemma_default_wire()
        ensures
            Self::default().fields() == Seq::<Field>::empty(),
            Self::default().wire() == Seq::<u8>::empty(),
    {
        let v = Self::default();
        assert(v.value.fields() =~= Seq::<Field>::empty());
        assert(v.fields() =~= Seq::<Field>::empty());
    }
}

impl ArrayValueView {
    /// The field numbers of the members.
    pub open spec fn has_number(number: u32) -> bool {
        number == 1
    }

    /// The message with its first `k` members as they are in `self`, and the others at
    /// their zero value.
    spec fn first_members(self, k: nat) -> Self {
        Self {
            values: if k > 0 { self.values } else { Seq::empty() },
        }
    }

    proof fn lemma_member_values(self, budget: nat)
        requires
            fields_bytes(AnyValueView::repeated(1, self.values)).len() <= u64::MAX,
            fields_bytes(AnyValueView::repeated(1, self.values)).len() <= budget,
        ensures
            fold_fields(
                Self::merge_fn(budget),
                self.first_members(0),
                AnyValueView::repeated(1, self.values),
            ) == Some(self.first_members(1)),
        decreases self, 0int,
    {
        let v = self;
        let merge = Self::merge_fn(budget);
        let f1 = AnyValueView::repeated(1, v.values);
        let a0 = v.first_members(0);
        let a1 = v.first_members(1);
        let states = |i: int| Self { values: v.values.take(i) };
        assert forall|i: int| 0 <= i < f1.len() implies merge(states(i), #[trigger] f1[i]) == Some(
            states(i + 1),
        ) by {
            lemma_run_shorter(f1, i);
            v.values[i].lemma_round_trip();
            assert(v.values.take(i).push(v.values[i]) =~= v.values.take(i + 1));
        }
        lemma_fold_chain(merge, f1, states);
        assert(v.values.take(0) =~= Seq::<AnyValueView>::empty());
        assert(v.values.take(v.values.len() as int) =~= v.values);
        assert(states(0) == a0);
        assert(states(f1.len() as int) == a1);
    }

    /// Merging the fields that the message is written as, into the message with every
    /// member at its zero value, gives the message.
    pub proof fn lemma_fold_fields(self, budget: nat)
        requires
            self.wire().len() <= u64::MAX,
            self.wire().len() <= budget,
        ensures
            fold_fields(Self::merge_fn(budget), Self::default(), self.fields()) == Some(self),
        decreases self, 1int,
    {
        let v = self;
        let merge = Self::merge_fn(budget);
        let f1 = AnyValueView::repeated(1, v.values);
        let a0 = v.first_members(0);
        assert(a0 == Self::default());
        v.lemma_member_values(budget);
        assert(v.first_members(1) == v);
    }

    /// Decoding what was written gives the message back, and so writing what was
    /// decoded from such bytes gives the bytes back. The length of the body must fit in
    /// 64 bits, as that of every message in memory does.
    pub proof fn lemma_round_trip(self)
        requires
            self.wire().len() <= u64::MAX,
        ensures
            Self::decode(self.wire()) == Some(self),
            Self::decode(self.wire()) matches Some(back) && back.wire() == self.wire(),
        decreases self, 2int,
    {
        lemma_well_formed_by_len(self.fields());
        self.lemma_fold_fields(self.wire().len());
        lemma_decode_fields(Self::merge_fn(self.wire().len()), Self::default(), self.fields());
    }

    /// Decoding the framed message gives the message back, whatever follows it.
    pub proof fn lemma_framed_round_trip(self, rest: Seq<u8>)
        requires
            self.wire().len() <= u64::MAX,
        ensures
            parse_framed(framed(self.wire()) + rest) == Some(self.wire()),
            Self::decode(self.wire()) == Some(self),
    {
        lemma_frame_round_trip(self.wire(), rest);
        self.lemma_round_trip();
    }

    /// Fields of no member do not count, wherever they stand: the bytes decode to what
    /// the fields of members among them give.
    pub proof fn lemma_passes_over_unknown(b: Seq<u8>)
        ensures
            match parse_fields(b) {
                Some(fs) => Self::decode(b) == fold_fields(
                    Self::merge_fn(b.len()),
                    Self::default(),
                    fs.filter(|f: Field| Self::has_number(f.number)),
                ),
                None => Self::decode(b) is None,
            },
    {
        match parse_fields(b) {
            Some(fs) => {
                lemma_fold_passes_over(
                    Self::merge_fn(b.len()),
                    Self::default(),
                    fs,
                    |f: Field| Self::has_number(f.number),
                );
            },
            None => {},
        }
    }

    /// A field of no member, appended to bytes that decode, changes nothing: the bytes
    /// still decode, and to the same message.
    pub proof fn lemma_unknown_field(b: Seq<u8>, f: Field)
        requires
            Self::decode(b) is Some,
            !Self::has_number(f.number),
            well_formed(f),
        ensures
            Self::decode(b + field_bytes(f)) == Self::decode(b),
    {
        let fs = parse_fields(b)->Some_0;
        let all = b + field_bytes(f);
        lemma_fields_bytes_one(f);
        assert(all_well_formed(seq![f]));
        lemma_fields_round_trip(seq![f]);
        lemma_parse_fields_concat(b, field_bytes(f));
        let merge = Self::merge_fn(all.len());
        lemma_parsed_runs_shorter(b);
        lemma_fold_same(Self::merge_fn(b.len()), merge, Self::default(), fs);
        lemma_fold_concat(merge, Self::default(), fs, seq![f]);
        lemma_fold_one(merge, Self::decode(b)->Some_0, f);
    }

    /// Whether the member that the field number belongs to differs from its zero
    /// value. For a member that holds one of several kinds of value, whether the kind
    /// with this number is the one in force.
    pub open spec fn is_set(self, number: u32) -> bool {
        if number == 1 {
            self.values.len() > 0
        } else {
            false
        }
    }

    /// A member at its zero value is not written: every field of the message belongs
    /// to a member that differs from its zero value.
    pub proof fn lemma_zero_members_omitted(self)
        ensures
            all_fields(self.fields(), |f: Field| self.is_set(f.number)),
    {
        let v = self;
        let set = |f: Field| self.is_set(f.number);
        let f1 = AnyValueView::repeated(1, v.values);
        assert(all_fields(f1, set)) by {
        }
    }

    /// The message with every member at its zero value is written as no byte at all.
    pub proof fn lemma_default_wire()
        ensures
            Self::default().fields() == Seq::<Field>::empty(),
            Self::default().wire() == Seq::<u8>::empty(),
    {
        let v = Self::default();
        assert(AnyValueView::repeated(1, v.values) =~= Seq::<Field>::empty());
        assert(v.fields() =~= Seq::<Field>::empty());
    }
}

impl KeyValueListView {
    /// The field numbers of the members.
    pub open spec fn has_number(number: u32) -> bool {
        number == 1
    }

    /// The message with its first `k` members as they are in `self`, and the others at
    /// their zero value.
    spec fn first_members(self, k: nat) -> Self {
        Self {
            values: if k > 0 { self.values } else { Seq::empty() },
        }
    }

    proof fn lemma_member_values(self, budget: nat)
        requires
            fields_bytes(KeyValueView::repeated(1, self.values)).len() <= u64::MAX,
            fields_bytes(KeyValueView::repeated(1, self.values)).len() <= budget,
        ensures
            fold_fields(
                Self::merge_fn(budget),
                self.first_members(0),
                KeyValueView::repeated(1, self.values),
            ) == Some(self.first_members(1)),
        decreases self, 0int,
    {
        let v = self;
        let merge = Self::merge_fn(budget);
        let f1 = KeyValueView::repeated(1, v.values);
        let a0 = v.first_members(0);
        let a1 = v.first_members(1);
        let states = |i: int| Self { values: v.values.take(i) };
        assert forall|i: int| 0 <= i < f1.len() implies merge(states(i), #[trigger] f1[i]) == Some(
            states(i + 1),
        ) by {
            lemma_run_shorter(f1, i);
            v.values[i].lemma_round_trip();
            assert(v.values.take(i).push(v.values[i]) =~= v.values.take(i + 1));
        }
        lemma_fold_chain(merge, f1, states);
        assert(v.values.take(0) =~= Seq::<KeyValueView>::empty());
        assert(v.values.take(v.values.len() as int) =~= v.values);
        assert(states(0) == a0);
        assert(states(f1.len() as int) == a1);
    }

    /// Merging the fields that the message is written as, into the message with every
    /// member at its zero value, gives the message.
    pub proof fn lemma_fold_fields(self, budget: nat)
        requires
            self.wire().len() <= u64::MAX,
            self.wire().len() <= budget,
        ensures
            fold_fields(Self::merge_fn(budget), Self::default(), self.fields()) == Some(self),
        decreases self, 1int,
    {
        let v = self;
        let merge = Self::merge_fn(budget);
        let f1 = KeyValueView::repeated(1, v.values);
        let a0 = v.first_members(0);
        assert(a0 == Self::default());
        v.lemma_member_values(budget);
        assert(v.first_members(1) == v);
    }

    /// Decoding what was written gives the message back, and so writing what was
    /// decoded from such bytes gives the bytes back. The length of the body must fit in
    /// 64 bits, as that of every message in memory does.
    pub proof fn lemma_round_trip(self)
        requires
            self.wire().len() <= u64::MAX,
        ensures
            Self::decode(self.wire()) == Some(self),
            Self::decode(self.wire()) matches Some(back) && back.wire() == self.wire(),
        decreases self, 2int,
    {
        lemma_well_formed_by_len(self.fields());
        self.lemma_fold_fields(self.wire().len());
        lemma_decode_fields(Self::merge_fn(self.wire().len()), Self::default(), self.fields());
    }

    /// Decoding the framed message gives the message back, whatever follows it.
    pub proof fn lemma_framed_round_trip(self, rest: Seq<u8>)
        requires
            self.wire().len() <= u64::MAX,
        ensures
            parse_framed(framed(self.wire()) + rest) == Some(self.wire()),
            Self::decode(self.wire()) == Some(self),
    {
        lemma_frame_round_trip(self.wire(), rest);
        self.lemma_round_trip();
    }

    /// Fields of no member do not count, wherever they stand: the bytes decode to what
    /// the fields of members among them give.
    pub proof fn lemma_passes_over_unknown(b: Seq<u8>)
        ensures
            match parse_fields(b) {
                Some(fs) => Self::decode(b) == fold_fields(
                    Self::merge_fn(b.len()),
                    Self::default(),
                    fs.filter(|f: Field| Self::has_number(f.number)),
                ),
                None => Self::decode(b) is None,
            },
    {
        match parse_fields(b) {
            Some(fs) => {
                lemma_fold_passes_over(
                    Self::merge_fn(b.len()),
                    Self::default(),
                    fs,
                    |f: Field| Self::has_number(f.number),
                );
            },
            None => {},
        }
    }

    /// A field of no member, appended to bytes that decode, changes nothing: the bytes
    /// still decode, and to the same message.
    pub proof fn lemma_unknown_field(b: Seq<u8>, f: Field)
        requires
            Self::decode(b) is Some,
            !Self::has_number(f.number),
            well_formed(f),
        ensures
            Self::decode(b + field_bytes(f)) == Self::decode(b),
    {
        let fs = parse_fields(b)->Some_0;
        let all = b + field_bytes(f);
        lemma_fields_bytes_one(f);
        assert(all_well_formed(seq![f]));
        lemma_fields_round_trip(seq![f]);
        lemma_parse_fields_concat(b, field_bytes(f));
        let merge = Self::merge_fn(all.len());
        lemma_parsed_runs_shorter(b);
        lemma_fold_same(Self::merge_fn(b.len()), merge, Self::default(), fs);
        lemma_fold_concat(merge, Self::default(), fs, seq![f]);
        lemma_fold_one(merge, Self::decode(b)->Some_0, f);
    }

    /// Whether the member that the field number belongs to differs from its zero
    /// value. For a member that holds one of several kinds of value, whether the kind
    /// with this number is the one in force.
    pub open spec fn is_set(self, number: u32) -> bool {
        if number == 1 {
            self.values.len() > 0
        } else {
            false
        }
    }

    /// A member at its zero value is not written: every field of the message belongs
    /// to a member that differs from its zero value.
    pub proof fn lemma_zero_members_omitted(self)
        ensures
            all_fields(self.fields(), |f: Field| self.is_set(f.number)),
    {
        let v = self;
        let set = |f: Field| self.is_set(f.number);
        let f1 = KeyValueView::repeated(1, v.values);
        assert(all_fields(f1, set)) by {
        }
    }

    /// The message with every member at its zero value is written as no byte at all.
    pub proof fn lemma_default_wire()
        ensures
            Self::default().fields() == Seq::<Field>::empty(),
            Self::default().wire() == Seq::<u8>::empty(),
    {
        let v = Self::default();
        assert(KeyValueView::repeated(1, v.values) =~= Seq::<Field>::empty());
        assert(v.fields() =~= Seq::<Field>::empty());
    }
}

impl KeyValueView {
    /// The field numbers of the members.
    pub open spec fn has_number(number: u32) -> bool {
        number == 1 || number == 2
    }

    /// The message with its first `k` members as they are in `self`, and the others at
    /// their zero value.
    spec fn first_members(self, k: nat) -> Self {
        Self {
            key: if k > 0 { self.key } else { Seq::empty() },
            value: if k > 1 { self.value } else { None },
        }
    }

    proof fn lemma_member_key(self, budget: nat)
        ensures
            fold_fields(
                Self::merge_fn(budget),
                self.first_members(0),
                run_member(1, encode_utf8(self.key)),
            ) == Some(self.first_members(1)),
        decreases self, 0int,
    {
        let v = self;
        let merge = Self::merge_fn(budget);
        let f1 = run_member(1, encode_utf8(v.key));
        let a0 = v.first_members(0);
        encode_utf8_valid_utf8(v.key);
        encode_utf8_decode_utf8(v.key);
        let f = Field { number: 1, payload: Payload::Run(encode_utf8(v.key)) };
        lemma_fold_one(merge, a0, f);
        if f1.len() == 0 {
            assert(v.key =~= Seq::<char>::empty());
        }
        assert(run_member(1, encode_utf8(v.key)).len() <= 1);
    }

    proof fn lemma_member_value(self, budget: nat)
        requires
            fields_bytes(AnyValueView::optional(2, self.value)).len() <= u64::MAX,
            fields_bytes(AnyValueView::optional(2, self.value)).len() <= budget,
        ensures
            fold_fields(
                Self::merge_fn(budget),
                self.first_members(1),
                AnyValueView::optional(2, self.value),
            ) == Some(self.first_members(2)),
        decreases self, 0int,
    {
        let v = self;
        let merge = Self::merge_fn(budget);
        let f2 = AnyValueView::optional(2, v.value);
        let a1 = v.first_members(1);
        match v.value {
            Some(x) => {
                let f = Field { number: 2, payload: Payload::Run(x.wire()) };
                assert(f2 =~= seq![f]);
                lemma_run_shorter(f2, 0);
                x.lemma_round_trip();
                lemma_fold_one(merge, a1, f);
            },
            None => {},
        }
    }

    /// Merging the fields that the message is written as, into the message with every
    /// member at its zero value, gives the message.
    pub proof fn lemma_fold_fields(self, budget: nat)
        requires
            self.wire().len() <= u64::MAX,
            self.wire().len() <= budget,
        ensures
            fold_fields(Self::merge_fn(budget), Self::default(), self.fields()) == Some(self),
        decreases self, 1int,
    {
        let v = self;
        let merge = Self::merge_fn(budget);
        let f1 = run_member(1, encode_utf8(v.key));
        let f2 = AnyValueView::optional(2, v.value);
        let a0 = v.first_members(0);
        assert(a0 == Self::default());
        lemma_fields_bytes_concat(f1, f2);
        v.lemma_member_key(budget);
        v.lemma_member_value(budget);
        lemma_fold_concat(merge, a0, f1, f2);
        assert(v.first_members(2) == v);
    }

    /// Decoding what was written gives the message back, and so writing what was
    /// decoded from such bytes gives the bytes back. The length of the body must fit in
    /// 64 bits, as that of every message in memory does.
    pub proof fn lemma_round_trip(self)
        requires
            self.wire().len() <= u64::MAX,
        ensures
            Self::decode(self.wire()) == Some(self),
            Self::decode(self.wire()) matches Some(back) && back.wire() == self.wire(),
        decreases self, 2int,
    {
        lemma_well_formed_by_len(self.fields());
        self.lemma_fold_fields(self.wire().len());
        lemma_decode_fields(Self::merge_fn(self.wire().len()), Self::default(), self.fields());
    }

    /// Decoding the framed message gives the message back, whatever follows it.
    pub proof fn lemma_framed_round_trip(self, rest: Seq<u8>)
        requires
            self.wire().len() <= u64::MAX,
        ensures
            parse_framed(framed(self.wire()) + rest) == Some(self.wire()),
            Self::decode(self.wire()) == Some(self),
    {
        lemma_frame_round_trip(self.wire(), rest);
        self.lemma_round_trip();
    }

    /// Fields of no member do not count, wherever they stand: the bytes decode to what
    /// the fields of members among them give.
    pub proof fn lemma_passes_over_unknown(b: Seq<u8>)
        ensures
            match parse_fields(b) {
                Some(fs) => Self::decode(b) == fold_fields(
                    Self::merge_fn(b.len()),
                    Self::default(),
                    fs.filter(|f: Field| Self::has_number(f.number)),
                ),
                None => Self::decode(b) is None,
            },
    {
        match parse_fields(b) {
            Some(fs) => {
                lemma_fold_passes_over(
                    Self::merge_fn(b.len()),
                    Self::default(),
                    fs,
                    |f: Field| Self::has_number(f.number),
                );
            },
            None => {},
        }
    }

    /// A field of no member, appended to bytes that decode, changes nothing: the bytes
    /// still decode, and to the same message.
    pub proof fn lemma_unknown_field(b: Seq<u8>, f: Field)
        requires
            Self::decode(b) is Some,
            !Self::has_number(f.number),
            well_formed(f),
        ensures
            Self::decode(b + field_bytes(f)) == Self::decode(b),
    {
        let fs = parse_fields(b)->Some_0;
        let all = b + field_bytes(f);
        lemma_fields_bytes_one(f);
        assert(all_well_formed(seq![f]));
        lemma_fields_round_trip(seq![f]);
        lemma_parse_fields_concat(b, field_bytes(f));
        let merge = Self::merge_fn(all.len());
        lemma_parsed_runs_shorter(b);
        lemma_fold_same(Self::merge_fn(b.len()), merge, Self::default(), fs);
        lemma_fold_concat(merge, Self::default(), fs, seq![f]);
        lemma_fold_one(merge, Self::decode(b)->Some_0, f);
    }

    /// Whether the member that the field number belongs to differs from its zero
    /// value. For a member that holds one of several kinds of value, whether the kind
    /// with this number is the one in force.
    pub open spec fn is_set(self, number: u32) -> bool {
        if number == 1 {
            self.key.len() > 0
        } else if number == 2 {
            self.value is Some
        } else {
            false
        }
    }

    /// A member at its zero value is not written: every field of the message belongs
    /// to a member that differs from its zero value.
    pub proof fn lemma_zero_members_omitted(self)
        ensures
            all_fields(self.fields(), |f: Field| self.is_set(f.number)),
    {
        let v = self;
        let set = |f: Field| self.is_set(f.number);
        let f1 = run_member(1, encode_utf8(v.key));
        let f2 = AnyValueView::optional(2, v.value);
        assert(all_fields(f1, set)) by {
            if v.key.len() == 0 {
                assert(encode_utf8(v.key) =~= Seq::<u8>::empty());
            }
        }
        assert(all_fields(f2, set)) by {
        }
        lemma_all_fields_concat(f1, f2, set);
    }

    /// The message with every member at its zero value is written as no byte at all.
    pub proof fn lemma_default_wire()
        ensures
            Self::default().fields() == Seq::<Field>::empty(),
            Self::default().wire() == Seq::<u8>::empty(),
    {
        let v = Self::default();
        assert(run_member(1, encode_utf8(v.key)) =~= Seq::<Field>::empty());
        assert(AnyValueView::optional(2, v.value) =~= Seq::<Field>::empty());
        assert(v.fields() =~= Seq::<Field>::empty());
    }
}

impl InstrumentationScopeView {
    /// The field numbers of the members.
    pub open spec fn has_number(number: u32) -> bool {
        number == 1 || number == 2 || number == 3 || number == 4
    }

    /// The message with its first `k` members as they are in `self`, and the others at
    /// their zero value.
    spec fn first_members(self, k: nat) -> Self {
        Self {
            name: if k > 0 { self.name } else { Seq::empty() },
            version: if k > 1 { self.version } else { Seq::empty() },
            attributes: if k > 2 { self.attributes } else { Seq::empty() },
            dropped_attributes_count: if k > 3 { self.dropped_attributes_count } else { 0 },
        }
    }

    proof fn lemma_member_name(self)
        ensures
            fold_fields(
                Self::merge_fn(),
                self.first_members(0),
                run_member(1, encode_utf8(self.name)),
            ) == Some(self.first_members(1)),
    {
        let v = self;
        let merge = Self::merge_fn();
        let f1 = run_member(1, encode_utf8(v.name));
        let a0 = v.first_members(0);
        encode_utf8_valid_utf8(v.name);
        encode_utf8_decode_utf8(v.name);
        let f = Field { number: 1, payload: Payload::Run(encode_utf8(v.name)) };
        lemma_fold_one(merge, a0, f);
        if f1.len() == 0 {
            assert(v.name =~= Seq::<char>::empty());
        }
        assert(run_member(1, encode_utf8(v.name)).len() <= 1);
    }

    proof fn lemma_member_version(self)
        ensures
            fold_fields(
                Self::merge_fn(),
                self.first_members(1),
                run_member(2, encode_utf8(self.version)),
            ) == Some(self.first_members(2)),
    {
        let v = self;
        let merge = Self::merge_fn();
        let f2 = run_member(2, encode_utf8(v.version));
        let a1 = v.first_members(1);
        encode_utf8_valid_utf8(v.version);
        encode_utf8_decode_utf8(v.version);
        let f = Field { number: 2, payload: Payload::Run(encode_utf8(v.version)) };
        lemma_fold_one(merge, a1, f);
        if f2.len() == 0 {
            assert(v.version =~= Seq::<char>::empty());
        }
        assert(run_member(2, encode_utf8(v.version)).len() <= 1);
    }

    proof fn lemma_member_attributes(self)
        requires
            fields_bytes(KeyValueView::repeated(3, self.attributes)).len() <= u64::MAX,
        ensures
            fold_fields(
                Self::merge_fn(),
                self.first_members(2),
                KeyValueView::repeated(3, self.attributes),
            ) == Some(self.first_members(3)),
    {
        let v = self;
        let merge = Self::merge_fn();
        let f3 = KeyValueView::repeated(3, v.attributes);
        let a2 = v.first_members(2);
        let a3 = v.first_members(3);
        let states = |i: int| Self { attributes: v.attributes.take(i), ..v.first_members(2) };
        assert forall|i: int| 0 <= i < f3.len() implies merge(states(i), #[trigger] f3[i]) == Some(
            states(i + 1),
        ) by {
            lemma_run_shorter(f3, i);
            v.attributes[i].lemma_round_trip();
            assert(v.attributes.take(i).push(v.attributes[i]) =~= v.attributes.take(i + 1));
        }
        lemma_fold_chain(merge, f3, states);
        assert(v.attributes.take(0) =~= Seq::<KeyValueView>::empty());
        assert(v.attributes.take(v.attributes.len() as int) =~= v.attributes);
        assert(states(0) == a2);
        assert(states(f3.len() as int) == a3);
    }

    proof fn lemma_member_dropped_attributes_count(self)
        ensures
            fold_fields(
                Self::merge_fn(),
                self.first_members(3),
                varint_member(4, self.dropped_attributes_count as u64),
            ) == Some(self.first_members(4)),
    {
        let v = self;
        let merge = Self::merge_fn();
        let a3 = v.first_members(3);
        let f = Field { number: 4, payload: Payload::Varint(v.dropped_attributes_count as u64) };
        lemma_fold_one(merge, a3, f);
    }

    /// Merging the fields that the message is written as, into the message with every
    /// member at its zero value, gives the message.
    pub proof fn lemma_fold_fields(self)
        requires
            self.wire().len() <= u64::MAX,
        ensures
            fold_fields(Self::merge_fn(), Self::default(), self.fields()) == Some(self),
    {
        let v = self;
        let merge = Self::merge_fn();
        let f1 = run_member(1, encode_utf8(v.name));
        let f2 = run_member(2, encode_utf8(v.version));
        let f3 = KeyValueView::repeated(3, v.attributes);
        let f4 = varint_member(4, v.dropped_attributes_count as u64);
        let a0 = v.first_members(0);
        assert(a0 == Self::default());
        reveal(InstrumentationScopeView::wire);
        lemma_fields_bytes_concat(f1, f2);
        lemma_fields_bytes_concat(f1 + f2, f3);
        lemma_fields_bytes_concat(f1 + f2 + f3, f4);
        v.lemma_member_name();
        v.lemma_member_version();
        lemma_fold_concat(merge, a0, f1, f2);
        v.lemma_member_attributes();
        lemma_fold_concat(merge, a0, f1 + f2, f3);
        v.lemma_member_dropped_attributes_count();
        lemma_fold_concat(merge, a0, f1 + f2 + f3, f4);
        assert(v.first_members(4) == v);
    }

    /// Decoding what was written gives the message back, and so writing what was
    /// decoded from such bytes gives the bytes back. The length of the body must fit in
    /// 64 bits, as that of every message in memory does.
    pub proof fn lemma_round_trip(self)
        requires
            self.wire().len() <= u64::MAX,
        ensures
            Self::decode(self.wire()) == Some(self),
            Self::decode(self.wire()) matches Some(back) && back.wire() == self.wire(),
    {
        reveal(InstrumentationScopeView::wire);
        reveal(InstrumentationScopeView::decode);
        lemma_well_formed_by_len(self.fields());
        self.lemma_fold_fields();
        lemma_decode_fields(Self::merge_fn(), Self::default(), self.fields());
    }

    /// Decoding the framed message gives the message back, whatever follows it.
    pub proof fn lemma_framed_round_trip(self, rest: Seq<u8>)
        requires
            self.wire().len() <= u64::MAX,
        ensures
            parse_framed(framed(self.wire()) + rest) == Some(self.wire()),
            Self::decode(self.wire()) == Some(self),
    {
        lemma_frame_round_trip(self.wire(), rest);
        self.lemma_round_trip();
    }

    /// Fields of no member do not count, wherever they stand: the bytes decode to what
    /// the fields of members among them give.
    pub proof fn lemma_passes_over_unknown(b: Seq<u8>)
        ensures
            match parse_fields(b) {
                Some(fs) => Self::decode(b) == fold_fields(
                    Self::merge_fn(),
                    Self::default(),
                    fs.filter(|f: Field| Self::has_number(f.number)),
                ),
                None => Self::decode(b) is None,
            },
    {
        reveal(InstrumentationScopeView::decode);
        match parse_fields(b) {
            Some(fs) => {
                lemma_fold_passes_over(
                    Self::merge_fn(),
                    Self::default(),
                    fs,
                    |f: Field| Self::has_number(f.number),
                );
            },
            None => {},
        }
    }

    /// A field of no member, appended to bytes that decode, changes nothing: the bytes
    /// still decode, and to the same message.
    pub proof fn lemma_unknown_field(b: Seq<u8>, f: Field)
        requires
            Self::decode(b) is Some,
            !Self::has_number(f.number),
            well_formed(f),
        ensures
            Self::decode(b + field_bytes(f)) == Self::decode(b),
    {
        reveal(InstrumentationScopeView::decode);
        let fs = parse_fields(b)->Some_0;
        let all = b + field_bytes(f);
        lemma_fields_bytes_one(f);
        assert(all_well_formed(seq![f]));
        lemma_fields_round_trip(seq![f]);
        lemma_parse_fields_concat(b, field_bytes(f));
        let merge = Self::merge_fn();
        lemma_fold_concat(merge, Self::default(), fs, seq![f]);
        lemma_fold_one(merge, Self::decode(b)->Some_0, f);
    }

    /// Whether the member that the field number belongs to differs from its zero
    /// value. For a member that holds one of several kinds of value, whether the kind
    /// with this number is the one in force.
    pub open spec fn is_set(self, number: u32) -> bool {
        if number == 1 {
            self.name.len() > 0
        } else if number == 2 {
            self.version.len() > 0
        } else if number == 3 {
            self.attributes.len() > 0
        } else if number == 4 {
            self.dropped_attributes_count != 0
        } else {
            false
        }
    }

    /// A member at its zero value is not written: every field of the message belongs
    /// to a member that differs from its zero value.
    pub proof fn lemma_zero_members_omitted(self)
        ensures
            all_fields(self.fields(), |f: Field| self.is_set(f.number)),
    {
        let v = self;
        let set = |f: Field| self.is_set(f.number);
        let f1 = run_member(1, encode_utf8(v.name));
        let f2 = run_member(2, encode_utf8(v.version));
        let f3 = KeyValueView::repeated(3, v.attributes);
        let f4 = varint_member(4, v.dropped_attributes_count as u64);
        assert(all_fields(f1, set)) by {
            if v.name.len() == 0 {
                assert(encode_utf8(v.name) =~= Seq::<u8>::empty());
            }
        }
        assert(all_fields(f2, set)) by {
            if v.version.len() == 0 {
                assert(encode_utf8(v.version) =~= Seq::<u8>::empty());
            }
        }
        assert(all_fields(f3, set)) by {
        }
        assert(all_fields(f4, set)) by {
        }
        lemma_all_fields_concat(f1, f2, set);
        lemma_all_fields_concat(f1 + f2, f3, set);
        lemma_all_fields_concat(f1 + f2 + f3, f4, set);
    }

    /// The message with every member at its zero value is written as no byte at all.
    pub proof fn lemma_default_wire()
        ensures
            Self::default().fields() == Seq::<Field>::empty(),
            Self::default().wire() == Seq::<u8>::empty(),
    {
        let v = Self::default();
        assert(run_member(1, encode_utf8(v.name)) =~= Seq::<Field>::empty());
        assert(run_member(2, encode_utf8(v.version)) =~= Seq::<Field>::empty());
        assert(KeyValueView::repeated(3, v.attributes) =~= Seq::<Field>::empty());
        assert(varint_member(4, v.dropped_attributes_count as u64) =~= Seq::<Field>::empty());
        assert(v.fields() =~= Seq::<Field>::empty());
        reveal(InstrumentationScopeView::wire);
    }
}

impl ResourceView {
    /// The field numbers of the members.
    pub open spec fn has_number(number: u32) -> bool {
        number == 1 || number == 2
    }

    /// The message with its first `k` members as they are in `self`, and the others at
    /// their zero value.
    spec fn first_members(self, k: nat) -> Self {
        Self {
            attributes: if k > 0 { self.attributes } else { Seq::empty() },
            dropped_attributes_count: if k > 1 { self.dropped_attributes_count } else { 0 },
        }
    }

    proof fn lemma_member_attributes(self)
        requires
            fields_bytes(KeyValueView::repeated(1, self.attributes)).len() <= u64::MAX,
        ensures
            fold_fields(
                Self::merge_fn(),
                self.first_members(0),
                KeyValueView::repeated(1, self.attributes),
            ) == Some(self.first_members(1)),
    {
        let v = self;
        let merge = Self::merge_fn();
        let f1 = KeyValueView::repeated(1, v.attributes);
        let a0 = v.first_members(0);
        let a1 = v.first_members(1);
        let states = |i: int| Self { attributes: v.attributes.take(i), ..v.first_members(0) };
        assert forall|i: int| 0 <= i < f1.len() implies merge(states(i), #[trigger] f1[i]) == Some(
            states(i + 1),
        ) by {
            lemma_run_shorter(f1, i);
            v.attributes[i].lemma_round_trip();
            assert(v.attributes.take(i).push(v.attributes[i]) =~= v.attributes.take(i + 1));
        }
        lemma_fold_chain(merge, f1, states);
        assert(v.attributes.take(0) =~= Seq::<KeyValueView>::empty());
        assert(v.attributes.take(v.attributes.len() as int) =~= v.attributes);
        assert(states(0) == a0);
        assert(states(f1.len() as int) == a1);
    }

    proof fn lemma_member_dropped_attributes_count(self)
        ensures
            fold_fields(
                Self::merge_fn(),
                self.first_members(1),
                varint_member(2, self.dropped_attributes_count as u64),
            ) == Some(self.first_members(2)),
    {
        let v = self;
        let merge = Self::merge_fn();
        let a1 = v.first_members(1);
        let f = Field { number: 2, payload: Payload::Varint(v.dropped_attributes_count as u64) };
        lemma_fold_one(merge, a1, f);
    }

    /// Merging the fields that the message is written as, into the message with every
    /// member at its zero value, gives the message.
    pub proof fn lemma_fold_fields(self)
        requires
            self.wire().len() <= u64::MAX,
        ensures
            fold_fields(Self::merge_fn(), Self::default(), self.fields()) == Some(self),
    {
        let v = self;
        let merge = Self::merge_fn();
        let f1 = KeyValueView::repeated(1, v.attributes);
        let f2 = varint_member(2, v.dropped_attributes_count as u64);
        let a0 = v.first_members(0);
        assert(a0 == Self::default());
        reveal(ResourceView::wire);
        lemma_fields_bytes_concat(f1, f2);
        v.lemma_member_attributes();
        v.lemma_member_dropped_attributes_count();
        lemma_fold_concat(merge, a0, f1, f2);
        assert(v.first_members(2) == v);
    }

    /// Decoding what was written gives the message back, and so writing what was
    /// decoded from such bytes gives the bytes back. The length of the body must fit in
    /// 64 bits, as that of every message in memory does.
    pub proof fn lemma_round_trip(self)
        requires
            self.wire().len() <= u64::MAX,
        ensures
            Self::decode(self.wire()) == Some(self),
            Self::decode(self.wire()) matches Some(back) && back.wire() == self.wire(),
    {
        reveal(ResourceView::wire);
        reveal(ResourceView::decode);
        lemma_well_formed_by_len(self.fields());
        self.lemma_fold_fields();
        lemma_decode_fields(Self::merge_fn(), Self::default(), self.fields());
    }

    /// Decoding the framed message gives the message back, whatever follows it.
    pub proof fn lemma_framed_round_trip(self, rest: Seq<u8>)
        requires
            self.wire().len() <= u64::MAX,
        ensures
            parse_framed(framed(self.wire()) + rest) == Some(self.wire()),
            Self::decode(self.wire()) == Some(self),
    {
        lemma_frame_round_trip(self.wire(), rest);
        self.lemma_round_trip();
    }

    /// Fields of no member do not count, wherever they stand: the bytes decode to what
    /// the fields of members among them give.
    pub proof fn lemma_passes_over_unknown(b: Seq<u8>)
        ensures
            match parse_fields(b) {
                Some(fs) => Self::decode(b) == fold_fields(
                    Self::merge_fn(),
                    Self::default(),
                    fs.filter(|f: Field| Self::has_number(f.number)),
                ),
                None => Self::decode(b) is None,
            },
    {
        reveal(ResourceView::decode);
        match parse_fields(b) {
            Some(fs) => {
                lemma_fold_passes_over(
                    Self::merge_fn(),
                    Self::default(),
                    fs,
                    |f: Field| Self::has_number(f.number),
                );
            },
            None => {},
        }
    }

    /// A field of no member, appended to bytes that decode, changes nothing: the bytes
    /// still decode, and to the same message.
    pub proof fn lemma_unknown_field(b: Seq<u8>, f: Field)
        requires
            Self::decode(b) is Some,
            !Self::has_number(f.number),
            well_formed(f),
        ensures
            Self::decode(b + field_bytes(f)) == Self::decode(b),
    {
        reveal(ResourceView::decode);
        let fs = parse_fields(b)->Some_0;
        let all = b + field_bytes(f);
        lemma_fields_bytes_one(f);
        assert(all_well_formed(seq![f]));
        lemma_fields_round_trip(seq![f]);
        lemma_parse_fields_concat(b, field_bytes(f));
        let merge = Self::merge_fn();
        lemma_fold_concat(merge, Self::default(), fs, seq![f]);
        lemma_fold_one(merge, Self::decode(b)->Some_0, f);
    }

    /// Whether the member that the field number belongs to differs from its zero
    /// value. For a member that holds one of several kinds of value, whether the kind
    /// with this number is the one in force.
    pub open spec fn is_set(self, number: u32) -> bool {
        if number == 1 {
            self.attributes.len() > 0
        } else if number == 2 {
            self.dropped_attributes_count != 0
        } else {
            false
        }
    }

    /// A member at its zero value is not written: every field of the message belongs
    /// to a member that differs from its zero value.
    pub proof fn lemma_zero_members_omitted(self)
        ensures
            all_fields(self.fields(), |f: Field| self.is_set(f.number)),
    {
        let v = self;
        let set = |f: Field| self.is_set(f.number);
        let f1 = KeyValueView::repeated(1, v.attributes);
        let f2 = varint_member(2, v.dropped_attributes_count as u64);
        assert(all_fields(f1, set)) by {
        }
        assert(all_fields(f2, set)) by {
        }
        lemma_all_fields_concat(f1, f2, set);
    }

    /// The message with every member at its zero value is written as no byte at all.
    pub proof fn lemma_default_wire()
        ensures
            Self::default().fields() == Seq::<Field>::empty(),
            Self::default().wire() == Seq::<u8>::empty(),
    {
        let v = Self::default();
        assert(KeyValueView::repeated(1, v.attributes) =~= Seq::<Field>::empty());
        assert(varint_member(2, v.dropped_attributes_count as u64) =~= Seq::<Field>::empty());
        assert(v.fields() =~= Seq::<Field>::empty());
        reveal(ResourceView::wire);
    }
}

} // verus!
