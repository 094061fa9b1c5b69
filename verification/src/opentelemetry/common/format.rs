//! The wire format of the common family: which fields a message is written as, and
//! which message a run of fields stands for.

use crate::field::{Field, Payload, decode_with, fields_bytes};
use crate::member::{message_member, one, repeated_runs, run_member, varint_member};
use crate::opentelemetry::common::types::{
    AnyValueOneOfvalueView, AnyValueView, ArrayValueView, InstrumentationScopeView,
    KeyValueListView, KeyValueView, ResourceView,
};
use crate::wire::{low32, signed64, unsigned64};
use vstd::prelude::*;
use vstd::utf8::{decode_utf8, encode_utf8, valid_utf8};

verus! {

impl AnyValueOneOfvalueView {
    /// The field that stands for the variant in force: none where nothing is set.
    pub open spec fn fields(self) -> Seq<Field>
        decreases self, 0int,
    {
        match self {
            AnyValueOneOfvalueView::string_value(x) => one(1, Payload::Run(encode_utf8(x))),
            AnyValueOneOfvalueView::bool_value(x) => one(
                2,
                Payload::Varint(if x { 1u64 } else { 0u64 }),
            ),
            AnyValueOneOfvalueView::int_value(x) => one(3, Payload::Varint(unsigned64(x))),
            AnyValueOneOfvalueView::double_value(x) => one(4, Payload::Fixed64(x)),
            AnyValueOneOfvalueView::array_value(x) => one(5, Payload::Run(x.wire())),
            AnyValueOneOfvalueView::kvlist_value(x) => one(6, Payload::Run(x.wire())),
            AnyValueOneOfvalueView::bytes_value(x) => one(7, Payload::Run(x)),
            AnyValueOneOfvalueView::Unset => Seq::empty(),
        }
    }
}

impl AnyValueView {
    /// Merges one field into the message: a field of a member gives the member its
    /// value, or one more item; any other field is passed over. `None` where the
    /// payload of a member's field is malformed.
    ///
    /// `budget` is the length of the bytes that the field was cut from. A run is
    /// shorter than that, so the test against it never fails on a field that was
    /// read; it is what makes the definition well founded.
    pub open spec fn merge(budget: nat, acc: Self, f: Field) -> Option<Self>
        decreases budget, 0int,
    {
        if f.number == 1 && f.payload is Run {
            if valid_utf8(f.payload->Run_0) {
                Some(
                    Self {
                        value: AnyValueOneOfvalueView::string_value(decode_utf8(f.payload->Run_0)),
                    },
                )
            } else {
                None
            }
        } else if f.number == 2 && f.payload is Varint {
            Some(Self { value: AnyValueOneOfvalueView::bool_value(f.payload->Varint_0 != 0) })
        } else if f.number == 3 && f.payload is Varint {
            Some(Self { value: AnyValueOneOfvalueView::int_value(signed64(f.payload->Varint_0)) })
        } else if f.number == 4 && f.payload is Fixed64 {
            Some(Self { value: AnyValueOneOfvalueView::double_value(f.payload->Fixed64_0) })
        } else if f.number == 5 && f.payload is Run {
            if f.payload->Run_0.len() < budget {
                match ArrayValueView::decode(f.payload->Run_0) {
                    Some(x) => Some(Self { value: AnyValueOneOfvalueView::array_value(x) }),
                    None => None,
                }
            } else {
                None
            }
        } else if f.number == 6 && f.payload is Run {
            if f.payload->Run_0.len() < budget {
                match KeyValueListView::decode(f.payload->Run_0) {
                    Some(x) => Some(Self { value: AnyValueOneOfvalueView::kvlist_value(x) }),
                    None => None,
                }
            } else {
                None
            }
        } else if f.number == 7 && f.payload is Run {
            Some(Self { value: AnyValueOneOfvalueView::bytes_value(f.payload->Run_0) })
        } else {
            Some(acc)
        }
    }

    /// `merge` as a function of the message and the field.
    pub open spec fn merge_fn(budget: nat) -> spec_fn(Self, Field) -> Option<Self>
        decreases budget, 1int,
    {
        |acc: Self, f: Field| Self::merge(budget, acc, f)
    }

    /// The message that a body stands for: its fields, merged one by one into the
    /// message with every member at its zero value.
    pub open spec fn decode(b: Seq<u8>) -> Option<Self>
        decreases b.len(), 2int,
    {
        decode_with(Self::merge_fn(b.len()), Self::default(), b)
    }

    /// The fields that the message is written as, in the order of writing.
    pub open spec fn fields(self) -> Seq<Field>
        decreases self, 0int,
    {
        self.value.fields()
    }

    /// The body of the message in bytes.
    pub open spec fn wire(self) -> Seq<u8>
        decreases self, 1int,
    {
        fields_bytes(self.fields())
    }

    /// The bodies of a list of messages.
    pub open spec fn bodies(items: Seq<Self>) -> Seq<Seq<u8>>
        decreases items, 2int,
    {
        Seq::new(
            items.len(),
            |i: int|
                if 0 <= i < items.len() {
                    items[i].wire()
                } else {
                    Seq::empty()
                },
        )
    }

    /// A repeated member of this type as fields: one run per item, in order.
    pub open spec fn repeated(number: u32, items: Seq<Self>) -> Seq<Field>
        decreases items, 3int,
    {
        repeated_runs(number, Self::bodies(items))
    }

    /// An optional member of this type as fields: a run where it is present.
    pub open spec fn optional(number: u32, item: Option<Self>) -> Seq<Field>
        decreases item, 2int,
    {
        message_member(
            number,
            match item {
                Some(x) => Some(x.wire()),
                None => None,
            },
        )
    }
}

impl ArrayValueView {
    /// Merges one field into the message: a field of a member gives the member its
    /// value, or one more item; any other field is passed over. `None` where the
    /// payload of a member's field is malformed.
    ///
    /// `budget` is the length of the bytes that the field was cut from. A run is
    /// shorter than that, so the test against it never fails on a field that was
    /// read; it is what makes the definition well founded.
    pub open spec fn merge(budget: nat, acc: Self, f: Field) -> Option<Self>
        decreases budget, 0int,
    {
        if f.number == 1 && f.payload is Run {
            if f.payload->Run_0.len() < budget {
                match AnyValueView::decode(f.payload->Run_0) {
                    Some(x) => Some(Self { values: acc.values.push(x) }),
                    None => None,
                }
            } else {
                None
            }
        } else {
            Some(acc)
        }
    }

    /// `merge` as a function of the message and the field.
    pub open spec fn merge_fn(budget: nat) -> spec_fn(Self, Field) -> Option<Self>
        decreases budget, 1int,
    {
        |acc: Self, f: Field| Self::merge(budget, acc, f)
    }

    /// The message that a body stands for: its fields, merged one by one into the
    /// message with every member at its zero value.
    pub open spec fn decode(b: Seq<u8>) -> Option<Self>
        decreases b.len(), 2int,
    {
        decode_with(Self::merge_fn(b.len()), Self::default(), b)
    }

    /// The fields that the message is written as, in the order of writing.
    pub open spec fn fields(self) -> Seq<Field>
        decreases self, 0int,
    {
        AnyValueView::repeated(1, self.values)
    }

    /// The body of the message in bytes.
    pub open spec fn wire(self) -> Seq<u8>
        decreases self, 1int,
    {
        fields_bytes(self.fields())
    }
}

impl KeyValueListView {
    /// Merges one field into the message: a field of a member gives the member its
    /// value, or one more item; any other field is passed over. `None` where the
    /// payload of a member's field is malformed.
    ///
    /// `budget` is the length of the bytes that the field was cut from. A run is
    /// shorter than that, so the test against it never fails on a field that was
    /// read; it is what makes the definition well founded.
    pub open spec fn merge(budget: nat, acc: Self, f: Field) -> Option<Self>
        decreases budget, 0int,
    {
        if f.number == 1 && f.payload is Run {
            if f.payload->Run_0.len() < budget {
                match KeyValueView::decode(f.payload->Run_0) {
                    Some(x) => Some(Self { values: acc.values.push(x) }),
                    None => None,
                }
            } else {
                None
            }
        } else {
            Some(acc)
        }
    }

    /// `merge` as a function of the message and the field.
    pub open spec fn merge_fn(budget: nat) -> spec_fn(Self, Field) -> Option<Self>
        decreases budget, 1int,
    {
        |acc: Self, f: Field| Self::merge(budget, acc, f)
    }

    /// The message that a body stands for: its fields, merged one by one into the
    /// message with every member at its zero value.
    pub open spec fn decode(b: Seq<u8>) -> Option<Self>
        decreases b.len(), 2int,
    {
        decode_with(Self::merge_fn(b.len()), Self::default(), b)
    }

    /// The fields that the message is written as, in the order of writing.
    pub open spec fn fields(self) -> Seq<Field>
        decreases self, 0int,
    {
        KeyValueView::repeated(1, self.values)
    }

    /// The body of the message in bytes.
    pub open spec fn wire(self) -> Seq<u8>
        decreases self, 1int,
    {
        fields_bytes(self.fields())
    }
}

impl KeyValueView {
    /// Merges one field into the message: a field of a member gives the member its
    /// value, or one more item; any other field is passed over. `None` where the
    /// payload of a member's field is malformed.
    ///
    /// `budget` is the length of the bytes that the field was cut from. A run is
    /// shorter than that, so the test against it never fails on a field that was
    /// read; it is what makes the definition well founded.
    pub open spec fn merge(budget: nat, acc: Self, f: Field) -> Option<Self>
        decreases budget, 0int,
    {
        if f.number == 1 && f.payload is Run {
            if valid_utf8(f.payload->Run_0) {
                Some(Self { key: decode_utf8(f.payload->Run_0), ..acc })
            } else {
                None
            }
        } else if f.number == 2 && f.payload is Run {
            if f.payload->Run_0.len() < budget {
                match AnyValueView::decode(f.payload->Run_0) {
                    Some(x) => Some(Self { value: Some(x), ..acc }),
                    None => None,
                }
            } else {
                None
            }
        } else {
            Some(acc)
        }
    }

    /// `merge` as a function of the message and the field.
    pub open spec fn merge_fn(budget: nat) -> spec_fn(Self, Field) -> Option<Self>
        decreases budget, 1int,
    {
        |acc: Self, f: Field| Self::merge(budget, acc, f)
    }

    /// The message that a body stands for: its fields, merged one by one into the
    /// message with every member at its zero value.
    pub open spec fn decode(b: Seq<u8>) -> Option<Self>
        decreases b.len(), 2int,
    {
        decode_with(Self::merge_fn(b.len()), Self::default(), b)
    }

    /// The fields that the message is written as, in the order of writing.
    pub open spec fn fields(self) -> Seq<Field>
        decreases self, 0int,
    {
        run_member(1, encode_utf8(self.key))
            + AnyValueView::optional(2, self.value)
    }

    /// The body of the message in bytes.
    pub open spec fn wire(self) -> Seq<u8>
        decreases self, 1int,
    {
        fields_bytes(self.fields())
    }

    /// The bodies of a list of messages.
    pub open spec fn bodies(items: Seq<Self>) -> Seq<Seq<u8>>
        decreases items, 2int,
    {
        Seq::new(
            items.len(),
            |i: int|
                if 0 <= i < items.len() {
                    items[i].wire()
                } else {
                    Seq::empty()
                },
        )
    }

    /// A repeated member of this type as fields: one run per item, in order.
    pub open spec fn repeated(number: u32, items: Seq<Self>) -> Seq<Field>
        decreases items, 3int,
    {
        repeated_runs(number, Self::bodies(items))
    }
}

impl InstrumentationScopeView {
    /// Merges one field into the message: a field of a member gives the member its
    /// value, or one more item; any other field is passed over. `None` where the
    /// payload of a member's field is malformed.
    pub open spec fn merge(acc: Self, f: Field) -> Option<Self> {
        if f.number == 1 && f.payload is Run {
            if valid_utf8(f.payload->Run_0) {
                Some(Self { name: decode_utf8(f.payload->Run_0), ..acc })
            } else {
                None
            }
        } else if f.number == 2 && f.payload is Run {
            if valid_utf8(f.payload->Run_0) {
                Some(Self { version: decode_utf8(f.payload->Run_0), ..acc })
            } else {
                None
            }
        } else if f.number == 3 && f.payload is Run {
            match KeyValueView::decode(f.payload->Run_0) {
                Some(x) => Some(Self { attributes: acc.attributes.push(x), ..acc }),
                None => None,
            }
        } else if f.number == 4 && f.payload is Varint {
            Some(Self { dropped_attributes_count: low32(f.payload->Varint_0), ..acc })
        } else {
            Some(acc)
        }
    }

    /// `merge` as a function of the message and the field.
    pub open spec fn merge_fn() -> spec_fn(Self, Field) -> Option<Self> {
        |acc: Self, f: Field| Self::merge(acc, f)
    }

    /// The message that a body stands for: its fields, merged one by one into the
    /// message with every member at its zero value.
    #[verifier::opaque]
    pub open spec fn decode(b: Seq<u8>) -> Option<Self> {
        decode_with(Self::merge_fn(), Self::default(), b)
    }

    /// The fields that the message is written as, in the order of writing.
    pub open spec fn fields(self) -> Seq<Field> {
        run_member(1, encode_utf8(self.name))
            + run_member(2, encode_utf8(self.version))
            + KeyValueView::repeated(3, self.attributes)
            + varint_member(4, self.dropped_attributes_count as u64)
    }

    /// The body of the message in bytes.
    #[verifier::opaque]
    pub open spec fn wire(self) -> Seq<u8> {
        fields_bytes(self.fields())
    }

    /// An optional member of this type as fields: a run where it is present.
    pub open spec fn optional(number: u32, item: Option<Self>) -> Seq<Field> {
        message_member(
            number,
            match item {
                Some(x) => Some(x.wire()),
                None => None,
            },
        )
    }
}

impl ResourceView {
    /// Merges one field into the message: a field of a member gives the member its
    /// value, or one more item; any other field is passed over. `None` where the
    /// payload of a member's field is malformed.
    pub open spec fn merge(acc: Self, f: Field) -> Option<Self> {
        if f.number == 1 && f.payload is Run {
            match KeyValueView::decode(f.payload->Run_0) {
                Some(x) => Some(Self { attributes: acc.attributes.push(x), ..acc }),
                None => None,
            }
        } else if f.number == 2 && f.payload is Varint {
            Some(Self { dropped_attributes_count: low32(f.payload->Varint_0), ..acc })
        } else {
            Some(acc)
        }
    }

    /// `merge` as a function of the message and the field.
    pub open spec fn merge_fn() -> spec_fn(Self, Field) -> Option<Self> {
        |acc: Self, f: Field| Self::merge(acc, f)
    }

    /// The message that a body stands for: its fields, merged one by one into the
    /// message with every member at its zero value.
    #[verifier::opaque]
    pub open spec fn decode(b: Seq<u8>) -> Option<Self> {
        decode_with(Self::merge_fn(), Self::default(), b)
    }

    /// The fields that the message is written as, in the order of writing.
    pub open spec fn fields(self) -> Seq<Field> {
        KeyValueView::repeated(1, self.attributes)
            + varint_member(2, self.dropped_attributes_count as u64)
    }

    /// The body of the message in bytes.
    #[verifier::opaque]
    pub open spec fn wire(self) -> Seq<u8> {
        fields_bytes(self.fields())
    }

    /// An optional member of this type as fields: a run where it is present.
    pub open spec fn optional(number: u32, item: Option<Self>) -> Seq<Field> {
        message_member(
            number,
            match item {
                Some(x) => Some(x.wire()),
                None => None,
            },
        )
    }
}

} // verus!
