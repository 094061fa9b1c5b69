//! The wire format of the trace family: which fields a message is written as, and
//! which message a run of fields stands for.

use crate::field::{Field, decode_with, fields_bytes};
use crate::member::{fixed64_member, message_member, repeated_runs, run_member, varint_member};
use crate::opentelemetry::common::types::{InstrumentationScopeView, KeyValueView, ResourceView};
use crate::opentelemetry::trace::types::{
    ExportTraceServiceRequestView, ResourceSpansView, ScopeSpansView, SpanEventView, SpanKind,
    SpanLinkView, SpanView, StatusCode, StatusView,
};
use crate::wire::{low32, low32_signed};
use vstd::prelude::*;
use vstd::utf8::{decode_utf8, encode_utf8, valid_utf8};

verus! {

impl StatusView {
    /// Merges one field into the message: a field of a member gives the member its
    /// value, or one more item; any other field is passed over. `None` where the
    /// payload of a member's field is malformed.
    pub open spec fn merge(acc: Self, f: Field) -> Option<Self> {
        if f.number == 2 && f.payload is Run {
            if valid_utf8(f.payload->Run_0) {
                Some(Self { message: decode_utf8(f.payload->Run_0), ..acc })
            } else {
                None
            }
        } else if f.number == 3 && f.payload is Varint {
            Some(
                Self {
                    code: StatusCode::spec_from_number(low32_signed(f.payload->Varint_0)),
                    ..acc
                },
            )
        } else {
            Some(acc)
        }
    }

    /// `merge` as a function of the message and the field.
    pub open spec fn merge_fn() -> spec_fn(Self, Field) -> Option<Self> {
        |acc: Self, f: Field| Self::merge(acc, f)
    }

    /// The message that a body stands for: its fields, merged one by one into the
    /// message with every member at its zero value.
    #[verifier::opaque]
    pub open spec fn decode(b: Seq<u8>) -> Option<Self> {
        decode_with(Self::merge_fn(), Self::default(), b)
    }

    /// The fields that the message is written as, in the order of writing.
    pub open spec fn fields(self) -> Seq<Field> {
        run_member(2, encode_utf8(self.message))
            + varint_member(3, self.code.spec_number() as u64)
    }

    /// The body of the message in bytes.
    #[verifier::opaque]
    pub open spec fn wire(self) -> Seq<u8> {
        fields_bytes(self.fields())
    }

    /// An optional member of this type as fields: a run where it is present.
    pub open spec fn optional(number: u32, item: Option<Self>) -> Seq<Field> {
        message_member(
            number,
            match item {
                Some(x) => Some(x.wire()),
                None => None,
            },
        )
    }
}

impl SpanEventView {
    /// Merges one field into the message: a field of a member gives the member its
    /// value, or one more item; any other field is passed over. `None` where the
    /// payload of a member's field is malformed.
    pub open spec fn merge(acc: Self, f: Field) -> Option<Self> {
        if f.number == 1 && f.payload is Fixed64 {
            Some(Self { time_unix_nano: f.payload->Fixed64_0, ..acc })
        } else if f.number == 2 && f.payload is Run {
            if valid_utf8(f.payload->Run_0) {
                Some(Self { name: decode_utf8(f.payload->Run_0), ..acc })
            } else {
                None
            }
        } else if f.number == 3 && f.payload is Run {
            match KeyValueView::decode(f.payload->Run_0) {
                Some(x) => Some(Self { attributes: acc.attributes.push(x), ..acc }),
                None => None,
            }
        } else if f.number == 4 && f.payload is Varint {
            Some(Self { dropped_attributes_count: low32(f.payload->Varint_0), ..acc })
        } else {
            Some(acc)
        }
    }

    /// `merge` as a function of the message and the field.
    pub open spec fn merge_fn() -> spec_fn(Self, Field) -> Option<Self> {
        |acc: Self, f: Field| Self::merge(acc, f)
    }

    /// The message that a body stands for: its fields, merged one by one into the
    /// message with every member at its zero value.
    #[verifier::opaque]
    pub open spec fn decode(b: Seq<u8>) -> Option<Self> {
        decode_with(Self::merge_fn(), Self::default(), b)
    }

    /// The fields that the message is written as, in the order of writing.
    pub open spec fn fields(self) -> Seq<Field> {
        fixed64_member(1, self.time_unix_nano)
            + run_member(2, encode_utf8(self.name))
            + KeyValueView::repeated(3, self.attributes)
            + varint_member(4, self.dropped_attributes_count as u64)
    }

    /// The body of the message in bytes.
    #[verifier::opaque]
    pub open spec fn wire(self) -> Seq<u8> {
        fields_bytes(self.fields())
    }

    /// The bodies of a list of messages.
    pub open spec fn bodies(items: Seq<Self>) -> Seq<Seq<u8>> {
        Seq::new(items.len(), |i: int| items[i].wire())
    }

    /// A repeated member of this type as fields: one run per item, in order.
    pub open spec fn repeated(number: u32, items: Seq<Self>) -> Seq<Field> {
        repeated_runs(number, Self::bodies(items))
    }
}

impl SpanLinkView {
    /// Merges one field into the message: a field of a member gives the member its
    /// value, or one more item; any other field is passed over. `None` where the
    /// payload of a member's field is malformed.
    pub open spec fn merge(acc: Self, f: Field) -> Option<Self> {
        if f.number == 1 && f.payload is Run {
            Some(Self { trace_id: f.payload->Run_0, ..acc })
        } else if f.number == 2 && f.payload is Run {
            Some(Self { span_id: f.payload->Run_0, ..acc })
        } else if f.number == 3 && f.payload is Run {
            if valid_utf8(f.payload->Run_0) {
                Some(Self { trace_state: decode_utf8(f.payload->Run_0), ..acc })
            } else {
                None
            }
        } else if f.number == 4 && f.payload is Run {
            match KeyValueView::decode(f.payload->Run_0) {
                Some(x) => Some(Self { attributes: acc.attributes.push(x), ..acc }),
                None => None,
            }
        } else if f.number == 5 && f.payload is Varint {
            Some(Self { dropped_attributes_count: low32(f.payload->Varint_0), ..acc })
        } else {
            Some(acc)
        }
    }

    /// `merge` as a function of the message and the field.
    pub open spec fn merge_fn() -> spec_fn(Self, Field) -> Option<Self> {
        |acc: Self, f: Field| Self::merge(acc, f)
    }

    /// The message that a body stands for: its fields, merged one by one into the
    /// message with every member at its zero value.
    #[verifier::opaque]
    pub open spec fn decode(b: Seq<u8>) -> Option<Self> {
        decode_with(Self::merge_fn(), Self::default(), b)
    }

    /// The fields that the message is written as, in the order of writing.
    pub open spec fn fields(self) -> Seq<Field> {
        run_member(1, self.trace_id)
            + run_member(2, self.span_id)
            + run_member(3, encode_utf8(self.trace_state))
            + KeyValueView::repeated(4, self.attributes)
            + varint_member(5, self.dropped_attributes_count as u64)
    }

    /// The body of the message in bytes.
    #[verifier::opaque]
    pub open spec fn wire(self) -> Seq<u8> {
        fields_bytes(self.fields())
    }

    /// The bodies of a list of messages.
    pub open spec fn bodies(items: Seq<Self>) -> Seq<Seq<u8>> {
        Seq::new(items.len(), |i: int| items[i].wire())
    }

    /// A repeated member of this type as fields: one run per item, in order.
    pub open spec fn repeated(number: u32, items: Seq<Self>) -> Seq<Field> {
        repeated_runs(number, Self::bodies(items))
    }
}

impl SpanView {
    /// Merges one field into the message: a field of a member gives the member its
    /// value, or one more item; any other field is passed over. `None` where the
    /// payload of a member's field is malformed.
    pub open spec fn merge(acc: Self, f: Field) -> Option<Self> {
        if f.number == 1 && f.payload is Run {
            Some(Self { trace_id: f.payload->Run_0, ..acc })
        } else if f.number == 2 && f.payload is Run {
            Some(Self { span_id: f.payload->Run_0, ..acc })
        } else if f.number == 3 && f.payload is Run {
            if valid_utf8(f.payload->Run_0) {
                Some(Self { trace_state: decode_utf8(f.payload->Run_0), ..acc })
            } else {
                None
            }
        } else if f.number == 4 && f.payload is Run {
            Some(Self { parent_span_id: f.payload->Run_0, ..acc })
        } else if f.number == 5 && f.payload is Run {
            if valid_utf8(f.payload->Run_0) {
                Some(Self { name: decode_utf8(f.payload->Run_0), ..acc })
            } else {
                None
            }
        } else if f.number == 6 && f.payload is Varint {
            Some(
                Self { kind: SpanKind::spec_from_number(low32_signed(f.payload->Varint_0)), ..acc },
            )
        } else if f.number == 7 && f.payload is Fixed64 {
            Some(Self { start_time_unix_nano: f.payload->Fixed64_0, ..acc })
        } else if f.number == 8 && f.payload is Fixed64 {
            Some(Self { end_time_unix_nano: f.payload->Fixed64_0, ..acc })
        } else if f.number == 9 && f.payload is Run {
            match KeyValueView::decode(f.payload->Run_0) {
                Some(x) => Some(Self { attributes: acc.attributes.push(x), ..acc }),
                None => None,
            }
        } else if f.number == 10 && f.payload is Varint {
            Some(Self { dropped_attributes_count: low32(f.payload->Varint_0), ..acc })
        } else if f.number == 11 && f.payload is Run {
            match SpanEventView::decode(f.payload->Run_0) {
                Some(x) => Some(Self { events: acc.events.push(x), ..acc }),
                None => None,
            }
        } else if f.number == 12 && f.payload is Varint {
            Some(Self { dropped_events_count: low32(f.payload->Varint_0), ..acc })
        } else if f.number == 13 && f.payload is Run {
            match SpanLinkView::decode(f.payload->Run_0) {
                Some(x) => Some(Self { links: acc.links.push(x), ..acc }),
                None => None,
            }
        } else if f.number == 14 && f.payload is Varint {
            Some(Self { dropped_links_count: low32(f.payload->Varint_0), ..acc })
        } else if f.number == 15 && f.payload is Run {
            match StatusView::decode(f.payload->Run_0) {
                Some(x) => Some(Self { status: Some(x), ..acc }),
                None => None,
            }
        } else {
            Some(acc)
        }
    }

    /// `merge` as a function of the message and the field.
    pub open spec fn merge_fn() -> spec_fn(Self, Field) -> Option<Self> {
        |acc: Self, f: Field| Self::merge(acc, f)
    }

    /// The message that a body stands for: its fields, merged one by one into the
    /// message with every member at its zero value.
    #[verifier::opaque]
    pub open spec fn decode(b: Seq<u8>) -> Option<Self> {
        decode_with(Self::merge_fn(), Self::default(), b)
    }

    /// The fields that the message is written as, in the order of writing.
    pub open spec fn fields(self) -> Seq<Field> {
        run_member(1, self.trace_id)
            + run_member(2, self.span_id)
            + run_member(3, encode_utf8(self.trace_state))
            + run_member(4, self.parent_span_id)
            + run_member(5, encode_utf8(self.name))
            + varint_member(6, self.kind.spec_number() as u64)
            + fixed64_member(7, self.start_time_unix_nano)
            + fixed64_member(8, self.end_time_unix_nano)
            + KeyValueView::repeated(9, self.attributes)
            + varint_member(10, self.dropped_attributes_count as u64)
            + SpanEventView::repeated(11, self.events)
            + varint_member(12, self.dropped_events_count as u64)
            + SpanLinkView::repeated(13, self.links)
            + varint_member(14, self.dropped_links_count as u64)
            + StatusView::optional(15, self.status)
    }

    /// The body of the message in bytes.
    #[verifier::opaque]
    pub open spec fn wire(self) -> Seq<u8> {
        fields_bytes(self.fields())
    }

    /// The bodies of a list of messages.
    pub open spec fn bodies(items: Seq<Self>) -> Seq<Seq<u8>> {
        Seq::new(items.len(), |i: int| items[i].wire())
    }

    /// A repeated member of this type as fields: one run per item, in order.
    pub open spec fn repeated(number: u32, items: Seq<Self>) -> Seq<Field> {
        repeated_runs(number, Self::bodies(items))
    }
}

impl ScopeSpansView {
    /// Merges one field into the message: a field of a member gives the member its
    /// value, or one more item; any other field is passed over. `None` where the
    /// payload of a member's field is malformed.
    pub open spec fn merge(acc: Self, f: Field) -> Option<Self> {
        if f.number == 1 && f.payload is Run {
            match InstrumentationScopeView::decode(f.payload->Run_0) {
                Some(x) => Some(Self { scope: Some(x), ..acc }),
                None => None,
            }
        } else if f.number == 2 && f.payload is Run {
            match SpanView::decode(f.payload->Run_0) {
                Some(x) => Some(Self { spans: acc.spans.push(x), ..acc }),
                None => None,
            }
        } else if f.number == 3 && f.payload is Run {
            if valid_utf8(f.payload->Run_0) {
                Some(Self { schema_url: decode_utf8(f.payload->Run_0), ..acc })
            } else {
                None
            }
        } else {
            Some(acc)
        }
    }

    /// `merge` as a function of the message and the field.
    pub open spec fn merge_fn() -> spec_fn(Self, Field) -> Option<Self> {
        |acc: Self, f: Field| Self::merge(acc, f)
    }

    /// The message that a body stands for: its fields, merged one by one into the
    /// message with every member at its zero value.
    #[verifier::opaque]
    pub open spec fn decode(b: Seq<u8>) -> Option<Self> {
        decode_with(Self::merge_fn(), Self::default(), b)
    }

    /// The fields that the message is written as, in the order of writing.
    pub open spec fn fields(self) -> Seq<Field> {
        InstrumentationScopeView::optional(1, self.scope)
            + SpanView::repeated(2, self.spans)
            + run_member(3, encode_utf8(self.schema_url))
    }

    /// The body of the message in bytes.
    #[verifier::opaque]
    pub open spec fn wire(self) -> Seq<u8> {
        fields_bytes(self.fields())
    }

    /// The bodies of a list of messages.
    pub open spec fn bodies(items: Seq<Self>) -> Seq<Seq<u8>> {
        Seq::new(items.len(), |i: int| items[i].wire())
    }

    /// A repeated member of this type as fields: one run per item, in order.
    pub open spec fn repeated(number: u32, items: Seq<Self>) -> Seq<Field> {
        repeated_runs(number, Self::bodies(items))
    }
}

impl ResourceSpansView {
    /// Merges one field into the message: a field of a member gives the member its
    /// value, or one more item; any other field is passed over. `None` where the
    /// payload of a member's field is malformed.
    pub open spec fn merge(acc: Self, f: Field) -> Option<Self> {
        if f.number == 1 && f.payload is Run {
            match ResourceView::decode(f.payload->Run_0) {
                Some(x) => Some(Self { resource: Some(x), ..acc }),
                None => None,
            }
        } else if f.number == 2 && f.payload is Run {
            match ScopeSpansView::decode(f.payload->Run_0) {
                Some(x) => Some(Self { scope_spans: acc.scope_spans.push(x), ..acc }),
                None => None,
            }
        } else if f.number == 3 && f.payload is Run {
            if valid_utf8(f.payload->Run_0) {
                Some(Self { schema_url: decode_utf8(f.payload->Run_0), ..acc })
            } else {
                None
            }
        } else {
            Some(acc)
        }
    }

    /// `merge` as a function of the message and the field.
    pub open spec fn merge_fn() -> spec_fn(Self, Field) -> Option<Self> {
        |acc: Self, f: Field| Self::merge(acc, f)
    }

    /// The message that a body stands for: its fields, merged one by one into the
    /// message with every member at its zero value.
    #[verifier::opaque]
    pub open spec fn decode(b: Seq<u8>) -> Option<Self> {
        decode_with(Self::merge_fn(), Self::default(), b)
    }

    /// The fields that the message is written as, in the order of writing.
    pub open spec fn fields(self) -> Seq<Field> {
        ResourceView::optional(1, self.resource)
            + ScopeSpansView::repeated(2, self.scope_spans)
            + run_member(3, encode_utf8(self.schema_url))
    }

    /// The body of the message in bytes.
    #[verifier::opaque]
    pub open spec fn wire(self) -> Seq<u8> {
        fields_bytes(self.fields())
    }

    /// The bodies of a list of messages.
    pub open spec fn bodies(items: Seq<Self>) -> Seq<Seq<u8>> {
        Seq::new(items.len(), |i: int| items[i].wire())
    }

    /// A repeated member of this type as fields: one run per item, in order.
    pub open spec fn repeated(number: u32, items: Seq<Self>) -> Seq<Field> {
        repeated_runs(number, Self::bodies(items))
    }
}

impl ExportTraceServiceRequestView {
    /// Merges one field into the message: a field of a member gives the member its
    /// value, or one more item; any other field is passed over. `None` where the
    /// payload of a member's field is malformed.
    pub open spec fn merge(acc: Self, f: Field) -> Option<Self> {
        if f.number == 1 && f.payload is Run {
            match ResourceSpansView::decode(f.payload->Run_0) {
                Some(x) => Some(Self { resource_spans: acc.resource_spans.push(x) }),
                None => None,
            }
        } else {
            Some(acc)
        }
    }

    /// `merge` as a function of the message and the field.
    pub open spec fn merge_fn() -> spec_fn(Self, Field) -> Option<Self> {
        |acc: Self, f: Field| Self::merge(acc, f)
    }

    /// The message that a body stands for: its fields, merged one by one into the
    /// message with every member at its zero value.
    #[verifier::opaque]
    pub open spec fn decode(b: Seq<u8>) -> Option<Self> {
        decode_with(Self::merge_fn(), Self::default(), b)
    }

    /// The fields that the message is written as, in the order of writing.
    pub open spec fn fields(self) -> Seq<Field> {
        ResourceSpansView::repeated(1, self.resource_spans)
    }

    /// The body of the message in bytes.
    #[verifier::opaque]
    pub open spec fn wire(self) -> Seq<u8> {
        fields_bytes(self.fields())
    }
}

} // verus!
