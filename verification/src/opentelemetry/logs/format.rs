//! The wire format of the logs family: which fields a message is written as, and
//! which message a run of fields stands for.

use crate::field::{Field, decode_with, fields_bytes};
use crate::member::{fixed32_member, fixed64_member, repeated_runs, run_member, varint_member};
use crate::opentelemetry::common::types::{
    AnyValueView, InstrumentationScopeView, KeyValueView, ResourceView,
};
use crate::opentelemetry::logs::types::{
    ExportLogsServiceRequestView, LogRecordView, ResourceLogsView, ScopeLogsView, SeverityNumber,
};
use crate::wire::{low32, low32_signed};
use vstd::prelude::*;
use vstd::utf8::{decode_utf8, encode_utf8, valid_utf8};

verus! {

impl LogRecordView {
    /// Merges one field into the message: a field of a member gives the member its
    /// value, or one more item; any other field is passed over. `None` where the
    /// payload of a member's field is malformed.
    pub open spec fn merge(acc: Self, f: Field) -> Option<Self> {
        if f.number == 1 && f.payload is Fixed64 {
            Some(Self { time_unix_nano: f.payload->Fixed64_0, ..acc })
        } else if f.number == 11 && f.payload is Fixed64 {
            Some(Self { observed_time_unix_nano: f.payload->Fixed64_0, ..acc })
        } else if f.number == 2 && f.payload is Varint {
            Some(
                Self {
                    severity_number: SeverityNumber::spec_from_number(
                        low32_signed(f.payload->Varint_0),
                    ),
                    ..acc
                },
            )
        } else if f.number == 3 && f.payload is Run {
            if valid_utf8(f.payload->Run_0) {
                Some(Self { severity_text: decode_utf8(f.payload->Run_0), ..acc })
            } else {
                None
            }
        } else if f.number == 5 && f.payload is Run {
            match AnyValueView::decode(f.payload->Run_0) {
                Some(x) => Some(Self { body: Some(x), ..acc }),
                None => None,
            }
        } else if f.number == 6 && f.payload is Run {
            match KeyValueView::decode(f.payload->Run_0) {
                Some(x) => Some(Self { attributes: acc.attributes.push(x), ..acc }),
                None => None,
            }
        } else if f.number == 7 && f.payload is Varint {
            Some(Self { dropped_attributes_count: low32(f.payload->Varint_0), ..acc })
        } else if f.number == 8 && f.payload is Fixed32 {
            Some(Self { flags: f.payload->Fixed32_0, ..acc })
        } else if f.number == 9 && f.payload is Run {
            Some(Self { trace_id: f.payload->Run_0, ..acc })
        } else if f.number == 10 && f.payload is Run {
            Some(Self { span_id: f.payload->Run_0, ..acc })
        } else {
            Some(acc)
        }
    }

    /// `merge` as a function of the message and the field.
    pub open spec fn merge_fn() -> spec_fn(Self, Field) -> Option<Self> {
        |acc: Self, f: Field| Self::merge(acc, f)
    }

    /// The message that a body stands for: its fields, merged one by one into the
    /// message with every member at its zero value.
    #[verifier::opaque]
    pub open spec fn decode(b: Seq<u8>) -> Option<Self> {
        decode_with(Self::merge_fn(), Self::default(), b)
    }

    /// The fields that the message is written as, in the order of writing.
    pub open spec fn fields(self) -> Seq<Field> {
        fixed64_member(1, self.time_unix_nano)
            + fixed64_member(11, self.observed_time_unix_nano)
            + varint_member(2, self.severity_number.spec_number() as u64)
            + run_member(3, encode_utf8(self.severity_text))
            + AnyValueView::optional(5, self.body)
            + KeyValueView::repeated(6, self.attributes)
            + varint_member(7, self.dropped_attributes_count as u64)
            + fixed32_member(8, self.flags)
            + run_member(9, self.trace_id)
            + run_member(10, self.span_id)
    }

    /// The body of the message in bytes.
    #[verifier::opaque]
    pub open spec fn wire(self) -> Seq<u8> {
        fields_bytes(self.fields())
    }

    /// The bodies of a list of messages.
    pub open spec fn bodies(items: Seq<Self>) -> Seq<Seq<u8>> {
        Seq::new(items.len(), |i: int| items[i].wire())
    }

    /// A repeated member of this type as fields: one run per item, in order.
    pub open spec fn repeated(number: u32, items: Seq<Self>) -> Seq<Field> {
        repeated_runs(number, Self::bodies(items))
    }
}

impl ScopeLogsView {
    /// Merges one field into the message: a field of a member gives the member its
    /// value, or one more item; any other field is passed over. `None` where the
    /// payload of a member's field is malformed.
    pub open spec fn merge(acc: Self, f: Field) -> Option<Self> {
        if f.number == 1 && f.payload is Run {
            match InstrumentationScopeView::decode(f.payload->Run_0) {
                Some(x) => Some(Self { scope: Some(x), ..acc }),
                None => None,
            }
        } else if f.number == 2 && f.payload is Run {
            match LogRecordView::decode(f.payload->Run_0) {
                Some(x) => Some(Self { log_records: acc.log_records.push(x), ..acc }),
                None => None,
            }
        } else if f.number == 3 && f.payload is Run {
            if valid_utf8(f.payload->Run_0) {
                Some(Self { schema_url: decode_utf8(f.payload->Run_0), ..acc })
            } else {
                None
            }
        } else {
            Some(acc)
        }
    }

    /// `merge` as a function of the message and the field.
    pub open spec fn merge_fn() -> spec_fn(Self, Field) -> Option<Self> {
        |acc: Self, f: Field| Self::merge(acc, f)
    }

    /// The message that a body stands for: its fields, merged one by one into the
    /// message with every member at its zero value.
    #[verifier::opaque]
    pub open spec fn decode(b: Seq<u8>) -> Option<Self> {
        decode_with(Self::merge_fn(), Self::default(), b)
    }

    /// The fields that the message is written as, in the order of writing.
    pub open spec fn fields(self) -> Seq<Field> {
        InstrumentationScopeView::optional(1, self.scope)
            + LogRecordView::repeated(2, self.log_records)
            + run_member(3, encode_utf8(self.schema_url))
    }

    /// The body of the message in bytes.
    #[verifier::opaque]
    pub open spec fn wire(self) -> Seq<u8> {
        fields_bytes(self.fields())
    }

    /// The bodies of a list of messages.
    pub open spec fn bodies(items: Seq<Self>) -> Seq<Seq<u8>> {
        Seq::new(items.len(), |i: int| items[i].wire())
    }

    /// A repeated member of this type as fields: one run per item, in order.
    pub open spec fn repeated(number: u32, items: Seq<Self>) -> Seq<Field> {
        repeated_runs(number, Self::bodies(items))
    }
}

impl ResourceLogsView {
    /// Merges one field into the message: a field of a member gives the member its
    /// value, or one more item; any other field is passed over. `None` where the
    /// payload of a member's field is malformed.
    pub open spec fn merge(acc: Self, f: Field) -> Option<Self> {
        if f.number == 1 && f.payload is Run {
            match ResourceView::decode(f.payload->Run_0) {
                Some(x) => Some(Self { resource: Some(x), ..acc }),
                None => None,
            }
        } else if f.number == 2 && f.payload is Run {
            match ScopeLogsView::decode(f.payload->Run_0) {
                Some(x) => Some(Self { scope_logs: acc.scope_logs.push(x), ..acc }),
                None => None,
            }
        } else if f.number == 3 && f.payload is Run {
            if valid_utf8(f.payload->Run_0) {
                Some(Self { schema_url: decode_utf8(f.payload->Run_0), ..acc })
            } else {
                None
            }
        } else {
            Some(acc)
        }
    }

    /// `merge` as a function of the message and the field.
    pub open spec fn merge_fn() -> spec_fn(Self, Field) -> Option<Self> {
        |acc: Self, f: Field| Self::merge(acc, f)
    }

    /// The message that a body stands for: its fields, merged one by one into the
    /// message with every member at its zero value.
    #[verifier::opaque]
    pub open spec fn decode(b: Seq<u8>) -> Option<Self> {
        decode_with(Self::merge_fn(), Self::default(), b)
    }

    /// The fields that the message is written as, in the order of writing.
    pub open spec fn fields(self) -> Seq<Field> {
        ResourceView::optional(1, self.resource)
            + ScopeLogsView::repeated(2, self.scope_logs)
            + run_member(3, encode_utf8(self.schema_url))
    }

    /// The body of the message in bytes.
    #[verifier::opaque]
    pub open spec fn wire(self) -> Seq<u8> {
        fields_bytes(self.fields())
    }

    /// The bodies of a list of messages.
    pub open spec fn bodies(items: Seq<Self>) -> Seq<Seq<u8>> {
        Seq::new(items.len(), |i: int| items[i].wire())
    }

    /// A repeated member of this type as fields: one run per item, in order.
    pub open spec fn repeated(number: u32, items: Seq<Self>) -> Seq<Field> {
        repeated_runs(number, Self::bodies(items))
    }
}

impl ExportLogsServiceRequestView {
    /// Merges one field into the message: a field of a member gives the member its
    /// value, or one more item; any other field is passed over. `None` where the
    /// payload of a member's field is malformed.
    pub open spec fn merge(acc: Self, f: Field) -> Option<Self> {
        if f.number == 1 && f.payload is Run {
            match ResourceLogsView::decode(f.payload->Run_0) {
                Some(x) => Some(Self { resource_logs: acc.resource_logs.push(x) }),
                None => None,
            }
        } else {
            Some(acc)
        }
    }

    /// `merge` as a function of the message and the field.
    pub open spec fn merge_fn() -> spec_fn(Self, Field) -> Option<Self> {
        |acc: Self, f: Field| Self::merge(acc, f)
    }

    /// The message that a body stands for: its fields, merged one by one into the
    /// message with every member at its zero value.
    #[verifier::opaque]
    pub open spec fn decode(b: Seq<u8>) -> Option<Self> {
        decode_with(Self::merge_fn(), Self::default(), b)
    }

    /// The fields that the message is written as, in the order of writing.
    pub open spec fn fields(self) -> Seq<Field> {
        ResourceLogsView::repeated(1, self.resource_logs)
    }

    /// The body of the message in bytes.
    #[verifier::opaque]
    pub open spec fn wire(self) -> Seq<u8> {
        fields_bytes(self.fields())
    }
}

} // verus!
