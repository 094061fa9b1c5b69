//! Copies that own what they hold. A decoded message borrows its text and its byte
//! strings from the input; its owned copy does not, and stands for the same message.

use crate::opentelemetry::common::types::{
    AnyValue, AnyValueOneOfvalue, ArrayValue, InstrumentationScope, KeyValue, KeyValueList,
    Resource,
};
use crate::text::{run_bytes, text_str};
use std::borrow::Cow;
use vstd::prelude::*;
use vstd::slice::slice_to_vec;

verus! {

impl<'a> AnyValueOneOfvalue<'a> {
    /// A copy that owns its text and bytes.
    pub fn owned(&self) -> (r: AnyValueOneOfvalue<'static>)
        ensures
            r@ == self@,
        decreases self,
    {
        match self {
            AnyValueOneOfvalue::string_value(x) => AnyValueOneOfvalue::string_value(
                Cow::Owned(text_str(x).to_owned()),
            ),
            AnyValueOneOfvalue::bool_value(x) => AnyValueOneOfvalue::bool_value(*x),
            AnyValueOneOfvalue::int_value(x) => AnyValueOneOfvalue::int_value(*x),
            AnyValueOneOfvalue::double_value(x) => AnyValueOneOfvalue::double_value(*x),
            AnyValueOneOfvalue::array_value(x) => AnyValueOneOfvalue::array_value(x.owned()),
            AnyValueOneOfvalue::kvlist_value(x) => AnyValueOneOfvalue::kvlist_value(x.owned()),
            AnyValueOneOfvalue::bytes_value(x) => AnyValueOneOfvalue::bytes_value(
                Cow::Owned(slice_to_vec(run_bytes(x))),
            ),
            AnyValueOneOfvalue::Unset => AnyValueOneOfvalue::Unset,
        }
    }
}

impl<'a> AnyValue<'a> {
    /// A copy that owns its text and bytes, and so outlives the bytes that the message
    /// was decoded from.
    pub fn owned(&self) -> (r: AnyValue<'static>)
        ensures
            r@ == self@,
        decreases self,
    {
        AnyValue {
            value: self.value.owned(),
        }
    }

    /// An owned copy of an optional message.
    pub fn owned_option(item: &Option<AnyValue<'a>>) -> (r: Option<AnyValue<'static>>)
        ensures
            AnyValue::view_of(r) == AnyValue::view_of(*item),
        decreases item,
    {
        match item {
            Some(x) => Some(x.owned()),
            None => None,
        }
    }

    /// Owned copies of the messages of a list, in order.
    pub fn owned_list(items: &Vec<AnyValue<'a>>) -> (r: Vec<AnyValue<'static>>)
        ensures
            AnyValue::views(r@) == AnyValue::views(items@),
        decreases items,
    {
        let mut out: Vec<AnyValue<'static>> = Vec::new();
        let mut i: usize = 0;
        while i < items.len()
            invariant
                i <= items.len(),
                out.len() == i,
                forall|j: int| 0 <= j < i ==> out@[j]@ == items@[j]@,
            decreases items.len() - i,
        {
            let item = items[i].owned();
            out.push(item);
            i = i + 1;
        }
        assert(AnyValue::views(out@) =~= AnyValue::views(items@));
        out
    }
}

impl<'a> ArrayValue<'a> {
    /// A copy that owns its text and bytes, and so outlives the bytes that the message
    /// was decoded from.
    pub fn owned(&self) -> (r: ArrayValue<'static>)
        ensures
            r@ == self@,
        decreases self,
    {
        ArrayValue {
            values: AnyValue::owned_list(&self.values),
        }
    }
}

impl<'a> KeyValueList<'a> {
    /// A copy that owns its text and bytes, and so outlives the bytes that the message
    /// was decoded from.
    pub fn owned(&self) -> (r: KeyValueList<'static>)
        ensures
            r@ == self@,
        decreases self,
    {
        KeyValueList {
            values: KeyValue::owned_list(&self.values),
        }
    }
}

impl<'a> KeyValue<'a> {
    /// A copy that owns its text and bytes, and so outlives the bytes that the message
    /// was decoded from.
    pub fn owned(&self) -> (r: KeyValue<'static>)
        ensures
            r@ == self@,
        decreases self,
    {
        KeyValue {
            key: Cow::Owned(text_str(&self.key).to_owned()),
            value: AnyValue::owned_option(&self.value),
        }
    }

    /// Owned copies of the messages of a list, in order.
    pub fn owned_list(items: &Vec<KeyValue<'a>>) -> (r: Vec<KeyValue<'static>>)
        ensures
            KeyValue::views(r@) == KeyValue::views(items@),
        decreases items,
    {
        let mut out: Vec<KeyValue<'static>> = Vec::new();
        let mut i: usize = 0;
        while i < items.len()
            invariant
                i <= items.len(),
                out.len() == i,
                forall|j: int| 0 <= j < i ==> out@[j]@ == items@[j]@,
            decreases items.len() - i,
        {
            let item = items[i].owned();
            out.push(item);
            i = i + 1;
        }
        assert(KeyValue::views(out@) =~= KeyValue::views(items@));
        out
    }
}

impl<'a> InstrumentationScope<'a> {
    /// A copy that owns its text and bytes, and so outlives the bytes that the message
    /// was decoded from.
    pub fn owned(&self) -> (r: InstrumentationScope<'static>)
        ensures
            r@ == self@,
    {
        InstrumentationScope {
            name: Cow::Owned(text_str(&self.name).to_owned()),
            version: Cow::Owned(text_str(&self.version).to_owned()),
            attributes: KeyValue::owned_list(&self.attributes),
            dropped_attributes_count: self.dropped_attributes_count,
        }
    }

    /// An owned copy of an optional message.
    pub fn owned_option(item: &Option<InstrumentationScope<'a>>) -> (
        r: Option<InstrumentationScope<'static>>
    )
        ensures
            InstrumentationScope::view_of(r) == InstrumentationScope::view_of(*item),
    {
        match item {
            Some(x) => Some(x.owned()),
            None => None,
        }
    }
}

impl<'a> Resource<'a> {
    /// A copy that owns its text and bytes, and so outlives the bytes that the message
    /// was decoded from.
    pub fn owned(&self) -> (r: Resource<'static>)
        ensures
            r@ == self@,
    {
        Resource {
            attributes: KeyValue::owned_list(&self.attributes),
            dropped_attributes_count: self.dropped_attributes_count,
        }
    }

    /// An owned copy of an optional message.
    pub fn owned_option(item: &Option<Resource<'a>>) -> (r: Option<Resource<'static>>)
        ensures
            Resource::view_of(r) == Resource::view_of(*item),
    {
        match item {
            Some(x) => Some(x.owned()),
            None => None,
        }
    }
}

} // verus!
