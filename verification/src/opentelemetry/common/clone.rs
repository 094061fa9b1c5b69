//! Copies of messages. A copy stands for the message that it was made from; what
//! the message borrows, the copy borrows too.

use crate::opentelemetry::common::types::{
    AnyValue, AnyValueOneOfvalue, ArrayValue, InstrumentationScope, KeyValue, KeyValueList,
    Resource,
};
use crate::text::{copy_of_run, copy_of_text};
use vstd::prelude::*;

verus! {

impl<'a> AnyValueOneOfvalue<'a> {
    /// A copy of the value.
    pub(crate) fn duplicate(&self) -> (r: AnyValueOneOfvalue<'a>)
        ensures
            r@ == self@,
        decreases self,
    {
        match self {
            AnyValueOneOfvalue::string_value(x) => AnyValueOneOfvalue::string_value(
                copy_of_text(x),
            ),
            AnyValueOneOfvalue::bool_value(x) => AnyValueOneOfvalue::bool_value(*x),
            AnyValueOneOfvalue::int_value(x) => AnyValueOneOfvalue::int_value(*x),
            AnyValueOneOfvalue::double_value(x) => AnyValueOneOfvalue::double_value(*x),
            AnyValueOneOfvalue::array_value(x) => AnyValueOneOfvalue::array_value(x.duplicate()),
            AnyValueOneOfvalue::kvlist_value(x) => AnyValueOneOfvalue::kvlist_value(x.duplicate()),
            AnyValueOneOfvalue::bytes_value(x) => AnyValueOneOfvalue::bytes_value(copy_of_run(x)),
            AnyValueOneOfvalue::Unset => AnyValueOneOfvalue::Unset,
        }
    }
}

impl<'a> Clone for AnyValueOneOfvalue<'a> {
    fn clone(&self) -> (r: Self)
        ensures
            r@ == self@,
    {
        self.duplicate()
    }
}

impl<'a> AnyValue<'a> {
    /// A copy of the message.
    pub(crate) fn duplicate(&self) -> (r: AnyValue<'a>)
        ensures
            r@ == self@,
        decreases self,
    {
        AnyValue {
            value: self.value.duplicate(),
        }
    }

    /// A copy of an optional message.
    pub(crate) fn duplicate_option(item: &Option<AnyValue<'a>>) -> (r: Option<AnyValue<'a>>)
        ensures
            AnyValue::view_of(r) == AnyValue::view_of(*item),
        decreases item,
    {
        match item {
            Some(x) => Some(x.duplicate()),
            None => None,
        }
    }

    /// Copies of the messages of a list, in order.
    pub(crate) fn duplicate_list(items: &Vec<AnyValue<'a>>) -> (r: Vec<AnyValue<'a>>)
        ensures
            AnyValue::views(r@) == AnyValue::views(items@),
        decreases items,
    {
        let mut out: Vec<AnyValue<'a>> = Vec::new();
        let mut i: usize = 0;
        while i < items.len()
            invariant
                i <= items.len(),
                out.len() == i,
                forall|j: int| 0 <= j < i ==> out@[j]@ == items@[j]@,
            decreases items.len() - i,
        {
            let item = items[i].duplicate();
            out.push(item);
            i = i + 1;
        }
        assert(AnyValue::views(out@) =~= AnyValue::views(items@));
        out
    }
}

impl<'a> Clone for AnyValue<'a> {
    fn clone(&self) -> (r: Self)
        ensures
            r@ == self@,
    {
        self.duplicate()
    }
}

impl<'a> ArrayValue<'a> {
    /// A copy of the message.
    pub(crate) fn duplicate(&self) -> (r: ArrayValue<'a>)
        ensures
            r@ == self@,
        decreases self,
    {
        ArrayValue {
            values: AnyValue::duplicate_list(&self.values),
        }
    }
}

impl<'a> Clone for ArrayValue<'a> {
    fn clone(&self) -> (r: Self)
        ensures
            r@ == self@,
    {
        self.duplicate()
    }
}

impl<'a> KeyValueList<'a> {
    /// A copy of the message.
    pub(crate) fn duplicate(&self) -> (r: KeyValueList<'a>)
        ensures
            r@ == self@,
        decreases self,
    {
        KeyValueList {
            values: KeyValue::duplicate_list(&self.values),
        }
    }
}

impl<'a> Clone for KeyValueList<'a> {
    fn clone(&self) -> (r: Self)
        ensures
            r@ == self@,
    {
        self.duplicate()
    }
}

impl<'a> KeyValue<'a> {
    /// A copy of the message.
    pub(crate) fn duplicate(&self) -> (r: KeyValue<'a>)
        ensures
            r@ == self@,
        decreases self,
    {
        KeyValue {
            key: copy_of_text(&self.key),
            value: AnyValue::duplicate_option(&self.value),
        }
    }

    /// Copies of the messages of a list, in order.
    pub(crate) fn duplicate_list(items: &Vec<KeyValue<'a>>) -> (r: Vec<KeyValue<'a>>)
        ensures
            KeyValue::views(r@) == KeyValue::views(items@),
        decreases items,
    {
        let mut out: Vec<KeyValue<'a>> = Vec::new();
        let mut i: usize = 0;
        while i < items.len()
            invariant
                i <= items.len(),
                out.len() == i,
                forall|j: int| 0 <= j < i ==> out@[j]@ == items@[j]@,
            decreases items.len() - i,
        {
            let item = items[i].duplicate();
            out.push(item);
            i = i + 1;
        }
        assert(KeyValue::views(out@) =~= KeyValue::views(items@));
        out
    }
}

impl<'a> Clone for KeyValue<'a> {
    fn clone(&self) -> (r: Self)
        ensures
            r@ == self@,
    {
        self.duplicate()
    }
}

impl<'a> InstrumentationScope<'a> {
    /// A copy of the message.
    pub(crate) fn duplicate(&self) -> (r: InstrumentationScope<'a>)
        ensures
            r@ == self@,
    {
        InstrumentationScope {
            name: copy_of_text(&self.name),
            version: copy_of_text(&self.version),
            attributes: KeyValue::duplicate_list(&self.attributes),
            dropped_attributes_count: self.dropped_attributes_count,
        }
    }

    /// A copy of an optional message.
    pub(crate) fn duplicate_option(item: &Option<InstrumentationScope<'a>>) -> (
        r: Option<InstrumentationScope<'a>>
    )
        ensures
            InstrumentationScope::view_of(r) == InstrumentationScope::view_of(*item),
    {
        match item {
            Some(x) => Some(x.duplicate()),
            None => None,
        }
    }
}

impl<'a> Clone for InstrumentationScope<'a> {
    fn clone(&self) -> (r: Self)
        ensures
            r@ == self@,
    {
        self.duplicate()
    }
}

impl<'a> Resource<'a> {
    /// A copy of the message.
    pub(crate) fn duplicate(&self) -> (r: Resource<'a>)
        ensures
            r@ == self@,
    {
        Resource {
            attributes: KeyValue::duplicate_list(&self.attributes),
            dropped_attributes_count: self.dropped_attributes_count,
        }
    }

    /// A copy of an optional message.
    pub(crate) fn duplicate_option(item: &Option<Resource<'a>>) -> (r: Option<Resource<'a>>)
        ensures
            Resource::view_of(r) == Resource::view_of(*item),
    {
        match item {
            Some(x) => Some(x.duplicate()),
            None => None,
        }
    }
}

impl<'a> Clone for Resource<'a> {
    fn clone(&self) -> (r: Self)
        ensures
            r@ == self@,
    {
        self.duplicate()
    }
}

} // verus!
