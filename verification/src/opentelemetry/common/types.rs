//! Values, attributes, resources and scopes: what the three signal families share.

use crate::text::empty_text;
use std::borrow::Cow;
use vstd::prelude::*;

verus! {

/// What an `AnyValue` holds: one of seven kinds of value, or nothing.
#[allow(non_camel_case_types)]
#[derive(Debug, PartialEq)]
pub enum AnyValueOneOfvalue<'a> {
    string_value(Cow<'a, str>),
    bool_value(bool),
    int_value(i64),
    double_value(u64),
    array_value(ArrayValue<'a>),
    kvlist_value(KeyValueList<'a>),
    bytes_value(Cow<'a, [u8]>),
    Unset,
}

/// The value that `AnyValueOneOfvalue` stands for.
#[allow(non_camel_case_types)]
pub enum AnyValueOneOfvalueView {
    string_value(Seq<char>),
    bool_value(bool),
    int_value(i64),
    double_value(u64),
    array_value(ArrayValueView),
    kvlist_value(KeyValueListView),
    bytes_value(Seq<u8>),
    Unset,
}

impl<'a> View for AnyValueOneOfvalue<'a> {
    type V = AnyValueOneOfvalueView;

    open spec fn view(&self) -> AnyValueOneOfvalueView
        decreases self,
    {
        match self {
            AnyValueOneOfvalue::string_value(x) => AnyValueOneOfvalueView::string_value(x@),
            AnyValueOneOfvalue::bool_value(x) => AnyValueOneOfvalueView::bool_value(*x),
            AnyValueOneOfvalue::int_value(x) => AnyValueOneOfvalueView::int_value(*x),
            AnyValueOneOfvalue::double_value(x) => AnyValueOneOfvalueView::double_value(*x),
            AnyValueOneOfvalue::array_value(x) => AnyValueOneOfvalueView::array_value(x@),
            AnyValueOneOfvalue::kvlist_value(x) => AnyValueOneOfvalueView::kvlist_value(x@),
            AnyValueOneOfvalue::bytes_value(x) => AnyValueOneOfvalueView::bytes_value(x@),
            AnyValueOneOfvalue::Unset => AnyValueOneOfvalueView::Unset,
        }
    }
}

impl<'a> Default for AnyValueOneOfvalue<'a> {
    fn default() -> (r: Self)
        ensures
            r@ == AnyValueOneOfvalueView::Unset,
    {
        AnyValueOneOfvalue::Unset
    }
}

/// A value of any kind: a scalar, a byte string, an array or a list of key-value pairs.
#[derive(Debug, PartialEq)]
pub struct AnyValue<'a> {
    /// The value, of one of seven kinds, or nothing.
    pub value: AnyValueOneOfvalue<'a>,
}

/// The value that `AnyValue` stands for.
pub struct AnyValueView {
    pub value: AnyValueOneOfvalueView,
}

impl<'a> View for AnyValue<'a> {
    type V = AnyValueView;

    open spec fn view(&self) -> AnyValueView
        decreases self,
    {
        AnyValueView {
            value: self.value@,
        }
    }
}

impl<'a> AnyValue<'a> {
    /// What a list of messages stands for.
    pub open spec fn views(items: Seq<Self>) -> Seq<AnyValueView>
        decreases items,
    {
        Seq::new(
            items.len(),
            |i: int|
                if 0 <= i < items.len() {
                    items[i]@
                } else {
                    AnyValueView::default()
                },
        )
    }

    /// What an optional message stands for.
    pub open spec fn view_of(item: Option<Self>) -> Option<AnyValueView>
        decreases item,
    {
        match item {
            Some(x) => Some(x@),
            None => None,
        }
    }
}

impl AnyValueView {
    /// The message with every member at its zero value.
    pub open spec fn default() -> Self {
        Self {
            value: AnyValueOneOfvalueView::Unset,
        }
    }
}

impl<'a> Default for AnyValue<'a> {
    fn default() -> (r: Self)
        ensures
            r@ == AnyValueView::default(),
    {
        AnyValue {
            value: AnyValueOneOfvalue::Unset,
        }
    }
}

/// An ordered list of values.
#[derive(Debug, PartialEq)]
pub struct ArrayValue<'a> {
    /// The values, in order.
    pub values: Vec<AnyValue<'a>>,
}

/// The value that `ArrayValue` stands for.
pub struct ArrayValueView {
    pub values: Seq<AnyValueView>,
}

impl<'a> View for ArrayValue<'a> {
    type V = ArrayValueView;

    open spec fn view(&self) -> ArrayValueView
        decreases self,
    {
        ArrayValueView {
            values: AnyValue::views(self.values@),
        }
    }
}

impl ArrayValueView {
    /// The message with every member at its zero value.
    pub open spec fn default() -> Self {
        Self {
            values: Seq::empty(),
        }
    }
}

impl<'a> Default for ArrayValue<'a> {
    fn default() -> (r: Self)
        ensures
            r@ == ArrayValueView::default(),
    {
        let r = ArrayValue {
            values: Vec::new(),
        };
        assert(r@.values =~= Seq::empty());
        r
    }
}

/// A list of key-value pairs, used as a map.
#[derive(Debug, PartialEq)]
pub struct KeyValueList<'a> {
    /// The pairs, in order.
    pub values: Vec<KeyValue<'a>>,
}

/// The value that `KeyValueList` stands for.
pub struct KeyValueListView {
    pub values: Seq<KeyValueView>,
}

impl<'a> View for KeyValueList<'a> {
    type V = KeyValueListView;

    open spec fn view(&self) -> KeyValueListView
        decreases self,
    {
        KeyValueListView {
            values: KeyValue::views(self.values@),
        }
    }
}

impl KeyValueListView {
    /// The message with every member at its zero value.
    pub open spec fn default() -> Self {
        Self {
            values: Seq::empty(),
        }
    }
}

impl<'a> Default for KeyValueList<'a> {
    fn default() -> (r: Self)
        ensures
            r@ == KeyValueListView::default(),
    {
        let r = KeyValueList {
            values: Vec::new(),
        };
        assert(r@.values =~= Seq::empty());
        r
    }
}

/// An attribute: a key and, where set, its value.
#[derive(Debug, PartialEq)]
pub struct KeyValue<'a> {
    /// The key.
    pub key: Cow<'a, str>,
    /// The value of the key, where it has one.
    pub value: Option<AnyValue<'a>>,
}

/// The value that `KeyValue` stands for.
pub struct KeyValueView {
    pub key: Seq<char>,
    pub value: Option<AnyValueView>,
}

impl<'a> View for KeyValue<'a> {
    type V = KeyValueView;

    open spec fn view(&self) -> KeyValueView
        decreases self,
    {
        KeyValueView {
            key: self.key@,
            value: AnyValue::view_of(self.value),
        }
    }
}

impl<'a> KeyValue<'a> {
    /// What a list of messages stands for.
    pub open spec fn views(items: Seq<Self>) -> Seq<KeyValueView>
        decreases items,
    {
        Seq::new(
            items.len(),
            |i: int|
                if 0 <= i < items.len() {
                    items[i]@
                } else {
                    KeyValueView::default()
                },
        )
    }
}

impl KeyValueView {
    /// The message with every member at its zero value.
    pub open spec fn default() -> Self {
        Self {
            key: Seq::empty(),
            value: None,
        }
    }
}

impl<'a> Default for KeyValue<'a> {
    fn default() -> (r: Self)
        ensures
            r@ == KeyValueView::default(),
    {
        KeyValue {
            key: empty_text(),
            value: None,
        }
    }
}

/// The instrumentation library that emitted the data.
#[derive(Debug, PartialEq)]
pub struct InstrumentationScope<'a> {
    /// The name of the scope: empty where it is not known.
    pub name: Cow<'a, str>,
    /// The version of the scope.
    pub version: Cow<'a, str>,
    /// The attributes, as key-value pairs.
    pub attributes: Vec<KeyValue<'a>>,
    /// How many attributes were dropped before the data was sent.
    pub dropped_attributes_count: u32,
}

/// The value that `InstrumentationScope` stands for.
pub struct InstrumentationScopeView {
    pub name: Seq<char>,
    pub version: Seq<char>,
    pub attributes: Seq<KeyValueView>,
    pub dropped_attributes_count: u32,
}

impl<'a> View for InstrumentationScope<'a> {
    type V = InstrumentationScopeView;

    open spec fn view(&self) -> InstrumentationScopeView {
        InstrumentationScopeView {
            name: self.name@,
            version: self.version@,
            attributes: KeyValue::views(self.attributes@),
            dropped_attributes_count: self.dropped_attributes_count,
        }
    }
}

impl<'a> InstrumentationScope<'a> {
    /// What an optional message stands for.
    pub open spec fn view_of(item: Option<Self>) -> Option<InstrumentationScopeView> {
        match item {
            Some(x) => Some(x@),
            None => None,
        }
    }
}

impl InstrumentationScopeView {
    /// The message with every member at its zero value.
    pub open spec fn default() -> Self {
        Self {
            name: Seq::empty(),
            version: Seq::empty(),
            attributes: Seq::empty(),
            dropped_attributes_count: 0,
        }
    }
}

impl<'a> Default for InstrumentationScope<'a> {
    fn default() -> (r: Self)
        ensures
            r@ == InstrumentationScopeView::default(),
    {
        let r = InstrumentationScope {
            name: empty_text(),
            version: empty_text(),
            attributes: Vec::new(),
            dropped_attributes_count: 0,
        };
        assert(r@.attributes =~= Seq::empty());
        r
    }
}

/// The entity that produced the data.
#[derive(Debug, PartialEq)]
pub struct Resource<'a> {
    /// The attributes, as key-value pairs.
    pub attributes: Vec<KeyValue<'a>>,
    /// How many attributes were dropped before the data was sent.
    pub dropped_attributes_count: u32,
}

/// The value that `Resource` stands for.
pub struct ResourceView {
    pub attributes: Seq<KeyValueView>,
    pub dropped_attributes_count: u32,
}

impl<'a> View for Resource<'a> {
    type V = ResourceView;

    open spec fn view(&self) -> ResourceView {
        ResourceView {
            attributes: KeyValue::views(self.attributes@),
            dropped_attributes_count: self.dropped_attributes_count,
        }
    }
}

impl<'a> Resource<'a> {
    /// What an optional message stands for.
    pub open spec fn view_of(item: Option<Self>) -> Option<ResourceView> {
        match item {
            Some(x) => Some(x@),
            None => None,
        }
    }
}

impl ResourceView {
    /// The message with every member at its zero value.
    pub open spec fn default() -> Self {
        Self {
            attributes: Seq::empty(),
            dropped_attributes_count: 0,
        }
    }
}

impl<'a> Default for Resource<'a> {
    fn default() -> (r: Self)
        ensures
            r@ == ResourceView::default(),
    {
        let r = Resource {
            attributes: Vec::new(),
            dropped_attributes_count: 0,
        };
        assert(r@.attributes =~= Seq::empty());
        r
    }
}

} // verus!
