//! Values, attributes, resources and scopes: what the three signal families share.

pub mod clone;
pub mod codec;
pub mod format;
pub mod laws;
pub mod owned;
pub mod types;

pub use crate::opentelemetry::common::types::{
    AnyValue, AnyValueOneOfvalue, AnyValueOneOfvalueView, AnyValueView, ArrayValue, ArrayValueView,
    InstrumentationScope, InstrumentationScopeView, KeyValue, KeyValueList, KeyValueListView,
    KeyValueView, Resource, ResourceView,
};
pub use crate::validation::common::CommonValidate as Validate;
