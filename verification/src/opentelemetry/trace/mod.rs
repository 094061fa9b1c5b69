//! Traces: spans with their events, links and status.

pub mod clone;
pub mod codec;
pub mod format;
pub mod laws;
pub mod owned;
pub mod types;

pub use crate::opentelemetry::common::{
    AnyValue, AnyValueOneOfvalue, AnyValueOneOfvalueView, AnyValueView, ArrayValue, ArrayValueView,
    InstrumentationScope, InstrumentationScopeView, KeyValue, KeyValueList, KeyValueListView,
    KeyValueView, Resource, ResourceView,
};
pub use crate::opentelemetry::trace::types::{
    ExportTraceServiceRequest, ExportTraceServiceRequestView, ResourceSpans, ResourceSpansView,
    ScopeSpans, ScopeSpansView, Span, SpanEvent, SpanEventView, SpanKind, SpanLink, SpanLinkView,
    SpanView, Status, StatusCode, StatusView,
};
pub use crate::validation::trace::TraceValidate as Validate;
