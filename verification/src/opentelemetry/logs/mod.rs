//! Logs: records with a severity, a body and attributes.

pub mod clone;
pub mod codec;
pub mod format;
pub mod laws;
pub mod owned;
pub mod types;

pub use crate::opentelemetry::common::{
    AnyValue, AnyValueOneOfvalue, AnyValueOneOfvalueView, AnyValueView, ArrayValue, ArrayValueView,
    InstrumentationScope, InstrumentationScopeView, KeyValue, KeyValueList, KeyValueListView,
    KeyValueView, Resource, ResourceView,
};
pub use crate::opentelemetry::logs::types::{
    ExportLogsServiceRequest, ExportLogsServiceRequestView, LogRecord, LogRecordView, ResourceLogs,
    ResourceLogsView, ScopeLogs, ScopeLogsView, SeverityNumber,
};
pub use crate::validation::logs::LogValidate as Validate;
