//! Logs: records with a severity, a body and attributes.

use crate::opentelemetry::common::types::{
    AnyValue, AnyValueView, InstrumentationScope, InstrumentationScopeView, KeyValue, KeyValueView,
    Resource, ResourceView,
};
use crate::text::{empty_run, empty_text};
use std::borrow::Cow;
use vstd::prelude::*;

verus! {

/// The severity of a log record, from trace to fatal, four steps each.
#[allow(non_camel_case_types)]
#[derive(Debug, Clone, Copy, PartialEq, Eq)]
pub enum SeverityNumber {
    SEVERITY_NUMBER_UNSPECIFIED,
    SEVERITY_NUMBER_TRACE,
    SEVERITY_NUMBER_TRACE2,
    SEVERITY_NUMBER_TRACE3,
    SEVERITY_NUMBER_TRACE4,
    SEVERITY_NUMBER_DEBUG,
    SEVERITY_NUMBER_DEBUG2,
    SEVERITY_NUMBER_DEBUG3,
    SEVERITY_NUMBER_DEBUG4,
    SEVERITY_NUMBER_INFO,
    SEVERITY_NUMBER_INFO2,
    SEVERITY_NUMBER_INFO3,
    SEVERITY_NUMBER_INFO4,
    SEVERITY_NUMBER_WARN,
    SEVERITY_NUMBER_WARN2,
    SEVERITY_NUMBER_WARN3,
    SEVERITY_NUMBER_WARN4,
    SEVERITY_NUMBER_ERROR,
    SEVERITY_NUMBER_ERROR2,
    SEVERITY_NUMBER_ERROR3,
    SEVERITY_NUMBER_ERROR4,
    SEVERITY_NUMBER_FATAL,
    SEVERITY_NUMBER_FATAL2,
    SEVERITY_NUMBER_FATAL3,
    SEVERITY_NUMBER_FATAL4,
}

impl SeverityNumber {
    /// The number that stands for the variant on the wire.
    pub open spec fn spec_number(self) -> i32 {
        match self {
            SeverityNumber::SEVERITY_NUMBER_UNSPECIFIED => 0,
            SeverityNumber::SEVERITY_NUMBER_TRACE => 1,
            SeverityNumber::SEVERITY_NUMBER_TRACE2 => 2,
            SeverityNumber::SEVERITY_NUMBER_TRACE3 => 3,
            SeverityNumber::SEVERITY_NUMBER_TRACE4 => 4,
            SeverityNumber::SEVERITY_NUMBER_DEBUG => 5,
            SeverityNumber::SEVERITY_NUMBER_DEBUG2 => 6,
            SeverityNumber::SEVERITY_NUMBER_DEBUG3 => 7,
            SeverityNumber::SEVERITY_NUMBER_DEBUG4 => 8,
            SeverityNumber::SEVERITY_NUMBER_INFO => 9,
            SeverityNumber::SEVERITY_NUMBER_INFO2 => 10,
            SeverityNumber::SEVERITY_NUMBER_INFO3 => 11,
            SeverityNumber::SEVERITY_NUMBER_INFO4 => 12,
            SeverityNumber::SEVERITY_NUMBER_WARN => 13,
            SeverityNumber::SEVERITY_NUMBER_WARN2 => 14,
            SeverityNumber::SEVERITY_NUMBER_WARN3 => 15,
            SeverityNumber::SEVERITY_NUMBER_WARN4 => 16,
            SeverityNumber::SEVERITY_NUMBER_ERROR => 17,
            SeverityNumber::SEVERITY_NUMBER_ERROR2 => 18,
            SeverityNumber::SEVERITY_NUMBER_ERROR3 => 19,
            SeverityNumber::SEVERITY_NUMBER_ERROR4 => 20,
            SeverityNumber::SEVERITY_NUMBER_FATAL => 21,
            SeverityNumber::SEVERITY_NUMBER_FATAL2 => 22,
            SeverityNumber::SEVERITY_NUMBER_FATAL3 => 23,
            SeverityNumber::SEVERITY_NUMBER_FATAL4 => 24,
        }
    }

    /// The variant that a number stands for: the first one where the number is not
    /// that of any variant.
    pub open spec fn spec_from_number(n: i32) -> SeverityNumber {
        if n == 1 {
            SeverityNumber::SEVERITY_NUMBER_TRACE
        } else if n == 2 {
            SeverityNumber::SEVERITY_NUMBER_TRACE2
        } else if n == 3 {
            SeverityNumber::SEVERITY_NUMBER_TRACE3
        } else if n == 4 {
            SeverityNumber::SEVERITY_NUMBER_TRACE4
        } else if n == 5 {
            SeverityNumber::SEVERITY_NUMBER_DEBUG
        } else if n == 6 {
            SeverityNumber::SEVERITY_NUMBER_DEBUG2
        } else if n == 7 {
            SeverityNumber::SEVERITY_NUMBER_DEBUG3
        } else if n == 8 {
            SeverityNumber::SEVERITY_NUMBER_DEBUG4
        } else if n == 9 {
            SeverityNumber::SEVERITY_NUMBER_INFO
        } else if n == 10 {
            SeverityNumber::SEVERITY_NUMBER_INFO2
        } else if n == 11 {
            SeverityNumber::SEVERITY_NUMBER_INFO3
        } else if n == 12 {
            SeverityNumber::SEVERITY_NUMBER_INFO4
        } else if n == 13 {
            SeverityNumber::SEVERITY_NUMBER_WARN
        } else if n == 14 {
            SeverityNumber::SEVERITY_NUMBER_WARN2
        } else if n == 15 {
            SeverityNumber::SEVERITY_NUMBER_WARN3
        } else if n == 16 {
            SeverityNumber::SEVERITY_NUMBER_WARN4
        } else if n == 17 {
            SeverityNumber::SEVERITY_NUMBER_ERROR
        } else if n == 18 {
            SeverityNumber::SEVERITY_NUMBER_ERROR2
        } else if n == 19 {
            SeverityNumber::SEVERITY_NUMBER_ERROR3
        } else if n == 20 {
            SeverityNumber::SEVERITY_NUMBER_ERROR4
        } else if n == 21 {
            SeverityNumber::SEVERITY_NUMBER_FATAL
        } else if n == 22 {
            SeverityNumber::SEVERITY_NUMBER_FATAL2
        } else if n == 23 {
            SeverityNumber::SEVERITY_NUMBER_FATAL3
        } else if n == 24 {
            SeverityNumber::SEVERITY_NUMBER_FATAL4
        } else {
            SeverityNumber::SEVERITY_NUMBER_UNSPECIFIED
        }
    }

    /// The number that stands for the variant on the wire.
    #[verifier::when_used_as_spec(spec_number)]
    pub fn number(self) -> (n: i32)
        ensures
            n == self.spec_number(),
    {
        match self {
            SeverityNumber::SEVERITY_NUMBER_UNSPECIFIED => 0,
            SeverityNumber::SEVERITY_NUMBER_TRACE => 1,
            SeverityNumber::SEVERITY_NUMBER_TRACE2 => 2,
            SeverityNumber::SEVERITY_NUMBER_TRACE3 => 3,
            SeverityNumber::SEVERITY_NUMBER_TRACE4 => 4,
            SeverityNumber::SEVERITY_NUMBER_DEBUG => 5,
            SeverityNumber::SEVERITY_NUMBER_DEBUG2 => 6,
            SeverityNumber::SEVERITY_NUMBER_DEBUG3 => 7,
            SeverityNumber::SEVERITY_NUMBER_DEBUG4 => 8,
            SeverityNumber::SEVERITY_NUMBER_INFO => 9,
            SeverityNumber::SEVERITY_NUMBER_INFO2 => 10,
            SeverityNumber::SEVERITY_NUMBER_INFO3 => 11,
            SeverityNumber::SEVERITY_NUMBER_INFO4 => 12,
            SeverityNumber::SEVERITY_NUMBER_WARN => 13,
            SeverityNumber::SEVERITY_NUMBER_WARN2 => 14,
            SeverityNumber::SEVERITY_NUMBER_WARN3 => 15,
            SeverityNumber::SEVERITY_NUMBER_WARN4 => 16,
            SeverityNumber::SEVERITY_NUMBER_ERROR => 17,
            SeverityNumber::SEVERITY_NUMBER_ERROR2 => 18,
            SeverityNumber::SEVERITY_NUMBER_ERROR3 => 19,
            SeverityNumber::SEVERITY_NUMBER_ERROR4 => 20,
            SeverityNumber::SEVERITY_NUMBER_FATAL => 21,
            SeverityNumber::SEVERITY_NUMBER_FATAL2 => 22,
            SeverityNumber::SEVERITY_NUMBER_FATAL3 => 23,
            SeverityNumber::SEVERITY_NUMBER_FATAL4 => 24,
        }
    }

    /// The variant that a number stands for: the first one where the number is not
    /// that of any variant.
    #[verifier::when_used_as_spec(spec_from_number)]
    pub fn from_number(n: i32) -> (r: SeverityNumber)
        ensures
            r == SeverityNumber::spec_from_number(n),
    {
        if n == 1 {
            SeverityNumber::SEVERITY_NUMBER_TRACE
        } else if n == 2 {
            SeverityNumber::SEVERITY_NUMBER_TRACE2
        } else if n == 3 {
            SeverityNumber::SEVERITY_NUMBER_TRACE3
        } else if n == 4 {
            SeverityNumber::SEVERITY_NUMBER_TRACE4
        } else if n == 5 {
            SeverityNumber::SEVERITY_NUMBER_DEBUG
        } else if n == 6 {
            SeverityNumber::SEVERITY_NUMBER_DEBUG2
        } else if n == 7 {
            SeverityNumber::SEVERITY_NUMBER_DEBUG3
        } else if n == 8 {
            SeverityNumber::SEVERITY_NUMBER_DEBUG4
        } else if n == 9 {
            SeverityNumber::SEVERITY_NUMBER_INFO
        } else if n == 10 {
            SeverityNumber::SEVERITY_NUMBER_INFO2
        } else if n == 11 {
            SeverityNumber::SEVERITY_NUMBER_INFO3
        } else if n == 12 {
            SeverityNumber::SEVERITY_NUMBER_INFO4
        } else if n == 13 {
            SeverityNumber::SEVERITY_NUMBER_WARN
        } else if n == 14 {
            SeverityNumber::SEVERITY_NUMBER_WARN2
        } else if n == 15 {
            SeverityNumber::SEVERITY_NUMBER_WARN3
        } else if n == 16 {
            SeverityNumber::SEVERITY_NUMBER_WARN4
        } else if n == 17 {
            SeverityNumber::SEVERITY_NUMBER_ERROR
        } else if n == 18 {
            SeverityNumber::SEVERITY_NUMBER_ERROR2
        } else if n == 19 {
            SeverityNumber::SEVERITY_NUMBER_ERROR3
        } else if n == 20 {
            SeverityNumber::SEVERITY_NUMBER_ERROR4
        } else if n == 21 {
            SeverityNumber::SEVERITY_NUMBER_FATAL
        } else if n == 22 {
            SeverityNumber::SEVERITY_NUMBER_FATAL2
        } else if n == 23 {
            SeverityNumber::SEVERITY_NUMBER_FATAL3
        } else if n == 24 {
            SeverityNumber::SEVERITY_NUMBER_FATAL4
        } else {
            SeverityNumber::SEVERITY_NUMBER_UNSPECIFIED
        }
    }

    /// Every variant comes back from its number.
    pub proof fn lemma_number_round_trip(self)
        ensures
            SeverityNumber::spec_from_number(self.spec_number()) == self,
            0 <= self.spec_number() <= 24,
    {
    }
}

impl Default for SeverityNumber {
    fn default() -> (r: Self)
        ensures
            r == SeverityNumber::SEVERITY_NUMBER_UNSPECIFIED,
    {
        SeverityNumber::SEVERITY_NUMBER_UNSPECIFIED
    }
}

/// One log record.
#[derive(Debug, PartialEq)]
pub struct LogRecord<'a> {
    /// When the event happened, in nanoseconds since the Unix epoch.
    pub time_unix_nano: u64,
    /// When the event was observed, in nanoseconds since the Unix epoch.
    pub observed_time_unix_nano: u64,
    /// The severity.
    pub severity_number: SeverityNumber,
    /// The severity in the words of the source.
    pub severity_text: Cow<'a, str>,
    /// The body of the record.
    pub body: Option<AnyValue<'a>>,
    /// The attributes, as key-value pairs.
    pub attributes: Vec<KeyValue<'a>>,
    /// How many attributes were dropped before the data was sent.
    pub dropped_attributes_count: u32,
    /// Bit flags.
    pub flags: u32,
    /// The trace that the record belongs to: sixteen bytes by convention.
    pub trace_id: Cow<'a, [u8]>,
    /// The span that the record belongs to: eight bytes by convention.
    pub span_id: Cow<'a, [u8]>,
}

/// The value that `LogRecord` stands for.
pub struct LogRecordView {
    pub time_unix_nano: u64,
    pub observed_time_unix_nano: u64,
    pub severity_number: SeverityNumber,
    pub severity_text: Seq<char>,
    pub body: Option<AnyValueView>,
    pub attributes: Seq<KeyValueView>,
    pub dropped_attributes_count: u32,
    pub flags: u32,
    pub trace_id: Seq<u8>,
    pub span_id: Seq<u8>,
}

impl<'a> View for LogRecord<'a> {
    type V = LogRecordView;

    open spec fn view(&self) -> LogRecordView {
        LogRecordView {
            time_unix_nano: self.time_unix_nano,
            observed_time_unix_nano: self.observed_time_unix_nano,
            severity_number: self.severity_number,
            severity_text: self.severity_text@,
            body: AnyValue::view_of(self.body),
            attributes: KeyValue::views(self.attributes@),
            dropped_attributes_count: self.dropped_attributes_count,
            flags: self.flags,
            trace_id: self.trace_id@,
            span_id: self.span_id@,
        }
    }
}

impl<'a> LogRecord<'a> {
    /// What a list of messages stands for.
    pub open spec fn views(items: Seq<Self>) -> Seq<LogRecordView> {
        Seq::new(items.len(), |i: int| items[i]@)
    }
}

impl LogRecordView {
    /// The message with every member at its zero value.
    pub open spec fn default() -> Self {
        Self {
            time_unix_nano: 0,
            observed_time_unix_nano: 0,
            severity_number: SeverityNumber::SEVERITY_NUMBER_UNSPECIFIED,
            severity_text: Seq::empty(),
            body: None,
            attributes: Seq::empty(),
            dropped_attributes_count: 0,
            flags: 0,
            trace_id: Seq::empty(),
            span_id: Seq::empty(),
        }
    }
}

impl<'a> Default for LogRecord<'a> {
    fn default() -> (r: Self)
        ensures
            r@ == LogRecordView::default(),
    {
        let r = LogRecord {
            time_unix_nano: 0,
            observed_time_unix_nano: 0,
            severity_number: SeverityNumber::SEVERITY_NUMBER_UNSPECIFIED,
            severity_text: empty_text(),
            body: None,
            attributes: Vec::new(),
            dropped_attributes_count: 0,
            flags: 0,
            trace_id: empty_run(),
            span_id: empty_run(),
        };
        assert(r@.attributes =~= Seq::empty());
        r
    }
}

/// The log records of one instrumentation scope.
#[derive(Debug, PartialEq)]
pub struct ScopeLogs<'a> {
    /// The scope that the records come from.
    pub scope: Option<InstrumentationScope<'a>>,
    /// The records.
    pub log_records: Vec<LogRecord<'a>>,
    /// The URL of the schema that the data follows: empty, or an absolute URL.
    pub schema_url: Cow<'a, str>,
}

/// The value that `ScopeLogs` stands for.
pub struct ScopeLogsView {
    pub scope: Option<InstrumentationScopeView>,
    pub log_records: Seq<LogRecordView>,
    pub schema_url: Seq<char>,
}

impl<'a> View for ScopeLogs<'a> {
    type V = ScopeLogsView;

    open spec fn view(&self) -> ScopeLogsView {
        ScopeLogsView {
            scope: InstrumentationScope::view_of(self.scope),
            log_records: LogRecord::views(self.log_records@),
            schema_url: self.schema_url@,
        }
    }
}

impl<'a> ScopeLogs<'a> {
    /// What a list of messages stands for.
    pub open spec fn views(items: Seq<Self>) -> Seq<ScopeLogsView> {
        Seq::new(items.len(), |i: int| items[i]@)
    }
}

impl ScopeLogsView {
    /// The message with every member at its zero value.
    pub open spec fn default() -> Self {
        Self {
            scope: None,
            log_records: Seq::empty(),
            schema_url: Seq::empty(),
        }
    }
}

impl<'a> Default for ScopeLogs<'a> {
    fn default() -> (r: Self)
        ensures
            r@ == ScopeLogsView::default(),
    {
        let r = ScopeLogs {
            scope: None,
            log_records: Vec::new(),
            schema_url: empty_text(),
        };
        assert(r@.log_records =~= Seq::empty());
        r
    }
}

/// The log records of one resource.
#[derive(Debug, PartialEq)]
pub struct ResourceLogs<'a> {
    /// The resource that the records come from.
    pub resource: Option<Resource<'a>>,
    /// The records, by scope.
    pub scope_logs: Vec<ScopeLogs<'a>>,
    /// The URL of the schema that the data follows: empty, or an absolute URL.
    pub schema_url: Cow<'a, str>,
}

/// The value that `ResourceLogs` stands for.
pub struct ResourceLogsView {
    pub resource: Option<ResourceView>,
    pub scope_logs: Seq<ScopeLogsView>,
    pub schema_url: Seq<char>,
}

impl<'a> View for ResourceLogs<'a> {
    type V = ResourceLogsView;

    open spec fn view(&self) -> ResourceLogsView {
        ResourceLogsView {
            resource: Resource::view_of(self.resource),
            scope_logs: ScopeLogs::views(self.scope_logs@),
            schema_url: self.schema_url@,
        }
    }
}

impl<'a> ResourceLogs<'a> {
    /// What a list of messages stands for.
    pub open spec fn views(items: Seq<Self>) -> Seq<ResourceLogsView> {
        Seq::new(items.len(), |i: int| items[i]@)
    }
}

impl ResourceLogsView {
    /// The message with every member at its zero value.
    pub open spec fn default() -> Self {
        Self {
            resource: None,
            scope_logs: Seq::empty(),
            schema_url: Seq::empty(),
        }
    }
}

impl<'a> Default for ResourceLogs<'a> {
    fn default() -> (r: Self)
        ensures
            r@ == ResourceLogsView::default(),
    {
        let r = ResourceLogs {
            resource: None,
            scope_logs: Vec::new(),
            schema_url: empty_text(),
        };
        assert(r@.scope_logs =~= Seq::empty());
        r
    }
}

/// A request to export log records.
#[derive(Debug, PartialEq)]
pub struct ExportLogsServiceRequest<'a> {
    /// The records, by resource.
    pub resource_logs: Vec<ResourceLogs<'a>>,
}

/// The value that `ExportLogsServiceRequest` stands for.
pub struct ExportLogsServiceRequestView {
    pub resource_logs: Seq<ResourceLogsView>,
}

impl<'a> View for ExportLogsServiceRequest<'a> {
    type V = ExportLogsServiceRequestView;

    open spec fn view(&self) -> ExportLogsServiceRequestView {
        ExportLogsServiceRequestView {
            resource_logs: ResourceLogs::views(self.resource_logs@),
        }
    }
}

impl ExportLogsServiceRequestView {
    /// The message with every member at its zero value.
    pub open spec fn default() -> Self {
        Self {
            resource_logs: Seq::empty(),
        }
    }
}

impl<'a> Default for ExportLogsServiceRequest<'a> {
    fn default() -> (r: Self)
        ensures
            r@ == ExportLogsServiceRequestView::default(),
    {
        let r = ExportLogsServiceRequest {
            resource_logs: Vec::new(),
        };
        assert(r@.resource_logs =~= Seq::empty());
        r
    }
}

} // verus!
