//! Traces: spans with their events, links and status.

use crate::opentelemetry::common::types::{
    InstrumentationScope, InstrumentationScopeView, KeyValue, KeyValueView, Resource, ResourceView,
};
use crate::text::{empty_run, empty_text};
use std::borrow::Cow;
use vstd::prelude::*;

verus! {

/// The role of a span in its trace.
#[allow(non_camel_case_types)]
#[derive(Debug, Clone, Copy, PartialEq, Eq)]
pub enum SpanKind {
    SPAN_KIND_UNSPECIFIED,
    SPAN_KIND_INTERNAL,
    SPAN_KIND_SERVER,
    SPAN_KIND_CLIENT,
    SPAN_KIND_PRODUCER,
    SPAN_KIND_CONSUMER,
}

impl SpanKind {
    /// The number that stands for the variant on the wire.
    pub open spec fn spec_number(self) -> i32 {
        match self {
            SpanKind::SPAN_KIND_UNSPECIFIED => 0,
            SpanKind::SPAN_KIND_INTERNAL => 1,
            SpanKind::SPAN_KIND_SERVER => 2,
            SpanKind::SPAN_KIND_CLIENT => 3,
            SpanKind::SPAN_KIND_PRODUCER => 4,
            SpanKind::SPAN_KIND_CONSUMER => 5,
        }
    }

    /// The variant that a number stands for: the first one where the number is not
    /// that of any variant.
    pub open spec fn spec_from_number(n: i32) -> SpanKind {
        if n == 1 {
            SpanKind::SPAN_KIND_INTERNAL
        } else if n == 2 {
            SpanKind::SPAN_KIND_SERVER
        } else if n == 3 {
            SpanKind::SPAN_KIND_CLIENT
        } else if n == 4 {
            SpanKind::SPAN_KIND_PRODUCER
        } else if n == 5 {
            SpanKind::SPAN_KIND_CONSUMER
        } else {
            SpanKind::SPAN_KIND_UNSPECIFIED
        }
    }

    /// The number that stands for the variant on the wire.
    #[verifier::when_used_as_spec(spec_number)]
    pub fn number(self) -> (n: i32)
        ensures
            n == self.spec_number(),
    {
        match self {
            SpanKind::SPAN_KIND_UNSPECIFIED => 0,
            SpanKind::SPAN_KIND_INTERNAL => 1,
            SpanKind::SPAN_KIND_SERVER => 2,
            SpanKind::SPAN_KIND_CLIENT => 3,
            SpanKind::SPAN_KIND_PRODUCER => 4,
            SpanKind::SPAN_KIND_CONSUMER => 5,
        }
    }

    /// The variant that a number stands for: the first one where the number is not
    /// that of any variant.
    #[verifier::when_used_as_spec(spec_from_number)]
    pub fn from_number(n: i32) -> (r: SpanKind)
        ensures
            r == SpanKind::spec_from_number(n),
    {
        if n == 1 {
            SpanKind::SPAN_KIND_INTERNAL
        } else if n == 2 {
            SpanKind::SPAN_KIND_SERVER
        } else if n == 3 {
            SpanKind::SPAN_KIND_CLIENT
        } else if n == 4 {
            SpanKind::SPAN_KIND_PRODUCER
        } else if n == 5 {
            SpanKind::SPAN_KIND_CONSUMER
        } else {
            SpanKind::SPAN_KIND_UNSPECIFIED
        }
    }

    /// Every variant comes back from its number.
    pub proof fn lemma_number_round_trip(self)
        ensures
            SpanKind::spec_from_number(self.spec_number()) == self,
            0 <= self.spec_number() <= 5,
    {
    }
}

impl Default for SpanKind {
    fn default() -> (r: Self)
        ensures
            r == SpanKind::SPAN_KIND_UNSPECIFIED,
    {
        SpanKind::SPAN_KIND_UNSPECIFIED
    }
}

/// How a span ended.
#[allow(non_camel_case_types)]
#[derive(Debug, Clone, Copy, PartialEq, Eq)]
pub enum StatusCode {
    STATUS_CODE_UNSET,
    STATUS_CODE_OK,
    STATUS_CODE_ERROR,
}

impl StatusCode {
    /// The number that stands for the variant on the wire.
    pub open spec fn spec_number(self) -> i32 {
        match self {
            StatusCode::STATUS_CODE_UNSET => 0,
            StatusCode::STATUS_CODE_OK => 1,
            StatusCode::STATUS_CODE_ERROR => 2,
        }
    }

    /// The variant that a number stands for: the first one where the number is not
    /// that of any variant.
    pub open spec fn spec_from_number(n: i32) -> StatusCode {
        if n == 1 {
            StatusCode::STATUS_CODE_OK
        } else if n == 2 {
            StatusCode::STATUS_CODE_ERROR
        } else {
            StatusCode::STATUS_CODE_UNSET
        }
    }

    /// The number that stands for the variant on the wire.
    #[verifier::when_used_as_spec(spec_number)]
    pub fn number(self) -> (n: i32)
        ensures
            n == self.spec_number(),
    {
        match self {
            StatusCode::STATUS_CODE_UNSET => 0,
            StatusCode::STATUS_CODE_OK => 1,
            StatusCode::STATUS_CODE_ERROR => 2,
        }
    }

    /// The variant that a number stands for: the first one where the number is not
    /// that of any variant.
    #[verifier::when_used_as_spec(spec_from_number)]
    pub fn from_number(n: i32) -> (r: StatusCode)
        ensures
            r == StatusCode::spec_from_number(n),
    {
        if n == 1 {
            StatusCode::STATUS_CODE_OK
        } else if n == 2 {
            StatusCode::STATUS_CODE_ERROR
        } else {
            StatusCode::STATUS_CODE_UNSET
        }
    }

    /// Every variant comes back from its number.
    pub proof fn lemma_number_round_trip(self)
        ensures
            StatusCode::spec_from_number(self.spec_number()) == self,
            0 <= self.spec_number() <= 2,
    {
    }
}

impl Default for StatusCode {
    fn default() -> (r: Self)
        ensures
            r == StatusCode::STATUS_CODE_UNSET,
    {
        StatusCode::STATUS_CODE_UNSET
    }
}

/// The status of a span.
#[derive(Debug, PartialEq)]
pub struct Status<'a> {
    /// What went wrong, for a reader.
    pub message: Cow<'a, str>,
    /// How the span ended.
    pub code: StatusCode,
}

/// The value that `Status` stands for.
pub struct StatusView {
    pub message: Seq<char>,
    pub code: StatusCode,
}

impl<'a> View for Status<'a> {
    type V = StatusView;

    open spec fn view(&self) -> StatusView {
        StatusView {
            message: self.message@,
            code: self.code,
        }
    }
}

impl<'a> Status<'a> {
    /// What an optional message stands for.
    pub open spec fn view_of(item: Option<Self>) -> Option<StatusView> {
        match item {
            Some(x) => Some(x@),
            None => None,
        }
    }
}

impl StatusView {
    /// The message with every member at its zero value.
    pub open spec fn default() -> Self {
        Self {
            message: Seq::empty(),
            code: StatusCode::STATUS_CODE_UNSET,
        }
    }
}

impl<'a> Default for Status<'a> {
    fn default() -> (r: Self)
        ensures
            r@ == StatusView::default(),
    {
        Status {
            message: empty_text(),
            code: StatusCode::STATUS_CODE_UNSET,
        }
    }
}

/// Something that happened during a span.
#[derive(Debug, PartialEq)]
pub struct SpanEvent<'a> {
    /// The time of the event, in nanoseconds since the Unix epoch.
    pub time_unix_nano: u64,
    /// The name of the event.
    pub name: Cow<'a, str>,
    /// The attributes, as key-value pairs.
    pub attributes: Vec<KeyValue<'a>>,
    /// How many attributes were dropped before the data was sent.
    pub dropped_attributes_count: u32,
}

/// The value that `SpanEvent` stands for.
pub struct SpanEventView {
    pub time_unix_nano: u64,
    pub name: Seq<char>,
    pub attributes: Seq<KeyValueView>,
    pub dropped_attributes_count: u32,
}

impl<'a> View for SpanEvent<'a> {
    type V = SpanEventView;

    open spec fn view(&self) -> SpanEventView {
        SpanEventView {
            time_unix_nano: self.time_unix_nano,
            name: self.name@,
            attributes: KeyValue::views(self.attributes@),
            dropped_attributes_count: self.dropped_attributes_count,
        }
    }
}

impl<'a> SpanEvent<'a> {
    /// What a list of messages stands for.
    pub open spec fn views(items: Seq<Self>) -> Seq<SpanEventView> {
        Seq::new(items.len(), |i: int| items[i]@)
    }
}

impl SpanEventView {
    /// The message with every member at its zero value.
    pub open spec fn default() -> Self {
        Self {
            time_unix_nano: 0,
            name: Seq::empty(),
            attributes: Seq::empty(),
            dropped_attributes_count: 0,
        }
    }
}

impl<'a> Default for SpanEvent<'a> {
    fn default() -> (r: Self)
        ensures
            r@ == SpanEventView::default(),
    {
        let r = SpanEvent {
            time_unix_nano: 0,
            name: empty_text(),
            attributes: Vec::new(),
            dropped_attributes_count: 0,
        };
        assert(r@.attributes =~= Seq::empty());
        r
    }
}

/// A reference from a span to another span.
#[derive(Debug, PartialEq)]
pub struct SpanLink<'a> {
    /// The trace of the span that is linked to.
    pub trace_id: Cow<'a, [u8]>,
    /// The span that is linked to.
    pub span_id: Cow<'a, [u8]>,
    /// The trace state of the span that is linked to.
    pub trace_state: Cow<'a, str>,
    /// The attributes, as key-value pairs.
    pub attributes: Vec<KeyValue<'a>>,
    /// How many attributes were dropped before the data was sent.
    pub dropped_attributes_count: u32,
}

/// The value that `SpanLink` stands for.
pub struct SpanLinkView {
    pub trace_id: Seq<u8>,
    pub span_id: Seq<u8>,
    pub trace_state: Seq<char>,
    pub attributes: Seq<KeyValueView>,
    pub dropped_attributes_count: u32,
}

impl<'a> View for SpanLink<'a> {
    type V = SpanLinkView;

    open spec fn view(&self) -> SpanLinkView {
        SpanLinkView {
            trace_id: self.trace_id@,
            span_id: self.span_id@,
            trace_state: self.trace_state@,
            attributes: KeyValue::views(self.attributes@),
            dropped_attributes_count: self.dropped_attributes_count,
        }
    }
}

impl<'a> SpanLink<'a> {
    /// What a list of messages stands for.
    pub open spec fn views(items: Seq<Self>) -> Seq<SpanLinkView> {
        Seq::new(items.len(), |i: int| items[i]@)
    }
}

impl SpanLinkView {
    /// The message with every member at its zero value.
    pub open spec fn default() -> Self {
        Self {
            trace_id: Seq::empty(),
            span_id: Seq::empty(),
            trace_state: Seq::empty(),
            attributes: Seq::empty(),
            dropped_attributes_count: 0,
        }
    }
}

impl<'a> Default for SpanLink<'a> {
    fn default() -> (r: Self)
        ensures
            r@ == SpanLinkView::default(),
    {
        let r = SpanLink {
            trace_id: empty_run(),
            span_id: empty_run(),
            trace_state: empty_text(),
            attributes: Vec::new(),
            dropped_attributes_count: 0,
        };
        assert(r@.attributes =~= Seq::empty());
        r
    }
}

/// One operation of a trace.
#[derive(Debug, PartialEq)]
pub struct Span<'a> {
    /// The trace that the span belongs to: sixteen bytes by convention.
    pub trace_id: Cow<'a, [u8]>,
    /// The span: eight bytes by convention.
    pub span_id: Cow<'a, [u8]>,
    /// The trace state, in the form of the W3C header.
    pub trace_state: Cow<'a, str>,
    /// The span that this one was started from: empty for a root span.
    pub parent_span_id: Cow<'a, [u8]>,
    /// The name of the operation.
    pub name: Cow<'a, str>,
    /// The role of the span in its trace.
    pub kind: SpanKind,
    /// The start of the span, in nanoseconds since the Unix epoch.
    pub start_time_unix_nano: u64,
    /// The end of the span, in nanoseconds since the Unix epoch.
    pub end_time_unix_nano: u64,
    /// The attributes, as key-value pairs.
    pub attributes: Vec<KeyValue<'a>>,
    /// How many attributes were dropped before the data was sent.
    pub dropped_attributes_count: u32,
    /// What happened during the span.
    pub events: Vec<SpanEvent<'a>>,
    /// How many events were dropped before the data was sent.
    pub dropped_events_count: u32,
    /// The spans that this one refers to.
    pub links: Vec<SpanLink<'a>>,
    /// How many links were dropped before the data was sent.
    pub dropped_links_count: u32,
    /// How the span ended.
    pub status: Option<Status<'a>>,
}

/// The value that `Span` stands for.
pub struct SpanView {
    pub trace_id: Seq<u8>,
    pub span_id: Seq<u8>,
    pub trace_state: Seq<char>,
    pub parent_span_id: Seq<u8>,
    pub name: Seq<char>,
    pub kind: SpanKind,
    pub start_time_unix_nano: u64,
    pub end_time_unix_nano: u64,
    pub attributes: Seq<KeyValueView>,
    pub dropped_attributes_count: u32,
    pub events: Seq<SpanEventView>,
    pub dropped_events_count: u32,
    pub links: Seq<SpanLinkView>,
    pub dropped_links_count: u32,
    pub status: Option<StatusView>,
}

impl<'a> View for Span<'a> {
    type V = SpanView;

    open spec fn view(&self) -> SpanView {
        SpanView {
            trace_id: self.trace_id@,
            span_id: self.span_id@,
            trace_state: self.trace_state@,
            parent_span_id: self.parent_span_id@,
            name: self.name@,
            kind: self.kind,
            start_time_unix_nano: self.start_time_unix_nano,
            end_time_unix_nano: self.end_time_unix_nano,
            attributes: KeyValue::views(self.attributes@),
            dropped_attributes_count: self.dropped_attributes_count,
            events: SpanEvent::views(self.events@),
            dropped_events_count: self.dropped_events_count,
            links: SpanLink::views(self.links@),
            dropped_links_count: self.dropped_links_count,
            status: Status::view_of(self.status),
        }
    }
}

impl<'a> Span<'a> {
    /// What a list of messages stands for.
    pub open spec fn views(items: Seq<Self>) -> Seq<SpanView> {
        Seq::new(items.len(), |i: int| items[i]@)
    }
}

impl SpanView {
    /// The message with every member at its zero value.
    pub open spec fn default() -> Self {
        Self {
            trace_id: Seq::empty(),
            span_id: Seq::empty(),
            trace_state: Seq::empty(),
            parent_span_id: Seq::empty(),
            name: Seq::empty(),
            kind: SpanKind::SPAN_KIND_UNSPECIFIED,
            start_time_unix_nano: 0,
            end_time_unix_nano: 0,
            attributes: Seq::empty(),
            dropped_attributes_count: 0,
            events: Seq::empty(),
            dropped_events_count: 0,
            links: Seq::empty(),
            dropped_links_count: 0,
            status: None,
        }
    }
}

impl<'a> Default for Span<'a> {
    fn default() -> (r: Self)
        ensures
            r@ == SpanView::default(),
    {
        let r = Span {
            trace_id: empty_run(),
            span_id: empty_run(),
            trace_state: empty_text(),
            parent_span_id: empty_run(),
            name: empty_text(),
            kind: SpanKind::SPAN_KIND_UNSPECIFIED,
            start_time_unix_nano: 0,
            end_time_unix_nano: 0,
            attributes: Vec::new(),
            dropped_attributes_count: 0,
            events: Vec::new(),
            dropped_events_count: 0,
            links: Vec::new(),
            dropped_links_count: 0,
            status: None,
        };
        assert(r@.attributes =~= Seq::empty());
        assert(r@.events =~= Seq::empty());
        assert(r@.links =~= Seq::empty());
        r
    }
}

/// The spans of one instrumentation scope.
#[derive(Debug, PartialEq)]
pub struct ScopeSpans<'a> {
    /// The scope that the spans come from.
    pub scope: Option<InstrumentationScope<'a>>,
    /// The spans.
    pub spans: Vec<Span<'a>>,
    /// The URL of the schema that the data follows: empty, or an absolute URL.
    pub schema_url: Cow<'a, str>,
}

/// The value that `ScopeSpans` stands for.
pub struct ScopeSpansView {
    pub scope: Option<InstrumentationScopeView>,
    pub spans: Seq<SpanView>,
    pub schema_url: Seq<char>,
}

impl<'a> View for ScopeSpans<'a> {
    type V = ScopeSpansView;

    open spec fn view(&self) -> ScopeSpansView {
        ScopeSpansView {
            scope: InstrumentationScope::view_of(self.scope),
            spans: Span::views(self.spans@),
            schema_url: self.schema_url@,
        }
    }
}

impl<'a> ScopeSpans<'a> {
    /// What a list of messages stands for.
    pub open spec fn views(items: Seq<Self>) -> Seq<ScopeSpansView> {
        Seq::new(items.len(), |i: int| items[i]@)
    }
}

impl ScopeSpansView {
    /// The message with every member at its zero value.
    pub open spec fn default() -> Self {
        Self {
            scope: None,
            spans: Seq::empty(),
            schema_url: Seq::empty(),
        }
    }
}

impl<'a> Default for ScopeSpans<'a> {
    fn default() -> (r: Self)
        ensures
            r@ == ScopeSpansView::default(),
    {
        let r = ScopeSpans {
            scope: None,
            spans: Vec::new(),
            schema_url: empty_text(),
        };
        assert(r@.spans =~= Seq::empty());
        r
    }
}

/// The spans of one resource.
#[derive(Debug, PartialEq)]
pub struct ResourceSpans<'a> {
    /// The resource that the spans come from.
    pub resource: Option<Resource<'a>>,
    /// The spans, by scope.
    pub scope_spans: Vec<ScopeSpans<'a>>,
    /// The URL of the schema that the data follows: empty, or an absolute URL.
    pub schema_url: Cow<'a, str>,
}

/// The value that `ResourceSpans` stands for.
pub struct ResourceSpansView {
    pub resource: Option<ResourceView>,
    pub scope_spans: Seq<ScopeSpansView>,
    pub schema_url: Seq<char>,
}

impl<'a> View for ResourceSpans<'a> {
    type V = ResourceSpansView;

    open spec fn view(&self) -> ResourceSpansView {
        ResourceSpansView {
            resource: Resource::view_of(self.resource),
            scope_spans: ScopeSpans::views(self.scope_spans@),
            schema_url: self.schema_url@,
        }
    }
}

impl<'a> ResourceSpans<'a> {
    /// What a list of messages stands for.
    pub open spec fn views(items: Seq<Self>) -> Seq<ResourceSpansView> {
        Seq::new(items.len(), |i: int| items[i]@)
    }
}

impl ResourceSpansView {
    /// The message with every member at its zero value.
    pub open spec fn default() -> Self {
        Self {
            resource: None,
            scope_spans: Seq::empty(),
            schema_url: Seq::empty(),
        }
    }
}

impl<'a> Default for ResourceSpans<'a> {
    fn default() -> (r: Self)
        ensures
            r@ == ResourceSpansView::default(),
    {
        let r = ResourceSpans {
            resource: None,
            scope_spans: Vec::new(),
            schema_url: empty_text(),
        };
        assert(r@.scope_spans =~= Seq::empty());
        r
    }
}

/// A request to export spans.
#[derive(Debug, PartialEq)]
pub struct ExportTraceServiceRequest<'a> {
    /// The spans, by resource.
    pub resource_spans: Vec<ResourceSpans<'a>>,
}

/// The value that `ExportTraceServiceRequest` stands for.
pub struct ExportTraceServiceRequestView {
    pub resource_spans: Seq<ResourceSpansView>,
}

impl<'a> View for ExportTraceServiceRequest<'a> {
    type V = ExportTraceServiceRequestView;

    open spec fn view(&self) -> ExportTraceServiceRequestView {
        ExportTraceServiceRequestView {
            resource_spans: ResourceSpans::views(self.resource_spans@),
        }
    }
}

impl ExportTraceServiceRequestView {
    /// The message with every member at its zero value.
    pub open spec fn default() -> Self {
        Self {
            resource_spans: Seq::empty(),
        }
    }
}

impl<'a> Default for ExportTraceServiceRequest<'a> {
    fn default() -> (r: Self)
        ensures
            r@ == ExportTraceServiceRequestView::default(),
    {
        let r = ExportTraceServiceRequest {
            resource_spans: Vec::new(),
        };
        assert(r@.resource_spans =~= Seq::empty());
        r
    }
}

} // verus!
