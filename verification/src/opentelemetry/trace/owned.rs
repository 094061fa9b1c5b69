//! Copies that own what they hold. A decoded message borrows its text and its byte
//! strings from the input; its owned copy does not, and stands for the same message.

use crate::opentelemetry::common::types::{InstrumentationScope, KeyValue, Resource};
use crate::opentelemetry::trace::types::{
    ExportTraceServiceRequest, ResourceSpans, ScopeSpans, Span, SpanEvent, SpanLink, Status,
};
use crate::text::{run_bytes, text_str};
use std::borrow::Cow;
use vstd::prelude::*;
use vstd::slice::slice_to_vec;

verus! {

impl<'a> Status<'a> {
    /// A copy that owns its text and bytes, and so outlives the bytes that the message
    /// was decoded from.
    pub fn owned(&self) -> (r: Status<'static>)
        ensures
            r@ == self@,
    {
        Status {
            message: Cow::Owned(text_str(&self.message).to_owned()),
            code: self.code,
        }
    }

    /// An owned copy of an optional message.
    pub fn owned_option(item: &Option<Status<'a>>) -> (r: Option<Status<'static>>)
        ensures
            Status::view_of(r) == Status::view_of(*item),
    {
        match item {
            Some(x) => Some(x.owned()),
            None => None,
        }
    }
}

impl<'a> SpanEvent<'a> {
    /// A copy that owns its text and bytes, and so outlives the bytes that the message
    /// was decoded from.
    pub fn owned(&self) -> (r: SpanEvent<'static>)
        ensures
            r@ == self@,
    {
        SpanEvent {
            time_unix_nano: self.time_unix_nano,
            name: Cow::Owned(text_str(&self.name).to_owned()),
            attributes: KeyValue::owned_list(&self.attributes),
            dropped_attributes_count: self.dropped_attributes_count,
        }
    }

    /// Owned copies of the messages of a list, in order.
    pub fn owned_list(items: &Vec<SpanEvent<'a>>) -> (r: Vec<SpanEvent<'static>>)
        ensures
            SpanEvent::views(r@) == SpanEvent::views(items@),
    {
        let mut out: Vec<SpanEvent<'static>> = Vec::new();
        let mut i: usize = 0;
        while i < items.len()
            invariant
                i <= items.len(),
                out.len() == i,
                forall|j: int| 0 <= j < i ==> out@[j]@ == items@[j]@,
            decreases items.len() - i,
        {
            let item = items[i].owned();
            out.push(item);
            i = i + 1;
        }
        assert(SpanEvent::views(out@) =~= SpanEvent::views(items@));
        out
    }
}

impl<'a> SpanLink<'a> {
    /// A copy that owns its text and bytes, and so outlives the bytes that the message
    /// was decoded from.
    pub fn owned(&self) -> (r: SpanLink<'static>)
        ensures
            r@ == self@,
    {
        SpanLink {
            trace_id: Cow::Owned(slice_to_vec(run_bytes(&self.trace_id))),
            span_id: Cow::Owned(slice_to_vec(run_bytes(&self.span_id))),
            trace_state: Cow::Owned(text_str(&self.trace_state).to_owned()),
            attributes: KeyValue::owned_list(&self.attributes),
            dropped_attributes_count: self.dropped_attributes_count,
        }
    }

    /// Owned copies of the messages of a list, in order.
    pub fn owned_list(items: &Vec<SpanLink<'a>>) -> (r: Vec<SpanLink<'static>>)
        ensures
            SpanLink::views(r@) == SpanLink::views(items@),
    {
        let mut out: Vec<SpanLink<'static>> = Vec::new();
        let mut i: usize = 0;
        while i < items.len()
            invariant
                i <= items.len(),
                out.len() == i,
                forall|j: int| 0 <= j < i ==> out@[j]@ == items@[j]@,
            decreases items.len() - i,
        {
            let item = items[i].owned();
            out.push(item);
            i = i + 1;
        }
        assert(SpanLink::views(out@) =~= SpanLink::views(items@));
        out
    }
}

impl<'a> Span<'a> {
    /// A copy that owns its text and bytes, and so outlives the bytes that the message
    /// was decoded from.
    pub fn owned(&self) -> (r: Span<'static>)
        ensures
            r@ == self@,
    {
        Span {
            trace_id: Cow::Owned(slice_to_vec(run_bytes(&self.trace_id))),
            span_id: Cow::Owned(slice_to_vec(run_bytes(&self.span_id))),
            trace_state: Cow::Owned(text_str(&self.trace_state).to_owned()),
            parent_span_id: Cow::Owned(slice_to_vec(run_bytes(&self.parent_span_id))),
            name: Cow::Owned(text_str(&self.name).to_owned()),
            kind: self.kind,
            start_time_unix_nano: self.start_time_unix_nano,
            end_time_unix_nano: self.end_time_unix_nano,
            attributes: KeyValue::owned_list(&self.attributes),
            dropped_attributes_count: self.dropped_attributes_count,
            events: SpanEvent::owned_list(&self.events),
            dropped_events_count: self.dropped_events_count,
            links: SpanLink::owned_list(&self.links),
            dropped_links_count: self.dropped_links_count,
            status: Status::owned_option(&self.status),
        }
    }

    /// Owned copies of the messages of a list, in order.
    pub fn owned_list(items: &Vec<Span<'a>>) -> (r: Vec<Span<'static>>)
        ensures
            Span::views(r@) == Span::views(items@),
    {
        let mut out: Vec<Span<'static>> = Vec::new();
        let mut i: usize = 0;
        while i < items.len()
            invariant
                i <= items.len(),
                out.len() == i,
                forall|j: int| 0 <= j < i ==> out@[j]@ == items@[j]@,
            decreases items.len() - i,
        {
            let item = items[i].owned();
            out.push(item);
            i = i + 1;
        }
        assert(Span::views(out@) =~= Span::views(items@));
        out
    }
}

impl<'a> ScopeSpans<'a> {
    /// A copy that owns its text and bytes, and so outlives the bytes that the message
    /// was decoded from.
    pub fn owned(&self) -> (r: ScopeSpans<'static>)
        ensures
            r@ == self@,
    {
        ScopeSpans {
            scope: InstrumentationScope::owned_option(&self.scope),
            spans: Span::owned_list(&self.spans),
            schema_url: Cow::Owned(text_str(&self.schema_url).to_owned()),
        }
    }

    /// Owned copies of the messages of a list, in order.
    pub fn owned_list(items: &Vec<ScopeSpans<'a>>) -> (r: Vec<ScopeSpans<'static>>)
        ensures
            ScopeSpans::views(r@) == ScopeSpans::views(items@),
    {
        let mut out: Vec<ScopeSpans<'static>> = Vec::new();
        let mut i: usize = 0;
        while i < items.len()
            invariant
                i <= items.len(),
                out.len() == i,
                forall|j: int| 0 <= j < i ==> out@[j]@ == items@[j]@,
            decreases items.len() - i,
        {
            let item = items[i].owned();
            out.push(item);
            i = i + 1;
        }
        assert(ScopeSpans::views(out@) =~= ScopeSpans::views(items@));
        out
    }
}

impl<'a> ResourceSpans<'a> {
    /// A copy that owns its text and bytes, and so outlives the bytes that the message
    /// was decoded from.
    pub fn owned(&self) -> (r: ResourceSpans<'static>)
        ensures
            r@ == self@,
    {
        ResourceSpans {
            resource: Resource::owned_option(&self.resource),
            scope_spans: ScopeSpans::owned_list(&self.scope_spans),
            schema_url: Cow::Owned(text_str(&self.schema_url).to_owned()),
        }
    }

    /// Owned copies of the messages of a list, in order.
    pub fn owned_list(items: &Vec<ResourceSpans<'a>>) -> (r: Vec<ResourceSpans<'static>>)
        ensures
            ResourceSpans::views(r@) == ResourceSpans::views(items@),
    {
        let mut out: Vec<ResourceSpans<'static>> = Vec::new();
        let mut i: usize = 0;
        while i < items.len()
            invariant
                i <= items.len(),
                out.len() == i,
                forall|j: int| 0 <= j < i ==> out@[j]@ == items@[j]@,
            decreases items.len() - i,
        {
            let item = items[i].owned();
            out.push(item);
            i = i + 1;
        }
        assert(ResourceSpans::views(out@) =~= ResourceSpans::views(items@));
        out
    }
}

impl<'a> ExportTraceServiceRequest<'a> {
    /// A copy that owns its text and bytes, and so outlives the bytes that the message
    /// was decoded from.
    pub fn owned(&self) -> (r: ExportTraceServiceRequest<'static>)
        ensures
            r@ == self@,
    {
        ExportTraceServiceRequest {
            resource_spans: ResourceSpans::owned_list(&self.resource_spans),
        }
    }
}

} // verus!
