//! Copies of messages. A copy stands for the message that it was made from; what
//! the message borrows, the copy borrows too.

use crate::opentelemetry::common::types::{InstrumentationScope, KeyValue, Resource};
use crate::opentelemetry::trace::types::{
    ExportTraceServiceRequest, ResourceSpans, ScopeSpans, Span, SpanEvent, SpanLink, Status,
};
use crate::text::{copy_of_run, copy_of_text};
use vstd::prelude::*;

verus! {

impl<'a> Status<'a> {
    /// A copy of the message.
    pub(crate) fn duplicate(&self) -> (r: Status<'a>)
        ensures
            r@ == self@,
    {
        Status {
            message: copy_of_text(&self.message),
            code: self.code,
        }
    }

    /// A copy of an optional message.
    pub(crate) fn duplicate_option(item: &Option<Status<'a>>) -> (r: Option<Status<'a>>)
        ensures
            Status::view_of(r) == Status::view_of(*item),
    {
        match item {
            Some(x) => Some(x.duplicate()),
            None => None,
        }
    }
}

impl<'a> Clone for Status<'a> {
    fn clone(&self) -> (r: Self)
        ensures
            r@ == self@,
    {
        self.duplicate()
    }
}

impl<'a> SpanEvent<'a> {
    /// A copy of the message.
    pub(crate) fn duplicate(&self) -> (r: SpanEvent<'a>)
        ensures
            r@ == self@,
    {
        SpanEvent {
            time_unix_nano: self.time_unix_nano,
            name: copy_of_text(&self.name),
            attributes: KeyValue::duplicate_list(&self.attributes),
            dropped_attributes_count: self.dropped_attributes_count,
        }
    }

    /// Copies of the messages of a list, in order.
    pub(crate) fn duplicate_list(items: &Vec<SpanEvent<'a>>) -> (r: Vec<SpanEvent<'a>>)
        ensures
            SpanEvent::views(r@) == SpanEvent::views(items@),
    {
        let mut out: Vec<SpanEvent<'a>> = Vec::new();
        let mut i: usize = 0;
        while i < items.len()
            invariant
                i <= items.len(),
                out.len() == i,
                forall|j: int| 0 <= j < i ==> out@[j]@ == items@[j]@,
            decreases items.len() - i,
        {
            let item = items[i].duplicate();
            out.push(item);
            i = i + 1;
        }
        assert(SpanEvent::views(out@) =~= SpanEvent::views(items@));
        out
    }
}

impl<'a> Clone for SpanEvent<'a> {
    fn clone(&self) -> (r: Self)
        ensures
            r@ == self@,
    {
        self.duplicate()
    }
}

impl<'a> SpanLink<'a> {
    /// A copy of the message.
    pub(crate) fn duplicate(&self) -> (r: SpanLink<'a>)
        ensures
            r@ == self@,
    {
        SpanLink {
            trace_id: copy_of_run(&self.trace_id),
            span_id: copy_of_run(&self.span_id),
            trace_state: copy_of_text(&self.trace_state),
            attributes: KeyValue::duplicate_list(&self.attributes),
            dropped_attributes_count: self.dropped_attributes_count,
        }
    }

    /// Copies of the messages of a list, in order.
    pub(crate) fn duplicate_list(items: &Vec<SpanLink<'a>>) -> (r: Vec<SpanLink<'a>>)
        ensures
            SpanLink::views(r@) == SpanLink::views(items@),
    {
        let mut out: Vec<SpanLink<'a>> = Vec::new();
        let mut i: usize = 0;
        while i < items.len()
            invariant
                i <= items.len(),
                out.len() == i,
                forall|j: int| 0 <= j < i ==> out@[j]@ == items@[j]@,
            decreases items.len() - i,
        {
            let item = items[i].duplicate();
            out.push(item);
            i = i + 1;
        }
        assert(SpanLink::views(out@) =~= SpanLink::views(items@));
        out
    }
}

impl<'a> Clone for SpanLink<'a> {
    fn clone(&self) -> (r: Self)
        ensures
            r@ == self@,
    {
        self.duplicate()
    }
}

impl<'a> Span<'a> {
    /// A copy of the message.
    pub(crate) fn duplicate(&self) -> (r: Span<'a>)
        ensures
            r@ == self@,
    {
        Span {
            trace_id: copy_of_run(&self.trace_id),
            span_id: copy_of_run(&self.span_id),
            trace_state: copy_of_text(&self.trace_state),
            parent_span_id: copy_of_run(&self.parent_span_id),
            name: copy_of_text(&self.name),
            kind: self.kind,
            start_time_unix_nano: self.start_time_unix_nano,
            end_time_unix_nano: self.end_time_unix_nano,
            attributes: KeyValue::duplicate_list(&self.attributes),
            dropped_attributes_count: self.dropped_attributes_count,
            events: SpanEvent::duplicate_list(&self.events),
            dropped_events_count: self.dropped_events_count,
            links: SpanLink::duplicate_list(&self.links),
            dropped_links_count: self.dropped_links_count,
            status: Status::duplicate_option(&self.status),
        }
    }

    /// Copies of the messages of a list, in order.
    pub(crate) fn duplicate_list(items: &Vec<Span<'a>>) -> (r: Vec<Span<'a>>)
        ensures
            Span::views(r@) == Span::views(items@),
    {
        let mut out: Vec<Span<'a>> = Vec::new();
        let mut i: usize = 0;
        while i < items.len()
            invariant
                i <= items.len(),
                out.len() == i,
                forall|j: int| 0 <= j < i ==> out@[j]@ == items@[j]@,
            decreases items.len() - i,
        {
            let item = items[i].duplicate();
            out.push(item);
            i = i + 1;
        }
        assert(Span::views(out@) =~= Span::views(items@));
        out
    }
}

impl<'a> Clone for Span<'a> {
    fn clone(&self) -> (r: Self)
        ensures
            r@ == self@,
    {
        self.duplicate()
    }
}

impl<'a> ScopeSpans<'a> {
    /// A copy of the message.
    pub(crate) fn duplicate(&self) -> (r: ScopeSpans<'a>)
        ensures
            r@ == self@,
    {
        ScopeSpans {
            scope: InstrumentationScope::duplicate_option(&self.scope),
            spans: Span::duplicate_list(&self.spans),
            schema_url: copy_of_text(&self.schema_url),
        }
    }

    /// Copies of the messages of a list, in order.
    pub(crate) fn duplicate_list(items: &Vec<ScopeSpans<'a>>) -> (r: Vec<ScopeSpans<'a>>)
        ensures
            ScopeSpans::views(r@) == ScopeSpans::views(items@),
    {
        let mut out: Vec<ScopeSpans<'a>> = Vec::new();
        let mut i: usize = 0;
        while i < items.len()
            invariant
                i <= items.len(),
                out.len() == i,
                forall|j: int| 0 <= j < i ==> out@[j]@ == items@[j]@,
            decreases items.len() - i,
        {
            let item = items[i].duplicate();
            out.push(item);
            i = i + 1;
        }
        assert(ScopeSpans::views(out@) =~= ScopeSpans::views(items@));
        out
    }
}

impl<'a> Clone for ScopeSpans<'a> {
    fn clone(&self) -> (r: Self)
        ensures
            r@ == self@,
    {
        self.duplicate()
    }
}

impl<'a> ResourceSpans<'a> {
    /// A copy of the message.
    pub(crate) fn duplicate(&self) -> (r: ResourceSpans<'a>)
        ensures
            r@ == self@,
    {
        ResourceSpans {
            resource: Resource::duplicate_option(&self.resource),
            scope_spans: ScopeSpans::duplicate_list(&self.scope_spans),
            schema_url: copy_of_text(&self.schema_url),
        }
    }

    /// Copies of the messages of a list, in order.
    pub(crate) fn duplicate_list(items: &Vec<ResourceSpans<'a>>) -> (r: Vec<ResourceSpans<'a>>)
        ensures
            ResourceSpans::views(r@) == ResourceSpans::views(items@),
    {
        let mut out: Vec<ResourceSpans<'a>> = Vec::new();
        let mut i: usize = 0;
        while i < items.len()
            invariant
                i <= items.len(),
                out.len() == i,
                forall|j: int| 0 <= j < i ==> out@[j]@ == items@[j]@,
            decreases items.len() - i,
        {
            let item = items[i].duplicate();
            out.push(item);
            i = i + 1;
        }
        assert(ResourceSpans::views(out@) =~= ResourceSpans::views(items@));
        out
    }
}

impl<'a> Clone for ResourceSpans<'a> {
    fn clone(&self) -> (r: Self)
        ensures
            r@ == self@,
    {
        self.duplicate()
    }
}

impl<'a> ExportTraceServiceRequest<'a> {
    /// A copy of the message.
    pub(crate) fn duplicate(&self) -> (r: ExportTraceServiceRequest<'a>)
        ensures
            r@ == self@,
    {
        ExportTraceServiceRequest {
            resource_spans: ResourceSpans::duplicate_list(&self.resource_spans),
        }
    }
}

impl<'a> Clone for ExportTraceServiceRequest<'a> {
    fn clone(&self) -> (r: Self)
        ensures
            r@ == self@,
    {
        self.duplicate()
    }
}

} // verus!
