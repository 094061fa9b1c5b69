//! Copies that own what they hold. A decoded message borrows its text and its byte
//! strings from the input; its owned copy does not, and stands for the same message.

use crate::opentelemetry::common::types::{AnyValue, InstrumentationScope, KeyValue, Resource};
use crate::opentelemetry::logs::types::{
    ExportLogsServiceRequest, LogRecord, ResourceLogs, ScopeLogs,
};
use crate::text::{run_bytes, text_str};
use std::borrow::Cow;
use vstd::prelude::*;
use vstd::slice::slice_to_vec;

verus! {

impl<'a> LogRecord<'a> {
    /// A copy that owns its text and bytes, and so outlives the bytes that the message
    /// was decoded from.
    pub fn owned(&self) -> (r: LogRecord<'static>)
        ensures
            r@ == self@,
    {
        LogRecord {
            time_unix_nano: self.time_unix_nano,
            observed_time_unix_nano: self.observed_time_unix_nano,
            severity_number: self.severity_number,
            severity_text: Cow::Owned(text_str(&self.severity_text).to_owned()),
            body: AnyValue::owned_option(&self.body),
            attributes: KeyValue::owned_list(&self.attributes),
            dropped_attributes_count: self.dropped_attributes_count,
            flags: self.flags,
            trace_id: Cow::Owned(slice_to_vec(run_bytes(&self.trace_id))),
            span_id: Cow::Owned(slice_to_vec(run_bytes(&self.span_id))),
        }
    }

    /// Owned copies of the messages of a list, in order.
    pub fn owned_list(items: &Vec<LogRecord<'a>>) -> (r: Vec<LogRecord<'static>>)
        ensures
            LogRecord::views(r@) == LogRecord::views(items@),
    {
        let mut out: Vec<LogRecord<'static>> = Vec::new();
        let mut i: usize = 0;
        while i < items.len()
            invariant
                i <= items.len(),
                out.len() == i,
                forall|j: int| 0 <= j < i ==> out@[j]@ == items@[j]@,
            decreases items.len() - i,
        {
            let item = items[i].owned();
            out.push(item);
            i = i + 1;
        }
        assert(LogRecord::views(out@) =~= LogRecord::views(items@));
        out
    }
}

impl<'a> ScopeLogs<'a> {
    /// A copy that owns its text and bytes, and so outlives the bytes that the message
    /// was decoded from.
    pub fn owned(&self) -> (r: ScopeLogs<'static>)
        ensures
            r@ == self@,
    {
        ScopeLogs {
            scope: InstrumentationScope::owned_option(&self.scope),
            log_records: LogRecord::owned_list(&self.log_records),
            schema_url: Cow::Owned(text_str(&self.schema_url).to_owned()),
        }
    }

    /// Owned copies of the messages of a list, in order.
    pub fn owned_list(items: &Vec<ScopeLogs<'a>>) -> (r: Vec<ScopeLogs<'static>>)
        ensures
            ScopeLogs::views(r@) == ScopeLogs::views(items@),
    {
        let mut out: Vec<ScopeLogs<'static>> = Vec::new();
        let mut i: usize = 0;
        while i < items.len()
            invariant
                i <= items.len(),
                out.len() == i,
                forall|j: int| 0 <= j < i ==> out@[j]@ == items@[j]@,
            decreases items.len() - i,
        {
            let item = items[i].owned();
            out.push(item);
            i = i + 1;
        }
        assert(ScopeLogs::views(out@) =~= ScopeLogs::views(items@));
        out
    }
}

impl<'a> ResourceLogs<'a> {
    /// A copy that owns its text and bytes, and so outlives the bytes that the message
    /// was decoded from.
    pub fn owned(&self) -> (r: ResourceLogs<'static>)
        ensures
            r@ == self@,
    {
        ResourceLogs {
            resource: Resource::owned_option(&self.resource),
            scope_logs: ScopeLogs::owned_list(&self.scope_logs),
            schema_url: Cow::Owned(text_str(&self.schema_url).to_owned()),
        }
    }

    /// Owned copies of the messages of a list, in order.
    pub fn owned_list(items: &Vec<ResourceLogs<'a>>) -> (r: Vec<ResourceLogs<'static>>)
        ensures
            ResourceLogs::views(r@) == ResourceLogs::views(items@),
    {
        let mut out: Vec<ResourceLogs<'static>> = Vec::new();
        let mut i: usize = 0;
        while i < items.len()
            invariant
                i <= items.len(),
                out.len() == i,
                forall|j: int| 0 <= j < i ==> out@[j]@ == items@[j]@,
            decreases items.len() - i,
        {
            let item = items[i].owned();
            out.push(item);
            i = i + 1;
        }
        assert(ResourceLogs::views(out@) =~= ResourceLogs::views(items@));
        out
    }
}

impl<'a> ExportLogsServiceRequest<'a> {
    /// A copy that owns its text and bytes, and so outlives the bytes that the message
    /// was decoded from.
    pub fn owned(&self) -> (r: ExportLogsServiceRequest<'static>)
        ensures
            r@ == self@,
    {
        ExportLogsServiceRequest {
            resource_logs: ResourceLogs::owned_list(&self.resource_logs),
        }
    }
}

} // verus!
