//! Copies of messages. A copy stands for the message that it was made from; what
//! the message borrows, the copy borrows too.

use crate::opentelemetry::common::types::{AnyValue, InstrumentationScope, KeyValue, Resource};
use crate::opentelemetry::logs::types::{
    ExportLogsServiceRequest, LogRecord, ResourceLogs, ScopeLogs,
};
use crate::text::{copy_of_run, copy_of_text};
use vstd::prelude::*;

verus! {

impl<'a> LogRecord<'a> {
    /// A copy of the message.
    pub(crate) fn duplicate(&self) -> (r: LogRecord<'a>)
        ensures
            r@ == self@,
    {
        LogRecord {
            time_unix_nano: self.time_unix_nano,
            observed_time_unix_nano: self.observed_time_unix_nano,
            severity_number: self.severity_number,
            severity_text: copy_of_text(&self.severity_text),
            body: AnyValue::duplicate_option(&self.body),
            attributes: KeyValue::duplicate_list(&self.attributes),
            dropped_attributes_count: self.dropped_attributes_count,
            flags: self.flags,
            trace_id: copy_of_run(&self.trace_id),
            span_id: copy_of_run(&self.span_id),
        }
    }

    /// Copies of the messages of a list, in order.
    pub(crate) fn duplicate_list(items: &Vec<LogRecord<'a>>) -> (r: Vec<LogRecord<'a>>)
        ensures
            LogRecord::views(r@) == LogRecord::views(items@),
    {
        let mut out: Vec<LogRecord<'a>> = Vec::new();
        let mut i: usize = 0;
        while i < items.len()
            invariant
                i <= items.len(),
                out.len() == i,
                forall|j: int| 0 <= j < i ==> out@[j]@ == items@[j]@,
            decreases items.len() - i,
        {
            let item = items[i].duplicate();
            out.push(item);
            i = i + 1;
        }
        assert(LogRecord::views(out@) =~= LogRecord::views(items@));
        out
    }
}

impl<'a> Clone for LogRecord<'a> {
    fn clone(&self) -> (r: Self)
        ensures
            r@ == self@,
    {
        self.duplicate()
    }
}

impl<'a> ScopeLogs<'a> {
    /// A copy of the message.
    pub(crate) fn duplicate(&self) -> (r: ScopeLogs<'a>)
        ensures
            r@ == self@,
    {
        ScopeLogs {
            scope: InstrumentationScope::duplicate_option(&self.scope),
            log_records: LogRecord::duplicate_list(&self.log_records),
            schema_url: copy_of_text(&self.schema_url),
        }
    }

    /// Copies of the messages of a list, in order.
    pub(crate) fn duplicate_list(items: &Vec<ScopeLogs<'a>>) -> (r: Vec<ScopeLogs<'a>>)
        ensures
            ScopeLogs::views(r@) == ScopeLogs::views(items@),
    {
        let mut out: Vec<ScopeLogs<'a>> = Vec::new();
        let mut i: usize = 0;
        while i < items.len()
            invariant
                i <= items.len(),
                out.len() == i,
                forall|j: int| 0 <= j < i ==> out@[j]@ == items@[j]@,
            decreases items.len() - i,
        {
            let item = items[i].duplicate();
            out.push(item);
            i = i + 1;
        }
        assert(ScopeLogs::views(out@) =~= ScopeLogs::views(items@));
        out
    }
}

impl<'a> Clone for ScopeLogs<'a> {
    fn clone(&self) -> (r: Self)
        ensures
            r@ == self@,
    {
        self.duplicate()
    }
}

impl<'a> ResourceLogs<'a> {
    /// A copy of the message.
    pub(crate) fn duplicate(&self) -> (r: ResourceLogs<'a>)
        ensures
            r@ == self@,
    {
        ResourceLogs {
            resource: Resource::duplicate_option(&self.resource),
            scope_logs: ScopeLogs::duplicate_list(&self.scope_logs),
            schema_url: copy_of_text(&self.schema_url),
        }
    }

    /// Copies of the messages of a list, in order.
    pub(crate) fn duplicate_list(items: &Vec<ResourceLogs<'a>>) -> (r: Vec<ResourceLogs<'a>>)
        ensures
            ResourceLogs::views(r@) == ResourceLogs::views(items@),
    {
        let mut out: Vec<ResourceLogs<'a>> = Vec::new();
        let mut i: usize = 0;
        while i < items.len()
            invariant
                i <= items.len(),
                out.len() == i,
                forall|j: int| 0 <= j < i ==> out@[j]@ == items@[j]@,
            decreases items.len() - i,
        {
            let item = items[i].duplicate();
            out.push(item);
            i = i + 1;
        }
        assert(ResourceLogs::views(out@) =~= ResourceLogs::views(items@));
        out
    }
}

impl<'a> Clone for ResourceLogs<'a> {
    fn clone(&self) -> (r: Self)
        ensures
            r@ == self@,
    {
        self.duplicate()
    }
}

impl<'a> ExportLogsServiceRequest<'a> {
    /// A copy of the message.
    pub(crate) fn duplicate(&self) -> (r: ExportLogsServiceRequest<'a>)
        ensures
            r@ == self@,
    {
        ExportLogsServiceRequest {
            resource_logs: ResourceLogs::duplicate_list(&self.resource_logs),
        }
    }
}

impl<'a> Clone for ExportLogsServiceRequest<'a> {
    fn clone(&self) -> (r: Self)
        ensures
            r@ == self@,
    {
        self.duplicate()
    }
}

} // verus!
