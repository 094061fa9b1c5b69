//! Validation of log export requests: every schema URL is empty or an absolute URL.

use crate::error::Error;
use crate::opentelemetry::logs::types::{
    ExportLogsServiceRequest, ExportLogsServiceRequestView, LogRecord, ResourceLogs,
    ResourceLogsView, ScopeLogs, ScopeLogsView,
};
use crate::schema_url::{check_schema_url, schema_url_verdict};
use crate::text::text_str;
use crate::validation::common::CommonValidate;
use crate::validation::walk::{
    and_then, first_failure, lemma_failure_at, lemma_no_failure, lemma_single_failure,
};
use vstd::prelude::*;

verus! {

/// Validation of a message of the logs family.
pub trait LogValidate {
    /// The verdict that `validate` gives.
    spec fn verdict(&self) -> Result<(), Error>;

    /// Walks the message and what it holds, and returns the first fault found.
    fn validate(&self) -> (r: Result<(), Error>)
        ensures
            r == self.verdict(),
    ;
}

/// The verdicts on a list of messages.
pub open spec fn verdicts_of<T: LogValidate>(items: Seq<T>) -> Seq<Result<(), Error>> {
    Seq::new(items.len(), |i: int| items[i].verdict())
}

/// Validates the items of a list in order, up to the first that is at fault.
pub fn validate_each<T: LogValidate>(items: &Vec<T>) -> (r: Result<(), Error>)
    ensures
        r == first_failure(verdicts_of(items@)),
{
    let mut i: usize = 0;
    while i < items.len()
        invariant
            i <= items.len(),
            forall|j: int| 0 <= j < i ==> (#[trigger] verdicts_of(items@)[j]) is Ok,
        decreases items.len() - i,
    {
        match items[i].validate() {
            Err(e) => {
                proof {
                    lemma_failure_at(verdicts_of(items@), i as int);
                }
                return Err(e);
            },
            Ok(()) => {},
        }
        i = i + 1;
    }
    proof {
        lemma_no_failure(verdicts_of(items@));
    }
    Ok(())
}

impl ExportLogsServiceRequestView {
    /// The verdict of the walk: the first fault in the order of the walk, or `Ok`.
    pub open spec fn verdict(self) -> Result<(), Error> {
        first_failure(ResourceLogsView::verdicts(self.resource_logs))
    }

    /// Where exactly one item of `resource_logs` is at fault, and nothing that the walk
    /// visits before the list, the verdict is the fault of that item.
    pub proof fn lemma_single_fault_in_resource_logs(self, at: int)
        requires
            0 <= at < self.resource_logs.len(),
            self.resource_logs[at].verdict() is Err,
            forall|i: int|
                0 <= i < self.resource_logs.len() && i != at
                    ==> (#[trigger] self.resource_logs[i]).verdict() is Ok,
        ensures
            self.verdict() == self.resource_logs[at].verdict(),
    {
        lemma_single_failure(ResourceLogsView::verdicts(self.resource_logs), at);
    }
}

impl<'a> LogValidate for ExportLogsServiceRequest<'a> {
    open spec fn verdict(&self) -> Result<(), Error> {
        self@.verdict()
    }

    fn validate(&self) -> (r: Result<(), Error>)
        ensures
            r == self@.verdict(),
    {
        proof {
            assert(
                verdicts_of(self.resource_logs@) =~= ResourceLogsView::verdicts(self@.resource_logs)
            );
        }
        validate_each(&self.resource_logs)
    }
}

impl ResourceLogsView {
    /// The verdict of the walk: the first fault in the order of the walk, or `Ok`.
    pub open spec fn verdict(self) -> Result<(), Error> {
        and_then(
            first_failure(ScopeLogsView::verdicts(self.scope_logs)),
            schema_url_verdict(self.schema_url),
        )
    }

    /// The verdicts on a list of messages.
    pub open spec fn verdicts(items: Seq<ResourceLogsView>) -> Seq<Result<(), Error>> {
        Seq::new(items.len(), |i: int| items[i].verdict())
    }

    /// Where exactly one item of `scope_logs` is at fault, and nothing that the walk
    /// visits before the list, the verdict is the fault of that item.
    pub proof fn lemma_single_fault_in_scope_logs(self, at: int)
        requires
            0 <= at < self.scope_logs.len(),
            self.scope_logs[at].verdict() is Err,
            forall|i: int|
                0 <= i < self.scope_logs.len() && i != at
                    ==> (#[trigger] self.scope_logs[i]).verdict() is Ok,
        ensures
            self.verdict() == self.scope_logs[at].verdict(),
    {
        lemma_single_failure(ScopeLogsView::verdicts(self.scope_logs), at);
    }

    /// Where `schema_url` breaks its rule, and nothing that the walk visits before it is
    /// at fault, the verdict is the fault of `schema_url`.
    pub proof fn lemma_fault_in_schema_url(self)
        requires
            schema_url_verdict(self.schema_url) is Err,
            first_failure(ScopeLogsView::verdicts(self.scope_logs)) is Ok,
        ensures
            self.verdict() == schema_url_verdict(self.schema_url),
    {
    }
}

impl<'a> LogValidate for ResourceLogs<'a> {
    open spec fn verdict(&self) -> Result<(), Error> {
        self@.verdict()
    }

    fn validate(&self) -> (r: Result<(), Error>)
        ensures
            r == self@.verdict(),
    {
        match match &self.resource {
            Some(x) => x.validate(),
            None => Ok(()),
        } {
            Err(e) => {
                return Err(e);
            },
            Ok(()) => {},
        }
        proof {
            assert(verdicts_of(self.scope_logs@) =~= ScopeLogsView::verdicts(self@.scope_logs));
        }
        match validate_each(&self.scope_logs) {
            Err(e) => {
                return Err(e);
            },
            Ok(()) => {},
        }
        check_schema_url(text_str(&self.schema_url))
    }
}

impl ScopeLogsView {
    /// The verdict of the walk: the first fault in the order of the walk, or `Ok`.
    pub open spec fn verdict(self) -> Result<(), Error> {
        schema_url_verdict(self.schema_url)
    }

    /// The verdicts on a list of messages.
    pub open spec fn verdicts(items: Seq<ScopeLogsView>) -> Seq<Result<(), Error>> {
        Seq::new(items.len(), |i: int| items[i].verdict())
    }

    /// Where `schema_url` breaks its rule, and nothing that the walk visits before it is
    /// at fault, the verdict is the fault of `schema_url`.
    pub proof fn lemma_fault_in_schema_url(self)
        requires
            schema_url_verdict(self.schema_url) is Err,
        ensures
            self.verdict() == schema_url_verdict(self.schema_url),
    {
    }
}

impl<'a> LogValidate for ScopeLogs<'a> {
    open spec fn verdict(&self) -> Result<(), Error> {
        self@.verdict()
    }

    fn validate(&self) -> (r: Result<(), Error>)
        ensures
            r == self@.verdict(),
    {
        match match &self.scope {
            Some(x) => x.validate(),
            None => Ok(()),
        } {
            Err(e) => {
                return Err(e);
            },
            Ok(()) => {},
        }
        proof {
            lemma_no_failure(verdicts_of(self.log_records@));
        }
        match validate_each(&self.log_records) {
            Err(e) => {
                return Err(e);
            },
            Ok(()) => {},
        }
        check_schema_url(text_str(&self.schema_url))
    }
}

impl<'a> LogValidate for LogRecord<'a> {
    open spec fn verdict(&self) -> Result<(), Error> {
        Ok(())
    }

    fn validate(&self) -> (r: Result<(), Error>)
        ensures
            r == Ok::<(), Error>(()),
    {
        match match &self.body {
            Some(x) => x.validate(),
            None => Ok(()),
        } {
            Err(e) => {
                return Err(e);
            },
            Ok(()) => {},
        }
        proof {
            lemma_no_failure(crate::validation::common::verdicts_of(self.attributes@));
        }
        crate::validation::common::validate_each(&self.attributes)
    }
}

} // verus!
