//! Validation of trace export requests: every schema URL is empty or an absolute URL.

use crate::error::Error;
use crate::opentelemetry::trace::types::{
    ExportTraceServiceRequest, ExportTraceServiceRequestView, ResourceSpans, ResourceSpansView,
    ScopeSpans, ScopeSpansView, Span, SpanEvent, SpanLink, Status,
};
use crate::schema_url::{check_schema_url, schema_url_verdict};
use crate::text::text_str;
use crate::validation::common::CommonValidate;
use crate::validation::walk::{
    and_then, first_failure, lemma_failure_at, lemma_no_failure, lemma_single_failure,
};
use vstd::prelude::*;

verus! {

/// Validation of a message of the trace family.
pub trait TraceValidate {
    /// The verdict that `validate` gives.
    spec fn verdict(&self) -> Result<(), Error>;

    /// Walks the message and what it holds, and returns the first fault found.
    fn validate(&self) -> (r: Result<(), Error>)
        ensures
            r == self.verdict(),
    ;
}

/// The verdicts on a list of messages.
pub open spec fn verdicts_of<T: TraceValidate>(items: Seq<T>) -> Seq<Result<(), Error>> {
    Seq::new(items.len(), |i: int| items[i].verdict())
}

/// Validates the items of a list in order, up to the first that is at fault.
pub fn validate_each<T: TraceValidate>(items: &Vec<T>) -> (r: Result<(), Error>)
    ensures
        r == first_failure(verdicts_of(items@)),
{
    let mut i: usize = 0;
    while i < items.len()
        invariant
            i <= items.len(),
            forall|j: int| 0 <= j < i ==> (#[trigger] verdicts_of(items@)[j]) is Ok,
        decreases items.len() - i,
    {
        match items[i].validate() {
            Err(e) => {
                proof {
                    lemma_failure_at(verdicts_of(items@), i as int);
                }
                return Err(e);
            },
            Ok(()) => {},
        }
        i = i + 1;
    }
    proof {
        lemma_no_failure(verdicts_of(items@));
    }
    Ok(())
}

impl ExportTraceServiceRequestView {
    /// The verdict of the walk: the first fault in the order of the walk, or `Ok`.
    pub open spec fn verdict(self) -> Result<(), Error> {
        first_failure(ResourceSpansView::verdicts(self.resource_spans))
    }

    /// Where exactly one item of `resource_spans` is at fault, and nothing that the walk
    /// visits before the list, the verdict is the fault of that item.
    pub proof fn lemma_single_fault_in_resource_spans(self, at: int)
        requires
            0 <= at < self.resource_spans.len(),
            self.resource_spans[at].verdict() is Err,
            forall|i: int|
                0 <= i < self.resource_spans.len() && i != at
                    ==> (#[trigger] self.resource_spans[i]).verdict() is Ok,
        ensures
            self.verdict() == self.resource_spans[at].verdict(),
    {
        lemma_single_failure(ResourceSpansView::verdicts(self.resource_spans), at);
    }
}

impl<'a> TraceValidate for ExportTraceServiceRequest<'a> {
    open spec fn verdict(&self) -> Result<(), Error> {
        self@.verdict()
    }

    fn validate(&self) -> (r: Result<(), Error>)
        ensures
            r == self@.verdict(),
    {
        proof {
            assert(
                verdicts_of(self.resource_spans@) =~= ResourceSpansView::verdicts(
                    self@.resource_spans,
                )
            );
        }
        validate_each(&self.resource_spans)
    }
}

impl ResourceSpansView {
    /// The verdict of the walk: the first fault in the order of the walk, or `Ok`.
    pub open spec fn verdict(self) -> Result<(), Error> {
        and_then(
            first_failure(ScopeSpansView::verdicts(self.scope_spans)),
            schema_url_verdict(self.schema_url),
        )
    }

    /// The verdicts on a list of messages.
    pub open spec fn verdicts(items: Seq<ResourceSpansView>) -> Seq<Result<(), Error>> {
        Seq::new(items.len(), |i: int| items[i].verdict())
    }

    /// Where exactly one item of `scope_spans` is at fault, and nothing that the walk
    /// visits before the list, the verdict is the fault of that item.
    pub proof fn lemma_single_fault_in_scope_spans(self, at: int)
        requires
            0 <= at < self.scope_spans.len(),
            self.scope_spans[at].verdict() is Err,
            forall|i: int|
                0 <= i < self.scope_spans.len() && i != at
                    ==> (#[trigger] self.scope_spans[i]).verdict() is Ok,
        ensures
            self.verdict() == self.scope_spans[at].verdict(),
    {
        lemma_single_failure(ScopeSpansView::verdicts(self.scope_spans), at);
    }

    /// Where `schema_url` breaks its rule, and nothing that the walk visits before it is
    /// at fault, the verdict is the fault of `schema_url`.
    pub proof fn lemma_fault_in_schema_url(self)
        requires
            schema_url_verdict(self.schema_url) is Err,
            first_failure(ScopeSpansView::verdicts(self.scope_spans)) is Ok,
        ensures
            self.verdict() == schema_url_verdict(self.schema_url),
    {
    }
}

impl<'a> TraceValidate for ResourceSpans<'a> {
    open spec fn verdict(&self) -> Result<(), Error> {
        self@.verdict()
    }

    fn validate(&self) -> (r: Result<(), Error>)
        ensures
            r == self@.verdict(),
    {
        match match &self.resource {
            Some(x) => x.validate(),
            None => Ok(()),
        } {
            Err(e) => {
                return Err(e);
            },
            Ok(()) => {},
        }
        proof {
            assert(verdicts_of(self.scope_spans@) =~= ScopeSpansView::verdicts(self@.scope_spans));
        }
        match validate_each(&self.scope_spans) {
            Err(e) => {
                return Err(e);
            },
            Ok(()) => {},
        }
        check_schema_url(text_str(&self.schema_url))
    }
}

impl ScopeSpansView {
    /// The verdict of the walk: the first fault in the order of the walk, or `Ok`.
    pub open spec fn verdict(self) -> Result<(), Error> {
        schema_url_verdict(self.schema_url)
    }

    /// The verdicts on a list of messages.
    pub open spec fn verdicts(items: Seq<ScopeSpansView>) -> Seq<Result<(), Error>> {
        Seq::new(items.len(), |i: int| items[i].verdict())
    }

    /// Where `schema_url` breaks its rule, and nothing that the walk visits before it is
    /// at fault, the verdict is the fault of `schema_url`.
    pub proof fn lemma_fault_in_schema_url(self)
        requires
            schema_url_verdict(self.schema_url) is Err,
        ensures
            self.verdict() == schema_url_verdict(self.schema_url),
    {
    }
}

impl<'a> TraceValidate for ScopeSpans<'a> {
    open spec fn verdict(&self) -> Result<(), Error> {
        self@.verdict()
    }

    fn validate(&self) -> (r: Result<(), Error>)
        ensures
            r == self@.verdict(),
    {
        proof {
            lemma_no_failure(verdicts_of(self.spans@));
        }
        match validate_each(&self.spans) {
            Err(e) => {
                return Err(e);
            },
            Ok(()) => {},
        }
        check_schema_url(text_str(&self.schema_url))
    }
}

impl<'a> TraceValidate for Span<'a> {
    open spec fn verdict(&self) -> Result<(), Error> {
        Ok(())
    }

    fn validate(&self) -> (r: Result<(), Error>)
        ensures
            r == Ok::<(), Error>(()),
    {
        proof {
            lemma_no_failure(crate::validation::common::verdicts_of(self.attributes@));
        }
        match crate::validation::common::validate_each(&self.attributes) {
            Err(e) => {
                return Err(e);
            },
            Ok(()) => {},
        }
        proof {
            lemma_no_failure(verdicts_of(self.events@));
        }
        match validate_each(&self.events) {
            Err(e) => {
                return Err(e);
            },
            Ok(()) => {},
        }
        proof {
            lemma_no_failure(verdicts_of(self.links@));
        }
        validate_each(&self.links)
    }
}

impl<'a> TraceValidate for SpanEvent<'a> {
    open spec fn verdict(&self) -> Result<(), Error> {
        Ok(())
    }

    fn validate(&self) -> (r: Result<(), Error>)
        ensures
            r == Ok::<(), Error>(()),
    {
        proof {
            lemma_no_failure(crate::validation::common::verdicts_of(self.attributes@));
        }
        crate::validation::common::validate_each(&self.attributes)
    }
}

impl<'a> TraceValidate for SpanLink<'a> {
    open spec fn verdict(&self) -> Result<(), Error> {
        Ok(())
    }

    fn validate(&self) -> (r: Result<(), Error>)
        ensures
            r == Ok::<(), Error>(()),
    {
        proof {
            lemma_no_failure(crate::validation::common::verdicts_of(self.attributes@));
        }
        crate::validation::common::validate_each(&self.attributes)
    }
}

impl<'a> TraceValidate for Status<'a> {
    open spec fn verdict(&self) -> Result<(), Error> {
        Ok(())
    }

    fn validate(&self) -> (r: Result<(), Error>)
        ensures
            r == Ok::<(), Error>(()),
    {
        Ok(())
    }
}

} // verus!
