//! Validation of metric export requests: every schema URL is empty or an absolute
//! URL, and every metric name is of the grammar of names.

use crate::error::Error;
use crate::opentelemetry::metrics::types::{
    Exemplar, ExemplarOneOfvalue, ExponentialHistogram, ExponentialHistogramDataPoint,
    ExponentialHistogramDataPointBuckets, ExportMetricsServiceRequest,
    ExportMetricsServiceRequestView, Gauge, Histogram, HistogramDataPoint, Metric, MetricOneOfdata,
    MetricView, NumberDataPoint, NumberDataPointOneOfvalue, ResourceMetrics, ResourceMetricsView,
    ScopeMetrics, ScopeMetricsView, Sum, Summary, SummaryDataPoint, SummaryDataPointValueAtQuantile,
};

use crate::name::{name_verdict, parse_name};
use crate::schema_url::{check_schema_url, schema_url_verdict};
use crate::text::{text_bytes, text_str};
use crate::validation::common::CommonValidate;
use crate::validation::walk::{
    and_then, first_failure, lemma_failure_at, lemma_no_failure, lemma_single_failure,
};
use vstd::prelude::*;
use vstd::utf8::encode_utf8;

verus! {

/// Validation of a message of the metrics family.
pub trait MetricValidate {
    /// The verdict that `validate` gives.
    spec fn verdict(&self) -> Result<(), Error>;

    /// Walks the message and what it holds, and returns the first fault found.
    fn validate(&self) -> (r: Result<(), Error>)
        ensures
            r == self.verdict(),
    ;
}

/// The verdicts on a list of messages.
pub open spec fn verdicts_of<T: MetricValidate>(items: Seq<T>) -> Seq<Result<(), Error>> {
    Seq::new(items.len(), |i: int| items[i].verdict())
}

/// Validates the items of a list in order, up to the first that is at fault.
pub fn validate_each<T: MetricValidate>(items: &Vec<T>) -> (r: Result<(), Error>)
    ensures
        r == first_failure(verdicts_of(items@)),
{
    let mut i: usize = 0;
    while i < items.len()
        invariant
            i <= items.len(),
            forall|j: int| 0 <= j < i ==> (#[trigger] verdicts_of(items@)[j]) is Ok,
        decreases items.len() - i,
    {
        match items[i].validate() {
            Err(e) => {
                proof {
                    lemma_failure_at(verdicts_of(items@), i as int);
                }
                return Err(e);
            },
            Ok(()) => {},
        }
        i = i + 1;
    }
    proof {
        lemma_no_failure(verdicts_of(items@));
    }
    Ok(())
}

/// The verdict on the name of a metric: it is of the grammar of names.
pub open spec fn metric_name_verdict(name: Seq<char>) -> Result<(), Error> {
    match name_verdict(encode_utf8(name)) {
        Ok(_) => Ok(()),
        Err(e) => Err(Error::Parse(e)),
    }
}

/// Checks the name of a metric, given as its bytes.
pub fn check_metric_name(name: &[u8]) -> (r: Result<(), Error>)
    ensures
        r == match name_verdict(name@) {
            Ok(_) => Ok::<(), Error>(()),
            Err(e) => Err(Error::Parse(e)),
        },
{
    match parse_name(name) {
        Ok(()) => Ok(()),
        Err(e) => Err(Error::Parse(e)),
    }
}

impl ExportMetricsServiceRequestView {
    /// The verdict of the walk: the first fault in the order of the walk, or `Ok`.
    pub open spec fn verdict(self) -> Result<(), Error> {
        first_failure(ResourceMetricsView::verdicts(self.resource_metrics))
    }

    /// Where exactly one item of `resource_metrics` is at fault, and nothing that the walk
    /// visits before the list, the verdict is the fault of that item.
    pub proof fn lemma_single_fault_in_resource_metrics(self, at: int)
        requires
            0 <= at < self.resource_metrics.len(),
            self.resource_metrics[at].verdict() is Err,
            forall|i: int|
                0 <= i < self.resource_metrics.len() && i != at
                    ==> (#[trigger] self.resource_metrics[i]).verdict() is Ok,
        ensures
            self.verdict() == self.resource_metrics[at].verdict(),
    {
        lemma_single_failure(ResourceMetricsView::verdicts(self.resource_metrics), at);
    }
}

impl<'a> MetricValidate for ExportMetricsServiceRequest<'a> {
    open spec fn verdict(&self) -> Result<(), Error> {
        self@.verdict()
    }

    fn validate(&self) -> (r: Result<(), Error>)
        ensures
            r == self@.verdict(),
    {
        proof {
            assert(
                verdicts_of(self.resource_metrics@) =~= ResourceMetricsView::verdicts(
                    self@.resource_metrics,
                )
            );
        }
        validate_each(&self.resource_metrics)
    }
}

impl ResourceMetricsView {
    /// The verdict of the walk: the first fault in the order of the walk, or `Ok`.
    pub open spec fn verdict(self) -> Result<(), Error> {
        and_then(
            first_failure(ScopeMetricsView::verdicts(self.scope_metrics)),
            schema_url_verdict(self.schema_url),
        )
    }

    /// The verdicts on a list of messages.
    pub open spec fn verdicts(items: Seq<ResourceMetricsView>) -> Seq<Result<(), Error>> {
        Seq::new(items.len(), |i: int| items[i].verdict())
    }

    /// Where exactly one item of `scope_metrics` is at fault, and nothing that the walk
    /// visits before the list, the verdict is the fault of that item.
    pub proof fn lemma_single_fault_in_scope_metrics(self, at: int)
        requires
            0 <= at < self.scope_metrics.len(),
            self.scope_metrics[at].verdict() is Err,
            forall|i: int|
                0 <= i < self.scope_metrics.len() && i != at
                    ==> (#[trigger] self.scope_metrics[i]).verdict() is Ok,
        ensures
            self.verdict() == self.scope_metrics[at].verdict(),
    {
        lemma_single_failure(ScopeMetricsView::verdicts(self.scope_metrics), at);
    }

    /// Where `schema_url` breaks its rule, and nothing that the walk visits before it is
    /// at fault, the verdict is the fault of `schema_url`.
    pub proof fn lemma_fault_in_schema_url(self)
        requires
            schema_url_verdict(self.schema_url) is Err,
            first_failure(ScopeMetricsView::verdicts(self.scope_metrics)) is Ok,
        ensures
            self.verdict() == schema_url_verdict(self.schema_url),
    {
    }
}

impl<'a> MetricValidate for ResourceMetrics<'a> {
    open spec fn verdict(&self) -> Result<(), Error> {
        self@.verdict()
    }

    fn validate(&self) -> (r: Result<(), Error>)
        ensures
            r == self@.verdict(),
    {
        match match &self.resource {
            Some(x) => x.validate(),
            None => Ok(()),
        } {
            Err(e) => {
                return Err(e);
            },
            Ok(()) => {},
        }
        proof {
            assert(
                verdicts_of(self.scope_metrics@) =~= ScopeMetricsView::verdicts(self@.scope_metrics)
            );
        }
        match validate_each(&self.scope_metrics) {
            Err(e) => {
                return Err(e);
            },
            Ok(()) => {},
        }
        check_schema_url(text_str(&self.schema_url))
    }
}

impl ScopeMetricsView {
    /// The verdict of the walk: the first fault in the order of the walk, or `Ok`.
    pub open spec fn verdict(self) -> Result<(), Error> {
        and_then(
            first_failure(MetricView::verdicts(self.metrics)),
            schema_url_verdict(self.schema_url),
        )
    }

    /// The verdicts on a list of messages.
    pub open spec fn verdicts(items: Seq<ScopeMetricsView>) -> Seq<Result<(), Error>> {
        Seq::new(items.len(), |i: int| items[i].verdict())
    }

    /// Where exactly one item of `metrics` is at fault, and nothing that the walk
    /// visits before the list, the verdict is the fault of that item.
    pub proof fn lemma_single_fault_in_metrics(self, at: int)
        requires
            0 <= at < self.metrics.len(),
            self.metrics[at].verdict() is Err,
            forall|i: int|
                0 <= i < self.metrics.len() && i != at
                    ==> (#[trigger] self.metrics[i]).verdict() is Ok,
        ensures
            self.verdict() == self.metrics[at].verdict(),
    {
        lemma_single_failure(MetricView::verdicts(self.metrics), at);
    }

    /// Where `schema_url` breaks its rule, and nothing that the walk visits before it is
    /// at fault, the verdict is the fault of `schema_url`.
    pub proof fn lemma_fault_in_schema_url(self)
        requires
            schema_url_verdict(self.schema_url) is Err,
            first_failure(MetricView::verdicts(self.metrics)) is Ok,
        ensures
            self.verdict() == schema_url_verdict(self.schema_url),
    {
    }
}

impl<'a> MetricValidate for ScopeMetrics<'a> {
    open spec fn verdict(&self) -> Result<(), Error> {
        self@.verdict()
    }

    fn validate(&self) -> (r: Result<(), Error>)
        ensures
            r == self@.verdict(),
    {
        match match &self.scope {
            Some(x) => x.validate(),
            None => Ok(()),
        } {
            Err(e) => {
                return Err(e);
            },
            Ok(()) => {},
        }
        proof {
            assert(verdicts_of(self.metrics@) =~= MetricView::verdicts(self@.metrics));
        }
        match validate_each(&self.metrics) {
            Err(e) => {
                return Err(e);
            },
            Ok(()) => {},
        }
        check_schema_url(text_str(&self.schema_url))
    }
}

impl MetricView {
    /// The verdict of the walk: the first fault in the order of the walk, or `Ok`.
    pub open spec fn verdict(self) -> Result<(), Error> {
        metric_name_verdict(self.name)
    }

    /// The verdicts on a list of messages.
    pub open spec fn verdicts(items: Seq<MetricView>) -> Seq<Result<(), Error>> {
        Seq::new(items.len(), |i: int| items[i].verdict())
    }

    /// Where `name` breaks its rule, and nothing that the walk visits before it is
    /// at fault, the verdict is the fault of `name`.
    pub proof fn lemma_fault_in_name(self)
        requires
            metric_name_verdict(self.name) is Err,
        ensures
            self.verdict() == metric_name_verdict(self.name),
    {
    }
}

impl<'a> MetricValidate for Metric<'a> {
    open spec fn verdict(&self) -> Result<(), Error> {
        self@.verdict()
    }

    fn validate(&self) -> (r: Result<(), Error>)
        ensures
            r == self@.verdict(),
    {
        match check_metric_name(text_bytes(&self.name)) {
            Err(e) => {
                return Err(e);
            },
            Ok(()) => {},
        }
        self.data.validate()
    }
}

impl<'a> MetricValidate for MetricOneOfdata<'a> {
    open spec fn verdict(&self) -> Result<(), Error> {
        Ok(())
    }

    fn validate(&self) -> (r: Result<(), Error>)
        ensures
            r == Ok::<(), Error>(()),
    {
        match self {
            MetricOneOfdata::gauge(x) => x.validate(),
            MetricOneOfdata::sum(x) => x.validate(),
            MetricOneOfdata::histogram(x) => x.validate(),
            MetricOneOfdata::exponential_histogram(x) => x.validate(),
            MetricOneOfdata::summary(x) => x.validate(),
            MetricOneOfdata::Unset => Ok(()),
        }
    }
}

impl<'a> MetricValidate for Gauge<'a> {
    open spec fn verdict(&self) -> Result<(), Error> {
        Ok(())
    }

    fn validate(&self) -> (r: Result<(), Error>)
        ensures
            r == Ok::<(), Error>(()),
    {
        proof {
            lemma_no_failure(verdicts_of(self.data_points@));
        }
        validate_each(&self.data_points)
    }
}

impl<'a> MetricValidate for Sum<'a> {
    open spec fn verdict(&self) -> Result<(), Error> {
        Ok(())
    }

    fn validate(&self) -> (r: Result<(), Error>)
        ensures
            r == Ok::<(), Error>(()),
    {
        proof {
            lemma_no_failure(verdicts_of(self.data_points@));
        }
        validate_each(&self.data_points)
    }
}

impl<'a> MetricValidate for Histogram<'a> {
    open spec fn verdict(&self) -> Result<(), Error> {
        Ok(())
    }

    fn validate(&self) -> (r: Result<(), Error>)
        ensures
            r == Ok::<(), Error>(()),
    {
        proof {
            lemma_no_failure(verdicts_of(self.data_points@));
        }
        validate_each(&self.data_points)
    }
}

impl<'a> MetricValidate for ExponentialHistogram<'a> {
    open spec fn verdict(&self) -> Result<(), Error> {
        Ok(())
    }

    fn validate(&self) -> (r: Result<(), Error>)
        ensures
            r == Ok::<(), Error>(()),
    {
        proof {
            lemma_no_failure(verdicts_of(self.data_points@));
        }
        validate_each(&self.data_points)
    }
}

impl<'a> MetricValidate for Summary<'a> {
    open spec fn verdict(&self) -> Result<(), Error> {
        Ok(())
    }

    fn validate(&self) -> (r: Result<(), Error>)
        ensures
            r == Ok::<(), Error>(()),
    {
        proof {
            lemma_no_failure(verdicts_of(self.data_points@));
        }
        validate_each(&self.data_points)
    }
}

impl<'a> MetricValidate for NumberDataPoint<'a> {
    open spec fn verdict(&self) -> Result<(), Error> {
        Ok(())
    }

    fn validate(&self) -> (r: Result<(), Error>)
        ensures
            r == Ok::<(), Error>(()),
    {
        proof {
            lemma_no_failure(crate::validation::common::verdicts_of(self.attributes@));
        }
        match crate::validation::common::validate_each(&self.attributes) {
            Err(e) => {
                return Err(e);
            },
            Ok(()) => {},
        }
        proof {
            lemma_no_failure(verdicts_of(self.exemplars@));
        }
        match validate_each(&self.exemplars) {
            Err(e) => {
                return Err(e);
            },
            Ok(()) => {},
        }
        self.value.validate()
    }
}

impl<'a> MetricValidate for HistogramDataPoint<'a> {
    open spec fn verdict(&self) -> Result<(), Error> {
        Ok(())
    }

    fn validate(&self) -> (r: Result<(), Error>)
        ensures
            r == Ok::<(), Error>(()),
    {
        proof {
            lemma_no_failure(crate::validation::common::verdicts_of(self.attributes@));
        }
        match crate::validation::common::validate_each(&self.attributes) {
            Err(e) => {
                return Err(e);
            },
            Ok(()) => {},
        }
        proof {
            lemma_no_failure(verdicts_of(self.exemplars@));
        }
        validate_each(&self.exemplars)
    }
}

impl<'a> MetricValidate for ExponentialHistogramDataPoint<'a> {
    open spec fn verdict(&self) -> Result<(), Error> {
        Ok(())
    }

    fn validate(&self) -> (r: Result<(), Error>)
        ensures
            r == Ok::<(), Error>(()),
    {
        proof {
            lemma_no_failure(crate::validation::common::verdicts_of(self.attributes@));
        }
        match crate::validation::common::validate_each(&self.attributes) {
            Err(e) => {
                return Err(e);
            },
            Ok(()) => {},
        }
        proof {
            lemma_no_failure(verdicts_of(self.exemplars@));
        }
        match validate_each(&self.exemplars) {
            Err(e) => {
                return Err(e);
            },
            Ok(()) => {},
        }
        match match &self.positive {
            Some(x) => x.validate(),
            None => Ok(()),
        } {
            Err(e) => {
                return Err(e);
            },
            Ok(()) => {},
        }
        match &self.negative {
            Some(x) => x.validate(),
            None => Ok(()),
        }
    }
}

impl<'a> MetricValidate for SummaryDataPoint<'a> {
    open spec fn verdict(&self) -> Result<(), Error> {
        Ok(())
    }

    fn validate(&self) -> (r: Result<(), Error>)
        ensures
            r == Ok::<(), Error>(()),
    {
        proof {
            lemma_no_failure(crate::validation::common::verdicts_of(self.attributes@));
        }
        match crate::validation::common::validate_each(&self.attributes) {
            Err(e) => {
                return Err(e);
            },
            Ok(()) => {},
        }
        proof {
            lemma_no_failure(verdicts_of(self.quantile_values@));
        }
        validate_each(&self.quantile_values)
    }
}

impl MetricValidate for ExponentialHistogramDataPointBuckets {
    open spec fn verdict(&self) -> Result<(), Error> {
        Ok(())
    }

    fn validate(&self) -> (r: Result<(), Error>)
        ensures
            r == Ok::<(), Error>(()),
    {
        Ok(())
    }
}

impl MetricValidate for SummaryDataPointValueAtQuantile {
    open spec fn verdict(&self) -> Result<(), Error> {
        Ok(())
    }

    fn validate(&self) -> (r: Result<(), Error>)
        ensures
            r == Ok::<(), Error>(()),
    {
        Ok(())
    }
}

impl<'a> MetricValidate for Exemplar<'a> {
    open spec fn verdict(&self) -> Result<(), Error> {
        Ok(())
    }

    fn validate(&self) -> (r: Result<(), Error>)
        ensures
            r == Ok::<(), Error>(()),
    {
        proof {
            lemma_no_failure(crate::validation::common::verdicts_of(self.filtered_attributes@));
        }
        match crate::validation::common::validate_each(&self.filtered_attributes) {
            Err(e) => {
                return Err(e);
            },
            Ok(()) => {},
        }
        self.value.validate()
    }
}

impl MetricValidate for NumberDataPointOneOfvalue {
    open spec fn verdict(&self) -> Result<(), Error> {
        Ok(())
    }

    fn validate(&self) -> (r: Result<(), Error>)
        ensures
            r == Ok::<(), Error>(()),
    {
        Ok(())
    }
}

impl MetricValidate for ExemplarOneOfvalue {
    open spec fn verdict(&self) -> Result<(), Error> {
        Ok(())
    }

    fn validate(&self) -> (r: Result<(), Error>)
        ensures
            r == Ok::<(), Error>(()),
    {
        Ok(())
    }
}

} // verus!
