//! Copies of messages. A copy stands for the message that it was made from; what
//! the message borrows, the copy borrows too.

use crate::opentelemetry::common::types::{InstrumentationScope, KeyValue, Resource};
use crate::opentelemetry::metrics::types::{
    Exemplar, ExemplarOneOfvalue, ExponentialHistogram, ExponentialHistogramDataPoint,
    ExponentialHistogramDataPointBuckets, ExportMetricsServiceRequest, Gauge, Histogram,
    HistogramDataPoint, Metric, MetricOneOfdata, NumberDataPoint, NumberDataPointOneOfvalue,
    ResourceMetrics, ScopeMetrics, Sum, Summary, SummaryDataPoint, SummaryDataPointValueAtQuantile,
};
use crate::text::{copy_of_run, copy_of_text};
use vstd::prelude::*;
use vstd::slice::slice_to_vec;

verus! {

impl ExemplarOneOfvalue {
    /// A copy of the value.
    pub(crate) fn duplicate(&self) -> (r: ExemplarOneOfvalue)
        ensures
            r@ == self@,
    {
        match self {
            ExemplarOneOfvalue::as_double(x) => ExemplarOneOfvalue::as_double(*x),
            ExemplarOneOfvalue::as_int(x) => ExemplarOneOfvalue::as_int(*x),
            ExemplarOneOfvalue::Unset => ExemplarOneOfvalue::Unset,
        }
    }
}

impl Clone for ExemplarOneOfvalue {
    fn clone(&self) -> (r: Self)
        ensures
            r@ == self@,
    {
        self.duplicate()
    }
}

impl<'a> Exemplar<'a> {
    /// A copy of the message.
    pub(crate) fn duplicate(&self) -> (r: Exemplar<'a>)
        ensures
            r@ == self@,
    {
        Exemplar {
            filtered_attributes: KeyValue::duplicate_list(&self.filtered_attributes),
            time_unix_nano: self.time_unix_nano,
            span_id: copy_of_run(&self.span_id),
            trace_id: copy_of_run(&self.trace_id),
            value: self.value.duplicate(),
        }
    }

    /// Copies of the messages of a list, in order.
    pub(crate) fn duplicate_list(items: &Vec<Exemplar<'a>>) -> (r: Vec<Exemplar<'a>>)
        ensures
            Exemplar::views(r@) == Exemplar::views(items@),
    {
        let mut out: Vec<Exemplar<'a>> = Vec::new();
        let mut i: usize = 0;
        while i < items.len()
            invariant
                i <= items.len(),
                out.len() == i,
                forall|j: int| 0 <= j < i ==> out@[j]@ == items@[j]@,
            decreases items.len() - i,
        {
            let item = items[i].duplicate();
            out.push(item);
            i = i + 1;
        }
        assert(Exemplar::views(out@) =~= Exemplar::views(items@));
        out
    }
}

impl<'a> Clone for Exemplar<'a> {
    fn clone(&self) -> (r: Self)
        ensures
            r@ == self@,
    {
        self.duplicate()
    }
}

impl NumberDataPointOneOfvalue {
    /// A copy of the value.
    pub(crate) fn duplicate(&self) -> (r: NumberDataPointOneOfvalue)
        ensures
            r@ == self@,
    {
        match self {
            NumberDataPointOneOfvalue::as_double(x) => NumberDataPointOneOfvalue::as_double(*x),
            NumberDataPointOneOfvalue::as_int(x) => NumberDataPointOneOfvalue::as_int(*x),
            NumberDataPointOneOfvalue::Unset => NumberDataPointOneOfvalue::Unset,
        }
    }
}

impl Clone for NumberDataPointOneOfvalue {
    fn clone(&self) -> (r: Self)
        ensures
            r@ == self@,
    {
        self.duplicate()
    }
}

impl<'a> NumberDataPoint<'a> {
    /// A copy of the message.
    pub(crate) fn duplicate(&self) -> (r: NumberDataPoint<'a>)
        ensures
            r@ == self@,
    {
        NumberDataPoint {
            attributes: KeyValue::duplicate_list(&self.attributes),
            start_time_unix_nano: self.start_time_unix_nano,
            time_unix_nano: self.time_unix_nano,
            exemplars: Exemplar::duplicate_list(&self.exemplars),
            flags: self.flags,
            value: self.value.duplicate(),
        }
    }

    /// Copies of the messages of a list, in order.
    pub(crate) fn duplicate_list(items: &Vec<NumberDataPoint<'a>>) -> (r: Vec<NumberDataPoint<'a>>)
        ensures
            NumberDataPoint::views(r@) == NumberDataPoint::views(items@),
    {
        let mut out: Vec<NumberDataPoint<'a>> = Vec::new();
        let mut i: usize = 0;
        while i < items.len()
            invariant
                i <= items.len(),
                out.len() == i,
                forall|j: int| 0 <= j < i ==> out@[j]@ == items@[j]@,
            decreases items.len() - i,
        {
            let item = items[i].duplicate();
            out.push(item);
            i = i + 1;
        }
        assert(NumberDataPoint::views(out@) =~= NumberDataPoint::views(items@));
        out
    }
}

impl<'a> Clone for NumberDataPoint<'a> {
    fn clone(&self) -> (r: Self)
        ensures
            r@ == self@,
    {
        self.duplicate()
    }
}

impl<'a> HistogramDataPoint<'a> {
    /// A copy of the message.
    pub(crate) fn duplicate(&self) -> (r: HistogramDataPoint<'a>)
        ensures
            r@ == self@,
    {
        HistogramDataPoint {
            attributes: KeyValue::duplicate_list(&self.attributes),
            start_time_unix_nano: self.start_time_unix_nano,
            time_unix_nano: self.time_unix_nano,
            count: self.count,
            sum: self.sum,
            bucket_counts: slice_to_vec(self.bucket_counts.as_slice()),
            explicit_bounds: slice_to_vec(self.explicit_bounds.as_slice()),
            exemplars: Exemplar::duplicate_list(&self.exemplars),
            flags: self.flags,
            min: self.min,
            max: self.max,
        }
    }

    /// Copies of the messages of a list, in order.
    pub(crate) fn duplicate_list(items: &Vec<HistogramDataPoint<'a>>) -> (
        r: Vec<HistogramDataPoint<'a>>
    )
        ensures
            HistogramDataPoint::views(r@) == HistogramDataPoint::views(items@),
    {
        let mut out: Vec<HistogramDataPoint<'a>> = Vec::new();
        let mut i: usize = 0;
        while i < items.len()
            invariant
                i <= items.len(),
                out.len() == i,
                forall|j: int| 0 <= j < i ==> out@[j]@ == items@[j]@,
            decreases items.len() - i,
        {
            let item = items[i].duplicate();
            out.push(item);
            i = i + 1;
        }
        assert(HistogramDataPoint::views(out@) =~= HistogramDataPoint::views(items@));
        out
    }
}

impl<'a> Clone for HistogramDataPoint<'a> {
    fn clone(&self) -> (r: Self)
        ensures
            r@ == self@,
    {
        self.duplicate()
    }
}

impl ExponentialHistogramDataPointBuckets {
    /// A copy of the message.
    pub(crate) fn duplicate(&self) -> (r: ExponentialHistogramDataPointBuckets)
        ensures
            r@ == self@,
    {
        ExponentialHistogramDataPointBuckets {
            offset: self.offset,
            bucket_counts: slice_to_vec(self.bucket_counts.as_slice()),
        }
    }

    /// A copy of an optional message.
    pub(crate) fn duplicate_option(item: &Option<ExponentialHistogramDataPointBuckets>) -> (
        r: Option<ExponentialHistogramDataPointBuckets>
    )
        ensures
            ExponentialHistogramDataPointBuckets::view_of(r)
                == ExponentialHistogramDataPointBuckets::view_of(*item),
    {
        match item {
            Some(x) => Some(x.duplicate()),
            None => None,
        }
    }
}

impl Clone for ExponentialHistogramDataPointBuckets {
    fn clone(&self) -> (r: Self)
        ensures
            r@ == self@,
    {
        self.duplicate()
    }
}

impl<'a> ExponentialHistogramDataPoint<'a> {
    /// A copy of the message.
    pub(crate) fn duplicate(&self) -> (r: ExponentialHistogramDataPoint<'a>)
        ensures
            r@ == self@,
    {
        ExponentialHistogramDataPoint {
            attributes: KeyValue::duplicate_list(&self.attributes),
            start_time_unix_nano: self.start_time_unix_nano,
            time_unix_nano: self.time_unix_nano,
            count: self.count,
            sum: self.sum,
            scale: self.scale,
            zero_count: self.zero_count,
            positive: ExponentialHistogramDataPointBuckets::duplicate_option(&self.positive),
            negative: ExponentialHistogramDataPointBuckets::duplicate_option(&self.negative),
            flags: self.flags,
            exemplars: Exemplar::duplicate_list(&self.exemplars),
            min: self.min,
            max: self.max,
            zero_threshold: self.zero_threshold,
        }
    }

    /// Copies of the messages of a list, in order.
    pub(crate) fn duplicate_list(items: &Vec<ExponentialHistogramDataPoint<'a>>) -> (
        r: Vec<ExponentialHistogramDataPoint<'a>>
    )
        ensures
            ExponentialHistogramDataPoint::views(r@) == ExponentialHistogramDataPoint::views(
                items@,
            ),
    {
        let mut out: Vec<ExponentialHistogramDataPoint<'a>> = Vec::new();
        let mut i: usize = 0;
        while i < items.len()
            invariant
                i <= items.len(),
                out.len() == i,
                forall|j: int| 0 <= j < i ==> out@[j]@ == items@[j]@,
            decreases items.len() - i,
        {
            let item = items[i].duplicate();
            out.push(item);
            i = i + 1;
        }
        assert(
            ExponentialHistogramDataPoint::views(out@) =~= ExponentialHistogramDataPoint::views(
                items@,
            )
        );
        out
    }
}

impl<'a> Clone for ExponentialHistogramDataPoint<'a> {
    fn clone(&self) -> (r: Self)
        ensures
            r@ == self@,
    {
        self.duplicate()
    }
}

impl SummaryDataPointValueAtQuantile {
    /// A copy of the message.
    pub(crate) fn duplicate(&self) -> (r: SummaryDataPointValueAtQuantile)
        ensures
            r@ == self@,
    {
        SummaryDataPointValueAtQuantile {
            quantile: self.quantile,
            value: self.value,
        }
    }

    /// Copies of the messages of a list, in order.
    pub(crate) fn duplicate_list(items: &Vec<SummaryDataPointValueAtQuantile>) -> (
        r: Vec<SummaryDataPointValueAtQuantile>
    )
        ensures
            SummaryDataPointValueAtQuantile::views(r@) == SummaryDataPointValueAtQuantile::views(
                items@,
            ),
    {
        let mut out: Vec<SummaryDataPointValueAtQuantile> = Vec::new();
        let mut i: usize = 0;
        while i < items.len()
            invariant
                i <= items.len(),
                out.len() == i,
                forall|j: int| 0 <= j < i ==> out@[j]@ == items@[j]@,
            decreases items.len() - i,
        {
            let item = items[i].duplicate();
            out.push(item);
            i = i + 1;
        }
        assert(
            SummaryDataPointValueAtQuantile::views(out@) =~= SummaryDataPointValueAtQuantile::views(
                items@,
            )
        );
        out
    }
}

impl Clone for SummaryDataPointValueAtQuantile {
    fn clone(&self) -> (r: Self)
        ensures
            r@ == self@,
    {
        self.duplicate()
    }
}

impl<'a> SummaryDataPoint<'a> {
    /// A copy of the message.
    pub(crate) fn duplicate(&self) -> (r: SummaryDataPoint<'a>)
        ensures
            r@ == self@,
    {
        SummaryDataPoint {
            attributes: KeyValue::duplicate_list(&self.attributes),
            start_time_unix_nano: self.start_time_unix_nano,
            time_unix_nano: self.time_unix_nano,
            count: self.count,
            sum: self.sum,
            quantile_values: SummaryDataPointValueAtQuantile::duplicate_list(&self.quantile_values),
            flags: self.flags,
        }
    }

    /// Copies of the messages of a list, in order.
    pub(crate) fn duplicate_list(items: &Vec<SummaryDataPoint<'a>>) -> (
        r: Vec<SummaryDataPoint<'a>>
    )
        ensures
            SummaryDataPoint::views(r@) == SummaryDataPoint::views(items@),
    {
        let mut out: Vec<SummaryDataPoint<'a>> = Vec::new();
        let mut i: usize = 0;
        while i < items.len()
            invariant
                i <= items.len(),
                out.len() == i,
                forall|j: int| 0 <= j < i ==> out@[j]@ == items@[j]@,
            decreases items.len() - i,
        {
            let item = items[i].duplicate();
            out.push(item);
            i = i + 1;
        }
        assert(SummaryDataPoint::views(out@) =~= SummaryDataPoint::views(items@));
        out
    }
}

impl<'a> Clone for SummaryDataPoint<'a> {
    fn clone(&self) -> (r: Self)
        ensures
            r@ == self@,
    {
        self.duplicate()
    }
}

impl<'a> Gauge<'a> {
    /// A copy of the message.
    pub(crate) fn duplicate(&self) -> (r: Gauge<'a>)
        ensures
            r@ == self@,
    {
        Gauge {
            data_points: NumberDataPoint::duplicate_list(&self.data_points),
        }
    }
}

impl<'a> Clone for Gauge<'a> {
    fn clone(&self) -> (r: Self)
        ensures
            r@ == self@,
    {
        self.duplicate()
    }
}

impl<'a> Sum<'a> {
    /// A copy of the message.
    pub(crate) fn duplicate(&self) -> (r: Sum<'a>)
        ensures
            r@ == self@,
    {
        Sum {
            data_points: NumberDataPoint::duplicate_list(&self.data_points),
            aggregation_temporality: self.aggregation_temporality,
            is_monotonic: self.is_monotonic,
        }
    }
}

impl<'a> Clone for Sum<'a> {
    fn clone(&self) -> (r: Self)
        ensures
            r@ == self@,
    {
        self.duplicate()
    }
}

impl<'a> Histogram<'a> {
    /// A copy of the message.
    pub(crate) fn duplicate(&self) -> (r: Histogram<'a>)
        ensures
            r@ == self@,
    {
        Histogram {
            data_points: HistogramDataPoint::duplicate_list(&self.data_points),
            aggregation_temporality: self.aggregation_temporality,
        }
    }
}

impl<'a> Clone for Histogram<'a> {
    fn clone(&self) -> (r: Self)
        ensures
            r@ == self@,
    {
        self.duplicate()
    }
}

impl<'a> ExponentialHistogram<'a> {
    /// A copy of the message.
    pub(crate) fn duplicate(&self) -> (r: ExponentialHistogram<'a>)
        ensures
            r@ == self@,
    {
        ExponentialHistogram {
            data_points: ExponentialHistogramDataPoint::duplicate_list(&self.data_points),
            aggregation_temporality: self.aggregation_temporality,
        }
    }
}

impl<'a> Clone for ExponentialHistogram<'a> {
    fn clone(&self) -> (r: Self)
        ensures
            r@ == self@,
    {
        self.duplicate()
    }
}

impl<'a> Summary<'a> {
    /// A copy of the message.
    pub(crate) fn duplicate(&self) -> (r: Summary<'a>)
        ensures
            r@ == self@,
    {
        Summary {
            data_points: SummaryDataPoint::duplicate_list(&self.data_points),
        }
    }
}

impl<'a> Clone for Summary<'a> {
    fn clone(&self) -> (r: Self)
        ensures
            r@ == self@,
    {
        self.duplicate()
    }
}

impl<'a> MetricOneOfdata<'a> {
    /// A copy of the value.
    pub(crate) fn duplicate(&self) -> (r: MetricOneOfdata<'a>)
        ensures
            r@ == self@,
    {
        match self {
            MetricOneOfdata::gauge(x) => MetricOneOfdata::gauge(x.duplicate()),
            MetricOneOfdata::sum(x) => MetricOneOfdata::sum(x.duplicate()),
            MetricOneOfdata::histogram(x) => MetricOneOfdata::histogram(x.duplicate()),
            MetricOneOfdata::exponential_histogram(x) => MetricOneOfdata::exponential_histogram(
                x.duplicate(),
            ),
            MetricOneOfdata::summary(x) => MetricOneOfdata::summary(x.duplicate()),
            MetricOneOfdata::Unset => MetricOneOfdata::Unset,
        }
    }
}

impl<'a> Clone for MetricOneOfdata<'a> {
    fn clone(&self) -> (r: Self)
        ensures
            r@ == self@,
    {
        self.duplicate()
    }
}

impl<'a> Metric<'a> {
    /// A copy of the message.
    pub(crate) fn duplicate(&self) -> (r: Metric<'a>)
        ensures
            r@ == self@,
    {
        Metric {
            name: copy_of_text(&self.name),
            description: copy_of_text(&self.description),
            unit: copy_of_text(&self.unit),
            data: self.data.duplicate(),
        }
    }

    /// Copies of the messages of a list, in order.
    pub(crate) fn duplicate_list(items: &Vec<Metric<'a>>) -> (r: Vec<Metric<'a>>)
        ensures
            Metric::views(r@) == Metric::views(items@),
    {
        let mut out: Vec<Metric<'a>> = Vec::new();
        let mut i: usize = 0;
        while i < items.len()
            invariant
                i <= items.len(),
                out.len() == i,
                forall|j: int| 0 <= j < i ==> out@[j]@ == items@[j]@,
            decreases items.len() - i,
        {
            let item = items[i].duplicate();
            out.push(item);
            i = i + 1;
        }
        assert(Metric::views(out@) =~= Metric::views(items@));
        out
    }
}

impl<'a> Clone for Metric<'a> {
    fn clone(&self) -> (r: Self)
        ensures
            r@ == self@,
    {
        self.duplicate()
    }
}

impl<'a> ScopeMetrics<'a> {
    /// A copy of the message.
    pub(crate) fn duplicate(&self) -> (r: ScopeMetrics<'a>)
        ensures
            r@ == self@,
    {
        ScopeMetrics {
            scope: InstrumentationScope::duplicate_option(&self.scope),
            metrics: Metric::duplicate_list(&self.metrics),
            schema_url: copy_of_text(&self.schema_url),
        }
    }

    /// Copies of the messages of a list, in order.
    pub(crate) fn duplicate_list(items: &Vec<ScopeMetrics<'a>>) -> (r: Vec<ScopeMetrics<'a>>)
        ensures
            ScopeMetrics::views(r@) == ScopeMetrics::views(items@),
    {
        let mut out: Vec<ScopeMetrics<'a>> = Vec::new();
        let mut i: usize = 0;
        while i < items.len()
            invariant
                i <= items.len(),
                out.len() == i,
                forall|j: int| 0 <= j < i ==> out@[j]@ == items@[j]@,
            decreases items.len() - i,
        {
            let item = items[i].duplicate();
            out.push(item);
            i = i + 1;
        }
        assert(ScopeMetrics::views(out@) =~= ScopeMetrics::views(items@));
        out
    }
}

impl<'a> Clone for ScopeMetrics<'a> {
    fn clone(&self) -> (r: Self)
        ensures
            r@ == self@,
    {
        self.duplicate()
    }
}

impl<'a> ResourceMetrics<'a> {
    /// A copy of the message.
    pub(crate) fn duplicate(&self) -> (r: ResourceMetrics<'a>)
        ensures
            r@ == self@,
    {
        ResourceMetrics {
            resource: Resource::duplicate_option(&self.resource),
            scope_metrics: ScopeMetrics::duplicate_list(&self.scope_metrics),
            schema_url: copy_of_text(&self.schema_url),
        }
    }

    /// Copies of the messages of a list, in order.
    pub(crate) fn duplicate_list(items: &Vec<ResourceMetrics<'a>>) -> (r: Vec<ResourceMetrics<'a>>)
        ensures
            ResourceMetrics::views(r@) == ResourceMetrics::views(items@),
    {
        let mut out: Vec<ResourceMetrics<'a>> = Vec::new();
        let mut i: usize = 0;
        while i < items.len()
            invariant
                i <= items.len(),
                out.len() == i,
                forall|j: int| 0 <= j < i ==> out@[j]@ == items@[j]@,
            decreases items.len() - i,
        {
            let item = items[i].duplicate();
            out.push(item);
            i = i + 1;
        }
        assert(ResourceMetrics::views(out@) =~= ResourceMetrics::views(items@));
        out
    }
}

impl<'a> Clone for ResourceMetrics<'a> {
    fn clone(&self) -> (r: Self)
        ensures
            r@ == self@,
    {
        self.duplicate()
    }
}

impl<'a> ExportMetricsServiceRequest<'a> {
    /// A copy of the message.
    pub(crate) fn duplicate(&self) -> (r: ExportMetricsServiceRequest<'a>)
        ensures
            r@ == self@,
    {
        ExportMetricsServiceRequest {
            resource_metrics: ResourceMetrics::duplicate_list(&self.resource_metrics),
        }
    }
}

impl<'a> Clone for ExportMetricsServiceRequest<'a> {
    fn clone(&self) -> (r: Self)
        ensures
            r@ == self@,
    {
        self.duplicate()
    }
}

} // verus!
