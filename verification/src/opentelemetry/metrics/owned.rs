//! Copies that own what they hold. A decoded message borrows its text and its byte
//! strings from the input; its owned copy does not, and stands for the same message.

use crate::opentelemetry::common::types::{InstrumentationScope, KeyValue, Resource};
use crate::opentelemetry::metrics::types::{
    Exemplar, ExemplarOneOfvalue, ExponentialHistogram, ExponentialHistogramDataPoint,
    ExponentialHistogramDataPointBuckets, ExportMetricsServiceRequest, Gauge, Histogram,
    HistogramDataPoint, Metric, MetricOneOfdata, NumberDataPoint, NumberDataPointOneOfvalue,
    ResourceMetrics, ScopeMetrics, Sum, Summary, SummaryDataPoint, SummaryDataPointValueAtQuantile,
};
use crate::text::{run_bytes, text_str};
use std::borrow::Cow;
use vstd::prelude::*;
use vstd::slice::slice_to_vec;

verus! {

impl ExemplarOneOfvalue {
    /// A copy that owns its text and bytes.
    pub fn owned(&self) -> (r: ExemplarOneOfvalue)
        ensures
            r@ == self@,
    {
        match self {
            ExemplarOneOfvalue::as_double(x) => ExemplarOneOfvalue::as_double(*x),
            ExemplarOneOfvalue::as_int(x) => ExemplarOneOfvalue::as_int(*x),
            ExemplarOneOfvalue::Unset => ExemplarOneOfvalue::Unset,
        }
    }
}

impl<'a> Exemplar<'a> {
    /// A copy that owns its text and bytes, and so outlives the bytes that the message
    /// was decoded from.
    pub fn owned(&self) -> (r: Exemplar<'static>)
        ensures
            r@ == self@,
    {
        Exemplar {
            filtered_attributes: KeyValue::owned_list(&self.filtered_attributes),
            time_unix_nano: self.time_unix_nano,
            span_id: Cow::Owned(slice_to_vec(run_bytes(&self.span_id))),
            trace_id: Cow::Owned(slice_to_vec(run_bytes(&self.trace_id))),
            value: self.value.owned(),
        }
    }

    /// Owned copies of the messages of a list, in order.
    pub fn owned_list(items: &Vec<Exemplar<'a>>) -> (r: Vec<Exemplar<'static>>)
        ensures
            Exemplar::views(r@) == Exemplar::views(items@),
    {
        let mut out: Vec<Exemplar<'static>> = Vec::new();
        let mut i: usize = 0;
        while i < items.len()
            invariant
                i <= items.len(),
                out.len() == i,
                forall|j: int| 0 <= j < i ==> out@[j]@ == items@[j]@,
            decreases items.len() - i,
        {
            let item = items[i].owned();
            out.push(item);
            i = i + 1;
        }
        assert(Exemplar::views(out@) =~= Exemplar::views(items@));
        out
    }
}

impl NumberDataPointOneOfvalue {
    /// A copy that owns its text and bytes.
    pub fn owned(&self) -> (r: NumberDataPointOneOfvalue)
        ensures
            r@ == self@,
    {
        match self {
            NumberDataPointOneOfvalue::as_double(x) => NumberDataPointOneOfvalue::as_double(*x),
            NumberDataPointOneOfvalue::as_int(x) => NumberDataPointOneOfvalue::as_int(*x),
            NumberDataPointOneOfvalue::Unset => NumberDataPointOneOfvalue::Unset,
        }
    }
}

impl<'a> NumberDataPoint<'a> {
    /// A copy that owns its text and bytes, and so outlives the bytes that the message
    /// was decoded from.
    pub fn owned(&self) -> (r: NumberDataPoint<'static>)
        ensures
            r@ == self@,
    {
        NumberDataPoint {
            attributes: KeyValue::owned_list(&self.attributes),
            start_time_unix_nano: self.start_time_unix_nano,
            time_unix_nano: self.time_unix_nano,
            exemplars: Exemplar::owned_list(&self.exemplars),
            flags: self.flags,
            value: self.value.owned(),
        }
    }

    /// Owned copies of the messages of a list, in order.
    pub fn owned_list(items: &Vec<NumberDataPoint<'a>>) -> (r: Vec<NumberDataPoint<'static>>)
        ensures
            NumberDataPoint::views(r@) == NumberDataPoint::views(items@),
    {
        let mut out: Vec<NumberDataPoint<'static>> = Vec::new();
        let mut i: usize = 0;
        while i < items.len()
            invariant
                i <= items.len(),
                out.len() == i,
                forall|j: int| 0 <= j < i ==> out@[j]@ == items@[j]@,
            decreases items.len() - i,
        {
            let item = items[i].owned();
            out.push(item);
            i = i + 1;
        }
        assert(NumberDataPoint::views(out@) =~= NumberDataPoint::views(items@));
        out
    }
}

impl<'a> HistogramDataPoint<'a> {
    /// A copy that owns its text and bytes, and so outlives the bytes that the message
    /// was decoded from.
    pub fn owned(&self) -> (r: HistogramDataPoint<'static>)
        ensures
            r@ == self@,
    {
        HistogramDataPoint {
            attributes: KeyValue::owned_list(&self.attributes),
            start_time_unix_nano: self.start_time_unix_nano,
            time_unix_nano: self.time_unix_nano,
            count: self.count,
            sum: self.sum,
            bucket_counts: slice_to_vec(self.bucket_counts.as_slice()),
            explicit_bounds: slice_to_vec(self.explicit_bounds.as_slice()),
            exemplars: Exemplar::owned_list(&self.exemplars),
            flags: self.flags,
            min: self.min,
            max: self.max,
        }
    }

    /// Owned copies of the messages of a list, in order.
    pub fn owned_list(items: &Vec<HistogramDataPoint<'a>>) -> (r: Vec<HistogramDataPoint<'static>>)
        ensures
            HistogramDataPoint::views(r@) == HistogramDataPoint::views(items@),
    {
        let mut out: Vec<HistogramDataPoint<'static>> = Vec::new();
        let mut i: usize = 0;
        while i < items.len()
            invariant
                i <= items.len(),
                out.len() == i,
                forall|j: int| 0 <= j < i ==> out@[j]@ == items@[j]@,
            decreases items.len() - i,
        {
            let item = items[i].owned();
            out.push(item);
            i = i + 1;
        }
        assert(HistogramDataPoint::views(out@) =~= HistogramDataPoint::views(items@));
        out
    }
}

impl ExponentialHistogramDataPointBuckets {
    /// A copy of the message.
    pub fn owned(&self) -> (r: ExponentialHistogramDataPointBuckets)
        ensures
            r@ == self@,
    {
        ExponentialHistogramDataPointBuckets {
            offset: self.offset,
            bucket_counts: slice_to_vec(self.bucket_counts.as_slice()),
        }
    }

    /// An owned copy of an optional message.
    pub fn owned_option(item: &Option<ExponentialHistogramDataPointBuckets>) -> (
        r: Option<ExponentialHistogramDataPointBuckets>
    )
        ensures
            ExponentialHistogramDataPointBuckets::view_of(r)
                == ExponentialHistogramDataPointBuckets::view_of(*item),
    {
        match item {
            Some(x) => Some(x.owned()),
            None => None,
        }
    }
}

impl<'a> ExponentialHistogramDataPoint<'a> {
    /// A copy that owns its text and bytes, and so outlives the bytes that the message
    /// was decoded from.
    pub fn owned(&self) -> (r: ExponentialHistogramDataPoint<'static>)
        ensures
            r@ == self@,
    {
        ExponentialHistogramDataPoint {
            attributes: KeyValue::owned_list(&self.attributes),
            start_time_unix_nano: self.start_time_unix_nano,
            time_unix_nano: self.time_unix_nano,
            count: self.count,
            sum: self.sum,
            scale: self.scale,
            zero_count: self.zero_count,
            positive: ExponentialHistogramDataPointBuckets::owned_option(&self.positive),
            negative: ExponentialHistogramDataPointBuckets::owned_option(&self.negative),
            flags: self.flags,
            exemplars: Exemplar::owned_list(&self.exemplars),
            min: self.min,
            max: self.max,
            zero_threshold: self.zero_threshold,
        }
    }

    /// Owned copies of the messages of a list, in order.
    pub fn owned_list(items: &Vec<ExponentialHistogramDataPoint<'a>>) -> (
        r: Vec<ExponentialHistogramDataPoint<'static>>
    )
        ensures
            ExponentialHistogramDataPoint::views(r@) == ExponentialHistogramDataPoint::views(
                items@,
            ),
    {
        let mut out: Vec<ExponentialHistogramDataPoint<'static>> = Vec::new();
        let mut i: usize = 0;
        while i < items.len()
            invariant
                i <= items.len(),
                out.len() == i,
                forall|j: int| 0 <= j < i ==> out@[j]@ == items@[j]@,
            decreases items.len() - i,
        {
            let item = items[i].owned();
            out.push(item);
            i = i + 1;
        }
        assert(
            ExponentialHistogramDataPoint::views(out@) =~= ExponentialHistogramDataPoint::views(
                items@,
            )
        );
        out
    }
}

impl SummaryDataPointValueAtQuantile {
    /// A copy of the message.
    pub fn owned(&self) -> (r: SummaryDataPointValueAtQuantile)
        ensures
            r@ == self@,
    {
        SummaryDataPointValueAtQuantile {
            quantile: self.quantile,
            value: self.value,
        }
    }

    /// Owned copies of the messages of a list, in order.
    pub fn owned_list(items: &Vec<SummaryDataPointValueAtQuantile>) -> (
        r: Vec<SummaryDataPointValueAtQuantile>
    )
        ensures
            SummaryDataPointValueAtQuantile::views(r@) == SummaryDataPointValueAtQuantile::views(
                items@,
            ),
    {
        let mut out: Vec<SummaryDataPointValueAtQuantile> = Vec::new();
        let mut i: usize = 0;
        while i < items.len()
            invariant
                i <= items.len(),
                out.len() == i,
                forall|j: int| 0 <= j < i ==> out@[j]@ == items@[j]@,
            decreases items.len() - i,
        {
            let item = items[i].owned();
            out.push(item);
            i = i + 1;
        }
        assert(
            SummaryDataPointValueAtQuantile::views(out@) =~= SummaryDataPointValueAtQuantile::views(
                items@,
            )
        );
        out
    }
}

impl<'a> SummaryDataPoint<'a> {
    /// A copy that owns its text and bytes, and so outlives the bytes that the message
    /// was decoded from.
    pub fn owned(&self) -> (r: SummaryDataPoint<'static>)
        ensures
            r@ == self@,
    {
        SummaryDataPoint {
            attributes: KeyValue::owned_list(&self.attributes),
            start_time_unix_nano: self.start_time_unix_nano,
            time_unix_nano: self.time_unix_nano,
            count: self.count,
            sum: self.sum,
            quantile_values: SummaryDataPointValueAtQuantile::owned_list(&self.quantile_values),
            flags: self.flags,
        }
    }

    /// Owned copies of the messages of a list, in order.
    pub fn owned_list(items: &Vec<SummaryDataPoint<'a>>) -> (r: Vec<SummaryDataPoint<'static>>)
        ensures
            SummaryDataPoint::views(r@) == SummaryDataPoint::views(items@),
    {
        let mut out: Vec<SummaryDataPoint<'static>> = Vec::new();
        let mut i: usize = 0;
        while i < items.len()
            invariant
                i <= items.len(),
                out.len() == i,
                forall|j: int| 0 <= j < i ==> out@[j]@ == items@[j]@,
            decreases items.len() - i,
        {
            let item = items[i].owned();
            out.push(item);
            i = i + 1;
        }
        assert(SummaryDataPoint::views(out@) =~= SummaryDataPoint::views(items@));
        out
    }
}

impl<'a> Gauge<'a> {
    /// A copy that owns its text and bytes, and so outlives the bytes that the message
    /// was decoded from.
    pub fn owned(&self) -> (r: Gauge<'static>)
        ensures
            r@ == self@,
    {
        Gauge {
            data_points: NumberDataPoint::owned_list(&self.data_points),
        }
    }
}

impl<'a> Sum<'a> {
    /// A copy that owns its text and bytes, and so outlives the bytes that the message
    /// was decoded from.
    pub fn owned(&self) -> (r: Sum<'static>)
        ensures
            r@ == self@,
    {
        Sum {
            data_points: NumberDataPoint::owned_list(&self.data_points),
            aggregation_temporality: self.aggregation_temporality,
            is_monotonic: self.is_monotonic,
        }
    }
}

impl<'a> Histogram<'a> {
    /// A copy that owns its text and bytes, and so outlives the bytes that the message
    /// was decoded from.
    pub fn owned(&self) -> (r: Histogram<'static>)
        ensures
            r@ == self@,
    {
        Histogram {
            data_points: HistogramDataPoint::owned_list(&self.data_points),
            aggregation_temporality: self.aggregation_temporality,
        }
    }
}

impl<'a> ExponentialHistogram<'a> {
    /// A copy that owns its text and bytes, and so outlives the bytes that the message
    /// was decoded from.
    pub fn owned(&self) -> (r: ExponentialHistogram<'static>)
        ensures
            r@ == self@,
    {
        ExponentialHistogram {
            data_points: ExponentialHistogramDataPoint::owned_list(&self.data_points),
            aggregation_temporality: self.aggregation_temporality,
        }
    }
}

impl<'a> Summary<'a> {
    /// A copy that owns its text and bytes, and so outlives the bytes that the message
    /// was decoded from.
    pub fn owned(&self) -> (r: Summary<'static>)
        ensures
            r@ == self@,
    {
        Summary {
            data_points: SummaryDataPoint::owned_list(&self.data_points),
        }
    }
}

impl<'a> MetricOneOfdata<'a> {
    /// A copy that owns its text and bytes.
    pub fn owned(&self) -> (r: MetricOneOfdata<'static>)
        ensures
            r@ == self@,
    {
        match self {
            MetricOneOfdata::gauge(x) => MetricOneOfdata::gauge(x.owned()),
            MetricOneOfdata::sum(x) => MetricOneOfdata::sum(x.owned()),
            MetricOneOfdata::histogram(x) => MetricOneOfdata::histogram(x.owned()),
            MetricOneOfdata::exponential_histogram(x) => MetricOneOfdata::exponential_histogram(
                x.owned(),
            ),
            MetricOneOfdata::summary(x) => MetricOneOfdata::summary(x.owned()),
            MetricOneOfdata::Unset => MetricOneOfdata::Unset,
        }
    }
}

impl<'a> Metric<'a> {
    /// A copy that owns its text and bytes, and so outlives the bytes that the message
    /// was decoded from.
    pub fn owned(&self) -> (r: Metric<'static>)
        ensures
            r@ == self@,
    {
        Metric {
            name: Cow::Owned(text_str(&self.name).to_owned()),
            description: Cow::Owned(text_str(&self.description).to_owned()),
            unit: Cow::Owned(text_str(&self.unit).to_owned()),
            data: self.data.owned(),
        }
    }

    /// Owned copies of the messages of a list, in order.
    pub fn owned_list(items: &Vec<Metric<'a>>) -> (r: Vec<Metric<'static>>)
        ensures
            Metric::views(r@) == Metric::views(items@),
    {
        let mut out: Vec<Metric<'static>> = Vec::new();
        let mut i: usize = 0;
        while i < items.len()
            invariant
                i <= items.len(),
                out.len() == i,
                forall|j: int| 0 <= j < i ==> out@[j]@ == items@[j]@,
            decreases items.len() - i,
        {
            let item = items[i].owned();
            out.push(item);
            i = i + 1;
        }
        assert(Metric::views(out@) =~= Metric::views(items@));
        out
    }
}

impl<'a> ScopeMetrics<'a> {
    /// A copy that owns its text and bytes, and so outlives the bytes that the message
    /// was decoded from.
    pub fn owned(&self) -> (r: ScopeMetrics<'static>)
        ensures
            r@ == self@,
    {
        ScopeMetrics {
            scope: InstrumentationScope::owned_option(&self.scope),
            metrics: Metric::owned_list(&self.metrics),
            schema_url: Cow::Owned(text_str(&self.schema_url).to_owned()),
        }
    }

    /// Owned copies of the messages of a list, in order.
    pub fn owned_list(items: &Vec<ScopeMetrics<'a>>) -> (r: Vec<ScopeMetrics<'static>>)
        ensures
            ScopeMetrics::views(r@) == ScopeMetrics::views(items@),
    {
        let mut out: Vec<ScopeMetrics<'static>> = Vec::new();
        let mut i: usize = 0;
        while i < items.len()
            invariant
                i <= items.len(),
                out.len() == i,
                forall|j: int| 0 <= j < i ==> out@[j]@ == items@[j]@,
            decreases items.len() - i,
        {
            let item = items[i].owned();
            out.push(item);
            i = i + 1;
        }
        assert(ScopeMetrics::views(out@) =~= ScopeMetrics::views(items@));
        out
    }
}

impl<'a> ResourceMetrics<'a> {
    /// A copy that owns its text and bytes, and so outlives the bytes that the message
    /// was decoded from.
    pub fn owned(&self) -> (r: ResourceMetrics<'static>)
        ensures
            r@ == self@,
    {
        ResourceMetrics {
            resource: Resource::owned_option(&self.resource),
            scope_metrics: ScopeMetrics::owned_list(&self.scope_metrics),
            schema_url: Cow::Owned(text_str(&self.schema_url).to_owned()),
        }
    }

    /// Owned copies of the messages of a list, in order.
    pub fn owned_list(items: &Vec<ResourceMetrics<'a>>) -> (r: Vec<ResourceMetrics<'static>>)
        ensures
            ResourceMetrics::views(r@) == ResourceMetrics::views(items@),
    {
        let mut out: Vec<ResourceMetrics<'static>> = Vec::new();
        let mut i: usize = 0;
        while i < items.len()
            invariant
                i <= items.len(),
                out.len() == i,
                forall|j: int| 0 <= j < i ==> out@[j]@ == items@[j]@,
            decreases items.len() - i,
        {
            let item = items[i].owned();
            out.push(item);
            i = i + 1;
        }
        assert(ResourceMetrics::views(out@) =~= ResourceMetrics::views(items@));
        out
    }
}

impl<'a> ExportMetricsServiceRequest<'a> {
    /// A copy that owns its text and bytes, and so outlives the bytes that the message
    /// was decoded from.
    pub fn owned(&self) -> (r: ExportMetricsServiceRequest<'static>)
        ensures
            r@ == self@,
    {
        ExportMetricsServiceRequest {
            resource_metrics: ResourceMetrics::owned_list(&self.resource_metrics),
        }
    }
}

} // verus!
