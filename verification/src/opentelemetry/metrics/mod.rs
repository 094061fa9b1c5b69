//! Metrics: gauges, sums, histograms, exponential histograms and summaries.

pub mod clone;
pub mod codec;
pub mod format;
pub mod laws;
pub mod owned;
pub mod types;

pub use crate::opentelemetry::common::{
    AnyValue, AnyValueOneOfvalue, AnyValueOneOfvalueView, AnyValueView, ArrayValue, ArrayValueView,
    InstrumentationScope, InstrumentationScopeView, KeyValue, KeyValueList, KeyValueListView,
    KeyValueView, Resource, ResourceView,
};
pub use crate::opentelemetry::metrics::types::{
    AggregationTemporality, Exemplar, ExemplarOneOfvalue, ExemplarOneOfvalueView, ExemplarView,
    ExponentialHistogram, ExponentialHistogramDataPoint, ExponentialHistogramDataPointBuckets,
    ExponentialHistogramDataPointBucketsView, ExponentialHistogramDataPointView,
    ExponentialHistogramView, ExportMetricsServiceRequest, ExportMetricsServiceRequestView, Gauge,
    GaugeView, Histogram, HistogramDataPoint, HistogramDataPointView, HistogramView, Metric,
    MetricOneOfdata, MetricOneOfdataView, MetricView, NumberDataPoint, NumberDataPointOneOfvalue,
    NumberDataPointOneOfvalueView, NumberDataPointView, ResourceMetrics, ResourceMetricsView,
    ScopeMetrics, ScopeMetricsView, Sum, SumView, Summary, SummaryDataPoint,
    SummaryDataPointValueAtQuantile, SummaryDataPointValueAtQuantileView, SummaryDataPointView,
    SummaryView,
};
pub use crate::validation::metrics::MetricValidate as Validate;
