//! Metrics: gauges, sums, histograms, exponential histograms and summaries.

use crate::opentelemetry::common::types::{
    InstrumentationScope, InstrumentationScopeView, KeyValue, KeyValueView, Resource, ResourceView,
};
use crate::text::{empty_run, empty_text};
use std::borrow::Cow;
use vstd::prelude::*;

verus! {

/// Whether a data point reports a change since the last one or a running total.
#[allow(non_camel_case_types)]
#[derive(Debug, Clone, Copy, PartialEq, Eq)]
pub enum AggregationTemporality {
    AGGREGATION_TEMPORALITY_UNSPECIFIED,
    AGGREGATION_TEMPORALITY_DELTA,
    AGGREGATION_TEMPORALITY_CUMULATIVE,
}

impl AggregationTemporality {
    /// The number that stands for the variant on the wire.
    pub open spec fn spec_number(self) -> i32 {
        match self {
            AggregationTemporality::AGGREGATION_TEMPORALITY_UNSPECIFIED => 0,
            AggregationTemporality::AGGREGATION_TEMPORALITY_DELTA => 1,
            AggregationTemporality::AGGREGATION_TEMPORALITY_CUMULATIVE => 2,
        }
    }

    /// The variant that a number stands for: the first one where the number is not
    /// that of any variant.
    pub open spec fn spec_from_number(n: i32) -> AggregationTemporality {
        if n == 1 {
            AggregationTemporality::AGGREGATION_TEMPORALITY_DELTA
        } else if n == 2 {
            AggregationTemporality::AGGREGATION_TEMPORALITY_CUMULATIVE
        } else {
            AggregationTemporality::AGGREGATION_TEMPORALITY_UNSPECIFIED
        }
    }

    /// The number that stands for the variant on the wire.
    #[verifier::when_used_as_spec(spec_number)]
    pub fn number(self) -> (n: i32)
        ensures
            n == self.spec_number(),
    {
        match self {
            AggregationTemporality::AGGREGATION_TEMPORALITY_UNSPECIFIED => 0,
            AggregationTemporality::AGGREGATION_TEMPORALITY_DELTA => 1,
            AggregationTemporality::AGGREGATION_TEMPORALITY_CUMULATIVE => 2,
        }
    }

    /// The variant that a number stands for: the first one where the number is not
    /// that of any variant.
    #[verifier::when_used_as_spec(spec_from_number)]
    pub fn from_number(n: i32) -> (r: AggregationTemporality)
        ensures
            r == AggregationTemporality::spec_from_number(n),
    {
        if n == 1 {
            AggregationTemporality::AGGREGATION_TEMPORALITY_DELTA
        } else if n == 2 {
            AggregationTemporality::AGGREGATION_TEMPORALITY_CUMULATIVE
        } else {
            AggregationTemporality::AGGREGATION_TEMPORALITY_UNSPECIFIED
        }
    }

    /// Every variant comes back from its number.
    pub proof fn lemma_number_round_trip(self)
        ensures
            AggregationTemporality::spec_from_number(self.spec_number()) == self,
            0 <= self.spec_number() <= 2,
    {
    }
}

impl Default for AggregationTemporality {
    fn default() -> (r: Self)
        ensures
            r == AggregationTemporality::AGGREGATION_TEMPORALITY_UNSPECIFIED,
    {
        AggregationTemporality::AGGREGATION_TEMPORALITY_UNSPECIFIED
    }
}

/// The value of an exemplar: a double or a signed integer.
#[allow(non_camel_case_types)]
#[derive(Debug, PartialEq)]
pub enum ExemplarOneOfvalue {
    as_double(u64),
    as_int(i64),
    Unset,
}

/// The value that `ExemplarOneOfvalue` stands for.
#[allow(non_camel_case_types)]
pub enum ExemplarOneOfvalueView {
    as_double(u64),
    as_int(i64),
    Unset,
}

impl View for ExemplarOneOfvalue {
    type V = ExemplarOneOfvalueView;

    open spec fn view(&self) -> ExemplarOneOfvalueView {
        match self {
            ExemplarOneOfvalue::as_double(x) => ExemplarOneOfvalueView::as_double(*x),
            ExemplarOneOfvalue::as_int(x) => ExemplarOneOfvalueView::as_int(*x),
            ExemplarOneOfvalue::Unset => ExemplarOneOfvalueView::Unset,
        }
    }
}

impl Default for ExemplarOneOfvalue {
    fn default() -> (r: Self)
        ensures
            r@ == ExemplarOneOfvalueView::Unset,
    {
        ExemplarOneOfvalue::Unset
    }
}

/// A sampled measurement kept beside an aggregate.
#[derive(Debug, PartialEq)]
pub struct Exemplar<'a> {
    /// The attributes of the measurement that the aggregate left out.
    pub filtered_attributes: Vec<KeyValue<'a>>,
    /// The time of the measurement, in nanoseconds since the Unix epoch.
    pub time_unix_nano: u64,
    /// The span in which the measurement was made: eight bytes by convention.
    pub span_id: Cow<'a, [u8]>,
    /// The trace in which the measurement was made: sixteen bytes by convention.
    pub trace_id: Cow<'a, [u8]>,
    /// The measured value.
    pub value: ExemplarOneOfvalue,
}

/// The value that `Exemplar` stands for.
pub struct ExemplarView {
    pub filtered_attributes: Seq<KeyValueView>,
    pub time_unix_nano: u64,
    pub span_id: Seq<u8>,
    pub trace_id: Seq<u8>,
    pub value: ExemplarOneOfvalueView,
}

impl<'a> View for Exemplar<'a> {
    type V = ExemplarView;

    open spec fn view(&self) -> ExemplarView {
        ExemplarView {
            filtered_attributes: KeyValue::views(self.filtered_attributes@),
            time_unix_nano: self.time_unix_nano,
            span_id: self.span_id@,
            trace_id: self.trace_id@,
            value: self.value@,
        }
    }
}

impl<'a> Exemplar<'a> {
    /// What a list of messages stands for.
    pub open spec fn views(items: Seq<Self>) -> Seq<ExemplarView> {
        Seq::new(items.len(), |i: int| items[i]@)
    }
}

impl ExemplarView {
    /// The message with every member at its zero value.
    pub open spec fn default() -> Self {
        Self {
            filtered_attributes: Seq::empty(),
            time_unix_nano: 0,
            span_id: Seq::empty(),
            trace_id: Seq::empty(),
            value: ExemplarOneOfvalueView::Unset,
        }
    }
}

impl<'a> Default for Exemplar<'a> {
    fn default() -> (r: Self)
        ensures
            r@ == ExemplarView::default(),
    {
        let r = Exemplar {
            filtered_attributes: Vec::new(),
            time_unix_nano: 0,
            span_id: empty_run(),
            trace_id: empty_run(),
            value: ExemplarOneOfvalue::Unset,
        };
        assert(r@.filtered_attributes =~= Seq::empty());
        r
    }
}

/// The value of a number data point: a double or a signed integer.
#[allow(non_camel_case_types)]
#[derive(Debug, PartialEq)]
pub enum NumberDataPointOneOfvalue {
    as_double(u64),
    as_int(i64),
    Unset,
}

/// The value that `NumberDataPointOneOfvalue` stands for.
#[allow(non_camel_case_types)]
pub enum NumberDataPointOneOfvalueView {
    as_double(u64),
    as_int(i64),
    Unset,
}

impl View for NumberDataPointOneOfvalue {
    type V = NumberDataPointOneOfvalueView;

    open spec fn view(&self) -> NumberDataPointOneOfvalueView {
        match self {
            NumberDataPointOneOfvalue::as_double(x) => NumberDataPointOneOfvalueView::as_double(*x),
            NumberDataPointOneOfvalue::as_int(x) => NumberDataPointOneOfvalueView::as_int(*x),
            NumberDataPointOneOfvalue::Unset => NumberDataPointOneOfvalueView::Unset,
        }
    }
}

impl Default for NumberDataPointOneOfvalue {
    fn default() -> (r: Self)
        ensures
            r@ == NumberDataPointOneOfvalueView::Unset,
    {
        NumberDataPointOneOfvalue::Unset
    }
}

/// One point of a gauge or a sum.
#[derive(Debug, PartialEq)]
pub struct NumberDataPoint<'a> {
    /// The attributes, as key-value pairs.
    pub attributes: Vec<KeyValue<'a>>,
    /// The start of the period that the point covers, in nanoseconds since the Unix epoch.
    pub start_time_unix_nano: u64,
    /// The time of the point, in nanoseconds since the Unix epoch.
    pub time_unix_nano: u64,
    /// Measurements sampled from those that the point sums up.
    pub exemplars: Vec<Exemplar<'a>>,
    /// Bit flags.
    pub flags: u32,
    /// The value of the point.
    pub value: NumberDataPointOneOfvalue,
}

/// The value that `NumberDataPoint` stands for.
pub struct NumberDataPointView {
    pub attributes: Seq<KeyValueView>,
    pub start_time_unix_nano: u64,
    pub time_unix_nano: u64,
    pub exemplars: Seq<ExemplarView>,
    pub flags: u32,
    pub value: NumberDataPointOneOfvalueView,
}

impl<'a> View for NumberDataPoint<'a> {
    type V = NumberDataPointView;

    open spec fn view(&self) -> NumberDataPointView {
        NumberDataPointView {
            attributes: KeyValue::views(self.attributes@),
            start_time_unix_nano: self.start_time_unix_nano,
            time_unix_nano: self.time_unix_nano,
            exemplars: Exemplar::views(self.exemplars@),
            flags: self.flags,
            value: self.value@,
        }
    }
}

impl<'a> NumberDataPoint<'a> {
    /// What a list of messages stands for.
    pub open spec fn views(items: Seq<Self>) -> Seq<NumberDataPointView> {
        Seq::new(items.len(), |i: int| items[i]@)
    }
}

impl NumberDataPointView {
    /// The message with every member at its zero value.
    pub open spec fn default() -> Self {
        Self {
            attributes: Seq::empty(),
            start_time_unix_nano: 0,
            time_unix_nano: 0,
            exemplars: Seq::empty(),
            flags: 0,
            value: NumberDataPointOneOfvalueView::Unset,
        }
    }
}

impl<'a> Default for NumberDataPoint<'a> {
    fn default() -> (r: Self)
        ensures
            r@ == NumberDataPointView::default(),
    {
        let r = NumberDataPoint {
            attributes: Vec::new(),
            start_time_unix_nano: 0,
            time_unix_nano: 0,
            exemplars: Vec::new(),
            flags: 0,
            value: NumberDataPointOneOfvalue::Unset,
        };
        assert(r@.attributes =~= Seq::empty());
        assert(r@.exemplars =~= Seq::empty());
        r
    }
}

/// One point of a histogram with explicit bucket bounds.
#[derive(Debug, PartialEq)]
pub struct HistogramDataPoint<'a> {
    /// The attributes, as key-value pairs.
    pub attributes: Vec<KeyValue<'a>>,
    /// The start of the period that the point covers, in nanoseconds since the Unix epoch.
    pub start_time_unix_nano: u64,
    /// The time of the point, in nanoseconds since the Unix epoch.
    pub time_unix_nano: u64,
    /// How many measurements the histogram holds.
    pub count: u64,
    /// The sum of the measurements, as the bits of a double.
    pub sum: u64,
    /// How many measurements fell into each bucket: one bucket more than there are
    /// bounds. That the lengths fit is not checked.
    pub bucket_counts: Vec<u64>,
    /// The upper bounds of the buckets but the last, as the bits of doubles, rising.
    /// That they rise is not checked.
    pub explicit_bounds: Vec<u64>,
    /// Measurements sampled from those that the histogram holds.
    pub exemplars: Vec<Exemplar<'a>>,
    /// Bit flags.
    pub flags: u32,
    /// The least measurement, as the bits of a double.
    pub min: u64,
    /// The greatest measurement, as the bits of a double.
    pub max: u64,
}

/// The value that `HistogramDataPoint` stands for.
pub struct HistogramDataPointView {
    pub attributes: Seq<KeyValueView>,
    pub start_time_unix_nano: u64,
    pub time_unix_nano: u64,
    pub count: u64,
    pub sum: u64,
    pub bucket_counts: Seq<u64>,
    pub explicit_bounds: Seq<u64>,
    pub exemplars: Seq<ExemplarView>,
    pub flags: u32,
    pub min: u64,
    pub max: u64,
}

impl<'a> View for HistogramDataPoint<'a> {
    type V = HistogramDataPointView;

    open spec fn view(&self) -> HistogramDataPointView {
        HistogramDataPointView {
            attributes: KeyValue::views(self.attributes@),
            start_time_unix_nano: self.start_time_unix_nano,
            time_unix_nano: self.time_unix_nano,
            count: self.count,
            sum: self.sum,
            bucket_counts: self.bucket_counts@,
            explicit_bounds: self.explicit_bounds@,
            exemplars: Exemplar::views(self.exemplars@),
            flags: self.flags,
            min: self.min,
            max: self.max,
        }
    }
}

impl<'a> HistogramDataPoint<'a> {
    /// What a list of messages stands for.
    pub open spec fn views(items: Seq<Self>) -> Seq<HistogramDataPointView> {
        Seq::new(items.len(), |i: int| items[i]@)
    }
}

impl HistogramDataPointView {
    /// The message with every member at its zero value.
    pub open spec fn default() -> Self {
        Self {
            attributes: Seq::empty(),
            start_time_unix_nano: 0,
            time_unix_nano: 0,
            count: 0,
            sum: 0,
            bucket_counts: Seq::empty(),
            explicit_bounds: Seq::empty(),
            exemplars: Seq::empty(),
            flags: 0,
            min: 0,
            max: 0,
        }
    }
}

impl<'a> Default for HistogramDataPoint<'a> {
    fn default() -> (r: Self)
        ensures
            r@ == HistogramDataPointView::default(),
    {
        let r = HistogramDataPoint {
            attributes: Vec::new(),
            start_time_unix_nano: 0,
            time_unix_nano: 0,
            count: 0,
            sum: 0,
            bucket_counts: Vec::new(),
            explicit_bounds: Vec::new(),
            exemplars: Vec::new(),
            flags: 0,
            min: 0,
            max: 0,
        };
        assert(r@.attributes =~= Seq::empty());
        assert(r@.exemplars =~= Seq::empty());
        r
    }
}

/// A run of buckets of an exponential histogram, from the bucket at `offset` on.
#[derive(Debug, PartialEq)]
pub struct ExponentialHistogramDataPointBuckets {
    /// The index of the first bucket.
    pub offset: i32,
    /// How many measurements fell into each bucket, from the first on.
    pub bucket_counts: Vec<u64>,
}

/// The value that `ExponentialHistogramDataPointBuckets` stands for.
pub struct ExponentialHistogramDataPointBucketsView {
    pub offset: i32,
    pub bucket_counts: Seq<u64>,
}

impl View for ExponentialHistogramDataPointBuckets {
    type V = ExponentialHistogramDataPointBucketsView;

    open spec fn view(&self) -> ExponentialHistogramDataPointBucketsView {
        ExponentialHistogramDataPointBucketsView {
            offset: self.offset,
            bucket_counts: self.bucket_counts@,
        }
    }
}

impl ExponentialHistogramDataPointBuckets {
    /// What an optional message stands for.
    pub open spec fn view_of(item: Option<Self>) -> Option<ExponentialHistogramDataPointBucketsView> {
        match item {
            Some(x) => Some(x@),
            None => None,
        }
    }
}

impl ExponentialHistogramDataPointBucketsView {
    /// The message with every member at its zero value.
    pub open spec fn default() -> Self {
        Self {
            offset: 0,
            bucket_counts: Seq::empty(),
        }
    }
}

impl Default for ExponentialHistogramDataPointBuckets {
    fn default() -> (r: Self)
        ensures
            r@ == ExponentialHistogramDataPointBucketsView::default(),
    {
        ExponentialHistogramDataPointBuckets {
            offset: 0,
            bucket_counts: Vec::new(),
        }
    }
}

/// One point of an exponential histogram.
#[derive(Debug, PartialEq)]
pub struct ExponentialHistogramDataPoint<'a> {
    /// The attributes, as key-value pairs.
    pub attributes: Vec<KeyValue<'a>>,
    /// The start of the period that the point covers, in nanoseconds since the Unix epoch.
    pub start_time_unix_nano: u64,
    /// The time of the point, in nanoseconds since the Unix epoch.
    pub time_unix_nano: u64,
    /// How many measurements the histogram holds.
    pub count: u64,
    /// The sum of the measurements, as the bits of a double.
    pub sum: u64,
    /// The resolution: the bounds of the buckets are powers of `2^(2^-scale)`.
    pub scale: i32,
    /// How many measurements were zero, or within the zero threshold.
    pub zero_count: u64,
    /// The buckets of the positive measurements.
    pub positive: Option<ExponentialHistogramDataPointBuckets>,
    /// The buckets of the negative measurements.
    pub negative: Option<ExponentialHistogramDataPointBuckets>,
    /// Bit flags.
    pub flags: u32,
    /// Measurements sampled from those that the histogram holds.
    pub exemplars: Vec<Exemplar<'a>>,
    /// The least measurement, as the bits of a double.
    pub min: u64,
    /// The greatest measurement, as the bits of a double.
    pub max: u64,
    /// The width of the zero bucket, as the bits of a double.
    pub zero_threshold: u64,
}

/// The value that `ExponentialHistogramDataPoint` stands for.
pub struct ExponentialHistogramDataPointView {
    pub attributes: Seq<KeyValueView>,
    pub start_time_unix_nano: u64,
    pub time_unix_nano: u64,
    pub count: u64,
    pub sum: u64,
    pub scale: i32,
    pub zero_count: u64,
    pub positive: Option<ExponentialHistogramDataPointBucketsView>,
    pub negative: Option<ExponentialHistogramDataPointBucketsView>,
    pub flags: u32,
    pub exemplars: Seq<ExemplarView>,
    pub min: u64,
    pub max: u64,
    pub zero_threshold: u64,
}

impl<'a> View for ExponentialHistogramDataPoint<'a> {
    type V = ExponentialHistogramDataPointView;

    open spec fn view(&self) -> ExponentialHistogramDataPointView {
        ExponentialHistogramDataPointView {
            attributes: KeyValue::views(self.attributes@),
            start_time_unix_nano: self.start_time_unix_nano,
            time_unix_nano: self.time_unix_nano,
            count: self.count,
            sum: self.sum,
            scale: self.scale,
            zero_count: self.zero_count,
            positive: ExponentialHistogramDataPointBuckets::view_of(self.positive),
            negative: ExponentialHistogramDataPointBuckets::view_of(self.negative),
            flags: self.flags,
            exemplars: Exemplar::views(self.exemplars@),
            min: self.min,
            max: self.max,
            zero_threshold: self.zero_threshold,
        }
    }
}

impl<'a> ExponentialHistogramDataPoint<'a> {
    /// What a list of messages stands for.
    pub open spec fn views(items: Seq<Self>) -> Seq<ExponentialHistogramDataPointView> {
        Seq::new(items.len(), |i: int| items[i]@)
    }
}

impl ExponentialHistogramDataPointView {
    /// The message with every member at its zero value.
    pub open spec fn default() -> Self {
        Self {
            attributes: Seq::empty(),
            start_time_unix_nano: 0,
            time_unix_nano: 0,
            count: 0,
            sum: 0,
            scale: 0,
            zero_count: 0,
            positive: None,
            negative: None,
            flags: 0,
            exemplars: Seq::empty(),
            min: 0,
            max: 0,
            zero_threshold: 0,
        }
    }
}

impl<'a> Default for ExponentialHistogramDataPoint<'a> {
    fn default() -> (r: Self)
        ensures
            r@ == ExponentialHistogramDataPointView::default(),
    {
        let r = ExponentialHistogramDataPoint {
            attributes: Vec::new(),
            start_time_unix_nano: 0,
            time_unix_nano: 0,
            count: 0,
            sum: 0,
            scale: 0,
            zero_count: 0,
            positive: None,
            negative: None,
            flags: 0,
            exemplars: Vec::new(),
            min: 0,
            max: 0,
            zero_threshold: 0,
        };
        assert(r@.attributes =~= Seq::empty());
        assert(r@.exemplars =~= Seq::empty());
        r
    }
}

/// The value at one quantile of a summary.
#[derive(Debug, PartialEq)]
pub struct SummaryDataPointValueAtQuantile {
    /// The quantile, between 0 and 1, as the bits of a double.
    pub quantile: u64,
    /// The value at the quantile, as the bits of a double.
    pub value: u64,
}

/// The value that `SummaryDataPointValueAtQuantile` stands for.
pub struct SummaryDataPointValueAtQuantileView {
    pub quantile: u64,
    pub value: u64,
}

impl View for SummaryDataPointValueAtQuantile {
    type V = SummaryDataPointValueAtQuantileView;

    open spec fn view(&self) -> SummaryDataPointValueAtQuantileView {
        SummaryDataPointValueAtQuantileView {
            quantile: self.quantile,
            value: self.value,
        }
    }
}

impl SummaryDataPointValueAtQuantile {
    /// What a list of messages stands for.
    pub open spec fn views(items: Seq<Self>) -> Seq<SummaryDataPointValueAtQuantileView> {
        Seq::new(items.len(), |i: int| items[i]@)
    }
}

impl SummaryDataPointValueAtQuantileView {
    /// The message with every member at its zero value.
    pub open spec fn default() -> Self {
        Self {
            quantile: 0,
            value: 0,
        }
    }
}

impl Default for SummaryDataPointValueAtQuantile {
    fn default() -> (r: Self)
        ensures
            r@ == SummaryDataPointValueAtQuantileView::default(),
    {
        SummaryDataPointValueAtQuantile {
            quantile: 0,
            value: 0,
        }
    }
}

/// One point of a summary.
#[derive(Debug, PartialEq)]
pub struct SummaryDataPoint<'a> {
    /// The attributes, as key-value pairs.
    pub attributes: Vec<KeyValue<'a>>,
    /// The start of the period that the point covers, in nanoseconds since the Unix epoch.
    pub start_time_unix_nano: u64,
    /// The time of the point, in nanoseconds since the Unix epoch.
    pub time_unix_nano: u64,
    /// How many measurements the summary holds.
    pub count: u64,
    /// The sum of the measurements, as the bits of a double.
    pub sum: u64,
    /// The values at the quantiles that the producer chose.
    pub quantile_values: Vec<SummaryDataPointValueAtQuantile>,
    /// Bit flags.
    pub flags: u32,
}

/// The value that `SummaryDataPoint` stands for.
pub struct SummaryDataPointView {
    pub attributes: Seq<KeyValueView>,
    pub start_time_unix_nano: u64,
    pub time_unix_nano: u64,
    pub count: u64,
    pub sum: u64,
    pub quantile_values: Seq<SummaryDataPointValueAtQuantileView>,
    pub flags: u32,
}

impl<'a> View for SummaryDataPoint<'a> {
    type V = SummaryDataPointView;

    open spec fn view(&self) -> SummaryDataPointView {
        SummaryDataPointView {
            attributes: KeyValue::views(self.attributes@),
            start_time_unix_nano: self.start_time_unix_nano,
            time_unix_nano: self.time_unix_nano,
            count: self.count,
            sum: self.sum,
            quantile_values: SummaryDataPointValueAtQuantile::views(self.quantile_values@),
            flags: self.flags,
        }
    }
}

impl<'a> SummaryDataPoint<'a> {
    /// What a list of messages stands for.
    pub open spec fn views(items: Seq<Self>) -> Seq<SummaryDataPointView> {
        Seq::new(items.len(), |i: int| items[i]@)
    }
}

impl SummaryDataPointView {
    /// The message with every member at its zero value.
    pub open spec fn default() -> Self {
        Self {
            attributes: Seq::empty(),
            start_time_unix_nano: 0,
            time_unix_nano: 0,
            count: 0,
            sum: 0,
            quantile_values: Seq::empty(),
            flags: 0,
        }
    }
}

impl<'a> Default for SummaryDataPoint<'a> {
    fn default() -> (r: Self)
        ensures
            r@ == SummaryDataPointView::default(),
    {
        let r = SummaryDataPoint {
            attributes: Vec::new(),
            start_time_unix_nano: 0,
            time_unix_nano: 0,
            count: 0,
            sum: 0,
            quantile_values: Vec::new(),
            flags: 0,
        };
        assert(r@.attributes =~= Seq::empty());
        assert(r@.quantile_values =~= Seq::empty());
        r
    }
}

/// A value sampled at points in time.
#[derive(Debug, PartialEq)]
pub struct Gauge<'a> {
    /// The points.
    pub data_points: Vec<NumberDataPoint<'a>>,
}

/// The value that `Gauge` stands for.
pub struct GaugeView {
    pub data_points: Seq<NumberDataPointView>,
}

impl<'a> View for Gauge<'a> {
    type V = GaugeView;

    open spec fn view(&self) -> GaugeView {
        GaugeView {
            data_points: NumberDataPoint::views(self.data_points@),
        }
    }
}

impl GaugeView {
    /// The message with every member at its zero value.
    pub open spec fn default() -> Self {
        Self {
            data_points: Seq::empty(),
        }
    }
}

impl<'a> Default for Gauge<'a> {
    fn default() -> (r: Self)
        ensures
            r@ == GaugeView::default(),
    {
        let r = Gauge {
            data_points: Vec::new(),
        };
        assert(r@.data_points =~= Seq::empty());
        r
    }
}

/// A sum of measurements over time.
#[derive(Debug, PartialEq)]
pub struct Sum<'a> {
    /// The points.
    pub data_points: Vec<NumberDataPoint<'a>>,
    /// Whether the points are changes or running totals.
    pub aggregation_temporality: AggregationTemporality,
    /// Whether the sum never falls.
    pub is_monotonic: bool,
}

/// The value that `Sum` stands for.
pub struct SumView {
    pub data_points: Seq<NumberDataPointView>,
    pub aggregation_temporality: AggregationTemporality,
    pub is_monotonic: bool,
}

impl<'a> View for Sum<'a> {
    type V = SumView;

    open spec fn view(&self) -> SumView {
        SumView {
            data_points: NumberDataPoint::views(self.data_points@),
            aggregation_temporality: self.aggregation_temporality,
            is_monotonic: self.is_monotonic,
        }
    }
}

impl SumView {
    /// The message with every member at its zero value.
    pub open spec fn default() -> Self {
        Self {
            data_points: Seq::empty(),
            aggregation_temporality: AggregationTemporality::AGGREGATION_TEMPORALITY_UNSPECIFIED,
            is_monotonic: false,
        }
    }
}

impl<'a> Default for Sum<'a> {
    fn default() -> (r: Self)
        ensures
            r@ == SumView::default(),
    {
        let r = Sum {
            data_points: Vec::new(),
            aggregation_temporality: AggregationTemporality::AGGREGATION_TEMPORALITY_UNSPECIFIED,
            is_monotonic: false,
        };
        assert(r@.data_points =~= Seq::empty());
        r
    }
}

/// A distribution of measurements over explicit buckets.
#[derive(Debug, PartialEq)]
pub struct Histogram<'a> {
    /// The points.
    pub data_points: Vec<HistogramDataPoint<'a>>,
    /// Whether the points are changes or running totals.
    pub aggregation_temporality: AggregationTemporality,
}

/// The value that `Histogram` stands for.
pub struct HistogramView {
    pub data_points: Seq<HistogramDataPointView>,
    pub aggregation_temporality: AggregationTemporality,
}

impl<'a> View for Histogram<'a> {
    type V = HistogramView;

    open spec fn view(&self) -> HistogramView {
        HistogramView {
            data_points: HistogramDataPoint::views(self.data_points@),
            aggregation_temporality: self.aggregation_temporality,
        }
    }
}

impl HistogramView {
    /// The message with every member at its zero value.
    pub open spec fn default() -> Self {
        Self {
            data_points: Seq::empty(),
            aggregation_temporality: AggregationTemporality::AGGREGATION_TEMPORALITY_UNSPECIFIED,
        }
    }
}

impl<'a> Default for Histogram<'a> {
    fn default() -> (r: Self)
        ensures
            r@ == HistogramView::default(),
    {
        let r = Histogram {
            data_points: Vec::new(),
            aggregation_temporality: AggregationTemporality::AGGREGATION_TEMPORALITY_UNSPECIFIED,
        };
        assert(r@.data_points =~= Seq::empty());
        r
    }
}

/// A distribution of measurements over exponentially sized buckets.
#[derive(Debug, PartialEq)]
pub struct ExponentialHistogram<'a> {
    /// The points.
    pub data_points: Vec<ExponentialHistogramDataPoint<'a>>,
    /// Whether the points are changes or running totals.
    pub aggregation_temporality: AggregationTemporality,
}

/// The value that `ExponentialHistogram` stands for.
pub struct ExponentialHistogramView {
    pub data_points: Seq<ExponentialHistogramDataPointView>,
    pub aggregation_temporality: AggregationTemporality,
}

impl<'a> View for ExponentialHistogram<'a> {
    type V = ExponentialHistogramView;

    open spec fn view(&self) -> ExponentialHistogramView {
        ExponentialHistogramView {
            data_points: ExponentialHistogramDataPoint::views(self.data_points@),
            aggregation_temporality: self.aggregation_temporality,
        }
    }
}

impl ExponentialHistogramView {
    /// The message with every member at its zero value.
    pub open spec fn default() -> Self {
        Self {
            data_points: Seq::empty(),
            aggregation_temporality: AggregationTemporality::AGGREGATION_TEMPORALITY_UNSPECIFIED,
        }
    }
}

impl<'a> Default for ExponentialHistogram<'a> {
    fn default() -> (r: Self)
        ensures
            r@ == ExponentialHistogramView::default(),
    {
        let r = ExponentialHistogram {
            data_points: Vec::new(),
            aggregation_temporality: AggregationTemporality::AGGREGATION_TEMPORALITY_UNSPECIFIED,
        };
        assert(r@.data_points =~= Seq::empty());
        r
    }
}

/// Quantiles of a distribution, computed by the producer.
#[derive(Debug, PartialEq)]
pub struct Summary<'a> {
    /// The points.
    pub data_points: Vec<SummaryDataPoint<'a>>,
}

/// The value that `Summary` stands for.
pub struct SummaryView {
    pub data_points: Seq<SummaryDataPointView>,
}

impl<'a> View for Summary<'a> {
    type V = SummaryView;

    open spec fn view(&self) -> SummaryView {
        SummaryView {
            data_points: SummaryDataPoint::views(self.data_points@),
        }
    }
}

impl SummaryView {
    /// The message with every member at its zero value.
    pub open spec fn default() -> Self {
        Self {
            data_points: Seq::empty(),
        }
    }
}

impl<'a> Default for Summary<'a> {
    fn default() -> (r: Self)
        ensures
            r@ == SummaryView::default(),
    {
        let r = Summary {
            data_points: Vec::new(),
        };
        assert(r@.data_points =~= Seq::empty());
        r
    }
}

/// The data of a metric: one of five kinds, or nothing.
#[allow(non_camel_case_types)]
#[derive(Debug, PartialEq)]
pub enum MetricOneOfdata<'a> {
    gauge(Gauge<'a>),
    sum(Sum<'a>),
    histogram(Histogram<'a>),
    exponential_histogram(ExponentialHistogram<'a>),
    summary(Summary<'a>),
    Unset,
}

/// The value that `MetricOneOfdata` stands for.
#[allow(non_camel_case_types)]
pub enum MetricOneOfdataView {
    gauge(GaugeView),
    sum(SumView),
    histogram(HistogramView),
    exponential_histogram(ExponentialHistogramView),
    summary(SummaryView),
    Unset,
}

impl<'a> View for MetricOneOfdata<'a> {
    type V = MetricOneOfdataView;

    open spec fn view(&self) -> MetricOneOfdataView {
        match self {
            MetricOneOfdata::gauge(x) => MetricOneOfdataView::gauge(x@),
            MetricOneOfdata::sum(x) => MetricOneOfdataView::sum(x@),
            MetricOneOfdata::histogram(x) => MetricOneOfdataView::histogram(x@),
            MetricOneOfdata::exponential_histogram(x) => MetricOneOfdataView::exponential_histogram(
                x@,
            ),
            MetricOneOfdata::summary(x) => MetricOneOfdataView::summary(x@),
            MetricOneOfdata::Unset => MetricOneOfdataView::Unset,
        }
    }
}

impl<'a> Default for MetricOneOfdata<'a> {
    fn default() -> (r: Self)
        ensures
            r@ == MetricOneOfdataView::Unset,
    {
        MetricOneOfdata::Unset
    }
}

/// A named stream of data points of one kind.
#[derive(Debug, PartialEq)]
pub struct Metric<'a> {
    /// The name: a letter or `_`, then letters, digits or `_`.
    pub name: Cow<'a, str>,
    /// What the metric measures, for a reader.
    pub description: Cow<'a, str>,
    /// The unit of the measurements. It is not checked.
    pub unit: Cow<'a, str>,
    /// The data, of one of five kinds, or nothing.
    pub data: MetricOneOfdata<'a>,
}

/// The value that `Metric` stands for.
pub struct MetricView {
    pub name: Seq<char>,
    pub description: Seq<char>,
    pub unit: Seq<char>,
    pub data: MetricOneOfdataView,
}

impl<'a> View for Metric<'a> {
    type V = MetricView;

    open spec fn view(&self) -> MetricView {
        MetricView {
            name: self.name@,
            description: self.description@,
            unit: self.unit@,
            data: self.data@,
        }
    }
}

impl<'a> Metric<'a> {
    /// What a list of messages stands for.
    pub open spec fn views(items: Seq<Self>) -> Seq<MetricView> {
        Seq::new(items.len(), |i: int| items[i]@)
    }
}

impl MetricView {
    /// The message with every member at its zero value.
    pub open spec fn default() -> Self {
        Self {
            name: Seq::empty(),
            description: Seq::empty(),
            unit: Seq::empty(),
            data: MetricOneOfdataView::Unset,
        }
    }
}

impl<'a> Default for Metric<'a> {
    fn default() -> (r: Self)
        ensures
            r@ == MetricView::default(),
    {
        Metric {
            name: empty_text(),
            description: empty_text(),
            unit: empty_text(),
            data: MetricOneOfdata::Unset,
        }
    }
}

/// The metrics of one instrumentation scope.
#[derive(Debug, PartialEq)]
pub struct ScopeMetrics<'a> {
    /// The scope that the metrics come from.
    pub scope: Option<InstrumentationScope<'a>>,
    /// The metrics.
    pub metrics: Vec<Metric<'a>>,
    /// The URL of the schema that the data follows: empty, or an absolute URL.
    pub schema_url: Cow<'a, str>,
}

/// The value that `ScopeMetrics` stands for.
pub struct ScopeMetricsView {
    pub scope: Option<InstrumentationScopeView>,
    pub metrics: Seq<MetricView>,
    pub schema_url: Seq<char>,
}

impl<'a> View for ScopeMetrics<'a> {
    type V = ScopeMetricsView;

    open spec fn view(&self) -> ScopeMetricsView {
        ScopeMetricsView {
            scope: InstrumentationScope::view_of(self.scope),
            metrics: Metric::views(self.metrics@),
            schema_url: self.schema_url@,
        }
    }
}

impl<'a> ScopeMetrics<'a> {
    /// What a list of messages stands for.
    pub open spec fn views(items: Seq<Self>) -> Seq<ScopeMetricsView> {
        Seq::new(items.len(), |i: int| items[i]@)
    }
}

impl ScopeMetricsView {
    /// The message with every member at its zero value.
    pub open spec fn default() -> Self {
        Self {
            scope: None,
            metrics: Seq::empty(),
            schema_url: Seq::empty(),
        }
    }
}

impl<'a> Default for ScopeMetrics<'a> {
    fn default() -> (r: Self)
        ensures
            r@ == ScopeMetricsView::default(),
    {
        let r = ScopeMetrics {
            scope: None,
            metrics: Vec::new(),
            schema_url: empty_text(),
        };
        assert(r@.metrics =~= Seq::empty());
        r
    }
}

/// The metrics of one resource.
#[derive(Debug, PartialEq)]
pub struct ResourceMetrics<'a> {
    /// The resource that the metrics come from.
    pub resource: Option<Resource<'a>>,
    /// The metrics, by scope.
    pub scope_metrics: Vec<ScopeMetrics<'a>>,
    /// The URL of the schema that the data follows: empty, or an absolute URL.
    pub schema_url: Cow<'a, str>,
}

/// The value that `ResourceMetrics` stands for.
pub struct ResourceMetricsView {
    pub resource: Option<ResourceView>,
    pub scope_metrics: Seq<ScopeMetricsView>,
    pub schema_url: Seq<char>,
}

impl<'a> View for ResourceMetrics<'a> {
    type V = ResourceMetricsView;

    open spec fn view(&self) -> ResourceMetricsView {
        ResourceMetricsView {
            resource: Resource::view_of(self.resource),
            scope_metrics: ScopeMetrics::views(self.scope_metrics@),
            schema_url: self.schema_url@,
        }
    }
}

impl<'a> ResourceMetrics<'a> {
    /// What a list of messages stands for.
    pub open spec fn views(items: Seq<Self>) -> Seq<ResourceMetricsView> {
        Seq::new(items.len(), |i: int| items[i]@)
    }
}

impl ResourceMetricsView {
    /// The message with every member at its zero value.
    pub open spec fn default() -> Self {
        Self {
            resource: None,
            scope_metrics: Seq::empty(),
            schema_url: Seq::empty(),
        }
    }
}

impl<'a> Default for ResourceMetrics<'a> {
    fn default() -> (r: Self)
        ensures
            r@ == ResourceMetricsView::default(),
    {
        let r = ResourceMetrics {
            resource: None,
            scope_metrics: Vec::new(),
            schema_url: empty_text(),
        };
        assert(r@.scope_metrics =~= Seq::empty());
        r
    }
}

/// A request to export metrics.
#[derive(Debug, PartialEq)]
pub struct ExportMetricsServiceRequest<'a> {
    /// The metrics, by resource.
    pub resource_metrics: Vec<ResourceMetrics<'a>>,
}

/// The value that `ExportMetricsServiceRequest` stands for.
pub struct ExportMetricsServiceRequestView {
    pub resource_metrics: Seq<ResourceMetricsView>,
}

impl<'a> View for ExportMetricsServiceRequest<'a> {
    type V = ExportMetricsServiceRequestView;

    open spec fn view(&self) -> ExportMetricsServiceRequestView {
        ExportMetricsServiceRequestView {
            resource_metrics: ResourceMetrics::views(self.resource_metrics@),
        }
    }
}

impl ExportMetricsServiceRequestView {
    /// The message with every member at its zero value.
    pub open spec fn default() -> Self {
        Self {
            resource_metrics: Seq::empty(),
        }
    }
}

impl<'a> Default for ExportMetricsServiceRequest<'a> {
    fn default() -> (r: Self)
        ensures
            r@ == ExportMetricsServiceRequestView::default(),
    {
        let r = ExportMetricsServiceRequest {
            resource_metrics: Vec::new(),
        };
        assert(r@.resource_metrics =~= Seq::empty());
        r
    }
}

} // verus!
