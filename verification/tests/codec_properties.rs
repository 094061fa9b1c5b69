use otlp_codec::error::Error;
use otlp_codec::message::Message;
use otlp_codec::opentelemetry::common::{
    AnyValue, AnyValueOneOfvalue, ArrayValue, InstrumentationScope, KeyValue, KeyValueList,
    Resource,
};
use otlp_codec::opentelemetry::logs::{
    ExportLogsServiceRequest, LogRecord, ResourceLogs, ScopeLogs, SeverityNumber,
};
use otlp_codec::opentelemetry::metrics::{
    AggregationTemporality, Exemplar, ExemplarOneOfvalue, ExponentialHistogram,
    ExponentialHistogramDataPoint, ExponentialHistogramDataPointBuckets,
    ExportMetricsServiceRequest, Gauge, Histogram, HistogramDataPoint, Metric, MetricOneOfdata,
    NumberDataPoint, NumberDataPointOneOfvalue, ResourceMetrics, ScopeMetrics, Sum, Summary,
    SummaryDataPoint, SummaryDataPointValueAtQuantile,
};
use otlp_codec::opentelemetry::trace::{
    ExportTraceServiceRequest, ResourceSpans, ScopeSpans, Span, SpanEvent, SpanKind, SpanLink,
    Status, StatusCode,
};
use quick_protobuf::{BytesReader, Writer};
use std::borrow::Cow;

fn text(s: &'static str) -> AnyValue<'static> {
    AnyValue {
        value: AnyValueOneOfvalue::string_value(Cow::from(s)),
    }
}

fn pair(key: &'static str, value: AnyValue<'static>) -> KeyValue<'static> {
    KeyValue {
        key: Cow::from(key),
        value: Some(value),
    }
}

fn every_kind_of_value() -> Vec<AnyValue<'static>> {
    let scalars = vec![
        text("test"),
        text(""),
        text("gr\u{fc}\u{df}e \u{1f980}"),
        AnyValue {
            value: AnyValueOneOfvalue::bool_value(true),
        },
        AnyValue {
            value: AnyValueOneOfvalue::bool_value(false),
        },
        AnyValue {
            value: AnyValueOneOfvalue::int_value(0),
        },
        AnyValue {
            value: AnyValueOneOfvalue::int_value(-1),
        },
        AnyValue {
            value: AnyValueOneOfvalue::int_value(i64::MIN),
        },
        AnyValue {
            value: AnyValueOneOfvalue::int_value(i64::MAX),
        },
        AnyValue {
            value: AnyValueOneOfvalue::double_value(0),
        },
        AnyValue {
            value: AnyValueOneOfvalue::double_value((-0.0_f64).to_bits()),
        },
        AnyValue {
            value: AnyValueOneOfvalue::double_value(3.7_f64.to_bits()),
        },
        AnyValue {
            value: AnyValueOneOfvalue::double_value(f64::NAN.to_bits()),
        },
        AnyValue {
            value: AnyValueOneOfvalue::bytes_value(Cow::from(&[0u8, 255, 128][..])),
        },
        AnyValue {
            value: AnyValueOneOfvalue::bytes_value(Cow::from(&[][..])),
        },
        AnyValue {
            value: AnyValueOneOfvalue::Unset,
        },
    ];
    let mut all = scalars.clone();
    all.push(AnyValue {
        value: AnyValueOneOfvalue::array_value(ArrayValue { values: Vec::new() }),
    });
    all.push(AnyValue {
        value: AnyValueOneOfvalue::array_value(ArrayValue {
            values: scalars.clone(),
        }),
    });
    all.push(AnyValue {
        value: AnyValueOneOfvalue::kvlist_value(KeyValueList { values: Vec::new() }),
    });
    all.push(AnyValue {
        value: AnyValueOneOfvalue::kvlist_value(KeyValueList {
            values: vec![
                pair("a", text("b")),
                KeyValue {
                    key: Cow::from(""),
                    value: None,
                },
                pair(
                    "nested",
                    AnyValue {
                        value: AnyValueOneOfvalue::array_value(ArrayValue {
                            values: scalars.clone(),
                        }),
                    },
                ),
            ],
        }),
    });
    let mut deep = text("bottom");
    for _ in 0..40 {
        deep = AnyValue {
            value: AnyValueOneOfvalue::array_value(ArrayValue {
                values: vec![deep, AnyValue::default()],
            }),
        };
    }
    all.push(deep);
    all
}

fn attributes() -> Vec<KeyValue<'static>> {
    let mut out = Vec::new();
    for v in every_kind_of_value() {
        out.push(pair("key", v));
    }
    out.push(KeyValue::default());
    out
}

fn exemplars() -> Vec<Exemplar<'static>> {
    vec![
        Exemplar::default(),
        Exemplar {
            filtered_attributes: attributes(),
            time_unix_nano: u64::MAX,
            span_id: Cow::from(&b"12345678"[..]),
            trace_id: Cow::from(&b"1234567890123456"[..]),
            value: ExemplarOneOfvalue::as_double(0),
        },
        Exemplar {
            value: ExemplarOneOfvalue::as_int(i64::MIN),
            ..Default::default()
        },
        Exemplar {
            value: ExemplarOneOfvalue::as_int(0),
            ..Default::default()
        },
    ]
}

fn number_points() -> Vec<NumberDataPoint<'static>> {
    vec![
        NumberDataPoint::default(),
        NumberDataPoint {
            attributes: attributes(),
            start_time_unix_nano: 1,
            time_unix_nano: 1681339577345243523,
            exemplars: exemplars(),
            flags: u32::MAX,
            value: NumberDataPointOneOfvalue::as_double(9.9_f64.to_bits()),
        },
        NumberDataPoint {
            value: NumberDataPointOneOfvalue::as_int(-7),
            ..Default::default()
        },
    ]
}

fn metrics() -> Vec<Metric<'static>> {
    let buckets = ExponentialHistogramDataPointBuckets {
        offset: i32::MIN,
        bucket_counts: vec![0, 1, u64::MAX, 0],
    };
    vec![
        Metric::default(),
        Metric {
            name: Cow::from("gauge"),
            description: Cow::from("d"),
            unit: Cow::from("1"),
            data: MetricOneOfdata::gauge(Gauge {
                data_points: number_points(),
            }),
        },
        Metric {
            name: Cow::from("empty_gauge"),
            data: MetricOneOfdata::gauge(Gauge::default()),
            ..Default::default()
        },
        Metric {
            name: Cow::from("sum"),
            data: MetricOneOfdata::sum(Sum {
                data_points: number_points(),
                aggregation_temporality: AggregationTemporality::AGGREGATION_TEMPORALITY_DELTA,
                is_monotonic: true,
            }),
            ..Default::default()
        },
        Metric {
            name: Cow::from("histogram"),
            data: MetricOneOfdata::histogram(Histogram {
                data_points: vec![
                    HistogramDataPoint::default(),
                    HistogramDataPoint {
                        attributes: attributes(),
                        start_time_unix_nano: 2,
                        time_unix_nano: 3,
                        count: u64::MAX,
                        sum: (-3.7_f64).to_bits(),
                        bucket_counts: vec![0, u64::MAX, 1],
                        explicit_bounds: vec![0, 1.3_f64.to_bits(), (-0.0_f64).to_bits()],
                        exemplars: exemplars(),
                        flags: 1,
                        min: f64::MIN.to_bits(),
                        max: f64::MAX.to_bits(),
                    },
                ],
                aggregation_temporality:
                    AggregationTemporality::AGGREGATION_TEMPORALITY_CUMULATIVE,
            }),
            ..Default::default()
        },
        Metric {
            name: Cow::from("exponential"),
            data: MetricOneOfdata::exponential_histogram(ExponentialHistogram {
                data_points: vec![
                    ExponentialHistogramDataPoint::default(),
                    ExponentialHistogramDataPoint {
                        attributes: attributes(),
                        start_time_unix_nano: 2,
                        time_unix_nano: 3,
                        count: 4,
                        sum: 5.0_f64.to_bits(),
                        scale: -6,
                        zero_count: 7,
                        positive: Some(buckets.clone()),
                        negative: Some(ExponentialHistogramDataPointBuckets::default()),
                        flags: 10,
                        exemplars: exemplars(),
                        min: 12.0_f64.to_bits(),
                        max: 13.0_f64.to_bits(),
                        zero_threshold: 14.0_f64.to_bits(),
                    },
                    ExponentialHistogramDataPoint {
                        scale: i32::MAX,
                        negative: Some(buckets.clone()),
                        ..Default::default()
                    },
                ],
                aggregation_temporality: AggregationTemporality::AGGREGATION_TEMPORALITY_UNSPECIFIED,
            }),
            ..Default::default()
        },
        Metric {
            name: Cow::from("summary"),
            data: MetricOneOfdata::summary(Summary {
                data_points: vec![
                    SummaryDataPoint::default(),
                    SummaryDataPoint {
                        attributes: attributes(),
                        start_time_unix_nano: 2,
                        time_unix_nano: 3,
                        count: 4,
                        sum: 5.0_f64.to_bits(),
                        quantile_values: vec![
                            SummaryDataPointValueAtQuantile::default(),
                            SummaryDataPointValueAtQuantile {
                                quantile: 0.5_f64.to_bits(),
                                value: 2.0_f64.to_bits(),
                            },
                        ],
                        flags: 8,
                    },
                ],
            }),
            ..Default::default()
        },
    ]
}

fn metrics_request() -> ExportMetricsServiceRequest<'static> {
    ExportMetricsServiceRequest {
        resource_metrics: vec![
            ResourceMetrics::default(),
            ResourceMetrics {
                resource: Some(Resource {
                    attributes: attributes(),
                    dropped_attributes_count: 3,
                }),
                scope_metrics: vec![
                    ScopeMetrics::default(),
                    ScopeMetrics {
                        scope: Some(InstrumentationScope {
                            name: Cow::from("scope"),
                            version: Cow::from("1.2.3"),
                            attributes: attributes(),
                            dropped_attributes_count: 4,
                        }),
                        metrics: metrics(),
                        schema_url: Cow::from("https://some_url.com"),
                    },
                ],
                schema_url: Cow::from("https://some_url.com"),
            },
            ResourceMetrics {
                resource: Some(Resource::default()),
                ..Default::default()
            },
        ],
    }
}

fn logs_request() -> ExportLogsServiceRequest<'static> {
    ExportLogsServiceRequest {
        resource_logs: vec![
            ResourceLogs::default(),
            ResourceLogs {
                resource: Some(Resource {
                    attributes: attributes(),
                    dropped_attributes_count: 0,
                }),
                scope_logs: vec![
                    ScopeLogs::default(),
                    ScopeLogs {
                        scope: Some(InstrumentationScope::default()),
                        log_records: vec![
                            LogRecord::default(),
                            LogRecord {
                                time_unix_nano: 1,
                                observed_time_unix_nano: 11,
                                severity_number: SeverityNumber::SEVERITY_NUMBER_FATAL4,
                                severity_text: Cow::from("FATAL"),
                                body: Some(every_kind_of_value().pop().expect("value")),
                                attributes: attributes(),
                                dropped_attributes_count: 7,
                                flags: u32::MAX,
                                trace_id: Cow::from(&b"1234567890123456"[..]),
                                span_id: Cow::from(&b"12345678"[..]),
                            },
                            LogRecord {
                                body: Some(AnyValue::default()),
                                severity_number: SeverityNumber::SEVERITY_NUMBER_TRACE,
                                ..Default::default()
                            },
                        ],
                        schema_url: Cow::from("s"),
                    },
                ],
                schema_url: Cow::from("r"),
            },
        ],
    }
}

fn trace_request() -> ExportTraceServiceRequest<'static> {
    ExportTraceServiceRequest {
        resource_spans: vec![
            ResourceSpans::default(),
            ResourceSpans {
                resource: Some(Resource::default()),
                scope_spans: vec![
                    ScopeSpans::default(),
                    ScopeSpans {
                        scope: Some(InstrumentationScope::default()),
                        spans: vec![
                            Span::default(),
                            Span {
                                trace_id: Cow::from(&b"1234567890123456"[..]),
                                span_id: Cow::from(&b"12345678"[..]),
                                trace_state: Cow::from("state"),
                                parent_span_id: Cow::from(&b"87654321"[..]),
                                name: Cow::from("name"),
                                kind: SpanKind::SPAN_KIND_CONSUMER,
                                start_time_unix_nano: 7,
                                end_time_unix_nano: 8,
                                attributes: attributes(),
                                dropped_attributes_count: 10,
                                events: vec![
                                    SpanEvent::default(),
                                    SpanEvent {
                                        time_unix_nano: 1,
                                        name: Cow::from("event"),
                                        attributes: attributes(),
                                        dropped_attributes_count: 4,
                                    },
                                ],
                                dropped_events_count: 12,
                                links: vec![
                                    SpanLink::default(),
                                    SpanLink {
                                        trace_id: Cow::from(&b"1"[..]),
                                        span_id: Cow::from(&b"2"[..]),
                                        trace_state: Cow::from("3"),
                                        attributes: attributes(),
                                        dropped_attributes_count: 5,
                                    },
                                ],
                                dropped_links_count: 14,
                                status: Some(Status {
                                    message: Cow::from("failed"),
                                    code: StatusCode::STATUS_CODE_ERROR,
                                }),
                            },
                            Span {
                                status: Some(Status::default()),
                                kind: SpanKind::SPAN_KIND_INTERNAL,
                                ..Default::default()
                            },
                        ],
                        schema_url: Cow::from("s"),
                    },
                ],
                schema_url: Cow::from("r"),
            },
        ],
    }
}

#[test]
fn every_kind_of_value_reads_back() {
    for v in every_kind_of_value() {
        let body = v.to_bytes();
        assert_eq!(AnyValue::from_bytes(&body), Ok(v.clone()));
        let framed = v.encode();
        assert_eq!(AnyValue::decode(&framed), Ok(v.clone()));
        let kv = pair("k", v);
        let body = kv.to_bytes();
        let back = KeyValue::from_bytes(&body).expect("decode");
        assert_eq!(back, kv);
        assert_eq!(back.to_bytes(), body);
    }
}

#[test]
fn metrics_request_reads_back() {
    let request = metrics_request();
    let body = request.to_bytes();
    let back = ExportMetricsServiceRequest::from_bytes(&body).expect("decode");
    assert_eq!(back, request);
    assert_eq!(back.to_bytes(), body);
    let framed = request.encode();
    let back = ExportMetricsServiceRequest::decode(&framed).expect("decode");
    assert_eq!(back, request);
    assert_eq!(back.encode(), framed);
    assert_eq!(ExportMetricsServiceRequest::try_from(&body[..]), Ok(request));
}

#[test]
fn logs_request_reads_back() {
    let request = logs_request();
    let body = request.to_bytes();
    let back = ExportLogsServiceRequest::from_bytes(&body).expect("decode");
    assert_eq!(back, request);
    assert_eq!(back.to_bytes(), body);
    let framed = request.encode();
    let back = ExportLogsServiceRequest::decode(&framed).expect("decode");
    assert_eq!(back, request);
    assert_eq!(back.encode(), framed);
    assert_eq!(ExportLogsServiceRequest::try_from(&body[..]), Ok(request));
}

#[test]
fn trace_request_reads_back() {
    let request = trace_request();
    let body = request.to_bytes();
    let back = ExportTraceServiceRequest::from_bytes(&body).expect("decode");
    assert_eq!(back, request);
    assert_eq!(back.to_bytes(), body);
    let framed = request.encode();
    let back = ExportTraceServiceRequest::decode(&framed).expect("decode");
    assert_eq!(back, request);
    assert_eq!(back.encode(), framed);
    assert_eq!(ExportTraceServiceRequest::try_from(&body[..]), Ok(request));
}

#[test]
fn write_appends_the_body() {
    let kv = pair("test", text("test"));
    let mut out = vec![1, 2, 3];
    kv.write(&mut out);
    assert_eq!(
        out,
        vec![1, 2, 3, 10, 4, 116, 101, 115, 116, 18, 6, 10, 4, 116, 101, 115, 116]
    );
    assert_eq!(&out[3..], &kv.to_bytes()[..]);
}

#[test]
fn messages_at_zero_take_no_bytes() {
    assert_eq!(ExportMetricsServiceRequest::default().to_bytes(), Vec::<u8>::new());
    assert_eq!(ExportLogsServiceRequest::default().to_bytes(), Vec::<u8>::new());
    assert_eq!(ExportTraceServiceRequest::default().to_bytes(), Vec::<u8>::new());
    assert_eq!(ResourceMetrics::default().to_bytes(), Vec::<u8>::new());
    assert_eq!(ScopeMetrics::default().to_bytes(), Vec::<u8>::new());
    assert_eq!(Metric::default().to_bytes(), Vec::<u8>::new());
    assert_eq!(NumberDataPoint::default().to_bytes(), Vec::<u8>::new());
    assert_eq!(HistogramDataPoint::default().to_bytes(), Vec::<u8>::new());
    assert_eq!(ExponentialHistogramDataPoint::default().to_bytes(), Vec::<u8>::new());
    assert_eq!(SummaryDataPoint::default().to_bytes(), Vec::<u8>::new());
    assert_eq!(Exemplar::default().to_bytes(), Vec::<u8>::new());
    assert_eq!(LogRecord::default().to_bytes(), Vec::<u8>::new());
    assert_eq!(Span::default().to_bytes(), Vec::<u8>::new());
    assert_eq!(Status::default().to_bytes(), Vec::<u8>::new());
    assert_eq!(KeyValue::default().to_bytes(), Vec::<u8>::new());
    assert_eq!(AnyValue::default().to_bytes(), Vec::<u8>::new());
    assert_eq!(Resource::default().to_bytes(), Vec::<u8>::new());
    assert_eq!(InstrumentationScope::default().to_bytes(), Vec::<u8>::new());
    assert_eq!(ExportMetricsServiceRequest::default().encode(), vec![0]);
    assert_eq!(KeyValue::default().encode(), vec![0]);
}

#[test]
fn members_at_zero_are_not_written() {
    let span = Span {
        name: Cow::from("n"),
        dropped_links_count: 1,
        ..Default::default()
    };
    assert_eq!(span.to_bytes(), vec![42, 1, 110, 112, 1]);
    let record = LogRecord {
        observed_time_unix_nano: 1,
        flags: 2,
        ..Default::default()
    };
    assert_eq!(
        record.to_bytes(),
        vec![89, 1, 0, 0, 0, 0, 0, 0, 0, 69, 2, 0, 0, 0]
    );
    let sum = Sum {
        data_points: Vec::new(),
        aggregation_temporality: AggregationTemporality::AGGREGATION_TEMPORALITY_UNSPECIFIED,
        is_monotonic: false,
    };
    assert_eq!(sum.to_bytes(), Vec::<u8>::new());
    let sum = Sum {
        is_monotonic: true,
        ..Default::default()
    };
    assert_eq!(sum.to_bytes(), vec![24, 1]);
    let buckets = ExponentialHistogramDataPointBuckets {
        offset: -1,
        bucket_counts: Vec::new(),
    };
    assert_eq!(buckets.to_bytes(), vec![8, 1]);
}

#[test]
fn present_members_are_written_though_they_hold_nothing() {
    let kv = KeyValue {
        key: Cow::from(""),
        value: Some(AnyValue::default()),
    };
    assert_eq!(kv.to_bytes(), vec![18, 0]);
    assert_eq!(KeyValue::from_bytes(&[18, 0]), Ok(kv));
    let zero = AnyValue {
        value: AnyValueOneOfvalue::int_value(0),
    };
    assert_eq!(zero.to_bytes(), vec![24, 0]);
    let no = AnyValue {
        value: AnyValueOneOfvalue::bool_value(false),
    };
    assert_eq!(no.to_bytes(), vec![16, 0]);
    let empty = AnyValue {
        value: AnyValueOneOfvalue::string_value(Cow::from("")),
    };
    assert_eq!(empty.to_bytes(), vec![10, 0]);
    let gauge = Metric {
        data: MetricOneOfdata::gauge(Gauge::default()),
        ..Default::default()
    };
    assert_eq!(gauge.to_bytes(), vec![42, 0]);
    let list = ArrayValue {
        values: vec![AnyValue::default(), AnyValue::default()],
    };
    assert_eq!(list.to_bytes(), vec![10, 0, 10, 0]);
    assert_eq!(ArrayValue::from_bytes(&[10, 0, 10, 0]), Ok(list));
}

#[test]
fn negative_zero_is_written() {
    let point = SummaryDataPointValueAtQuantile {
        quantile: (-0.0_f64).to_bits(),
        value: 0.0_f64.to_bits(),
    };
    let body = point.to_bytes();
    assert_eq!(body, vec![9, 0, 0, 0, 0, 0, 0, 0, 128]);
    assert_eq!(SummaryDataPointValueAtQuantile::from_bytes(&body), Ok(point));
}

#[test]
fn bucket_count_at_the_end_of_64_bits() {
    let buckets = ExponentialHistogramDataPointBuckets {
        offset: 1,
        bucket_counts: vec![18446744073709551615],
    };
    let body = buckets.to_bytes();
    assert_eq!(
        body,
        vec![8, 2, 16, 255, 255, 255, 255, 255, 255, 255, 255, 255, 1]
    );
    let back = ExponentialHistogramDataPointBuckets::from_bytes(&body).expect("decode");
    assert_eq!(back.bucket_counts, vec![u64::MAX]);
    assert_eq!(back, buckets);
    let point = HistogramDataPoint {
        bucket_counts: vec![u64::MAX, 0],
        ..Default::default()
    };
    let body = point.to_bytes();
    assert_eq!(
        body,
        vec![50, 16, 255, 255, 255, 255, 255, 255, 255, 255, 0, 0, 0, 0, 0, 0, 0, 0]
    );
    assert_eq!(HistogramDataPoint::from_bytes(&body), Ok(point));
    let point = HistogramDataPoint {
        count: u64::MAX,
        ..Default::default()
    };
    let body = point.to_bytes();
    assert_eq!(body, vec![33, 255, 255, 255, 255, 255, 255, 255, 255]);
    assert_eq!(HistogramDataPoint::from_bytes(&body), Ok(point));
}

fn unknown_fields() -> Vec<Vec<u8>> {
    vec![
        vec![0xc0, 0x3e, 0x01],                     // 1000: varint
        vec![0xc1, 0x3e, 1, 2, 3, 4, 5, 6, 7, 8],   // 1000: 64 bits
        vec![0xc2, 0x3e, 3, 0xff, 0xfe, 0xfd],      // 1000: run, not text
        vec![0xc2, 0x3e, 0],                        // 1000: empty run
        vec![0xc5, 0x3e, 1, 2, 3, 4],               // 1000: 32 bits
        vec![0x00, 0x05],                           // 0: varint
        vec![0xf8, 0xff, 0xff, 0xff, 0x7f, 0x05],   // the largest number
    ]
}

#[test]
fn a_field_of_no_member_is_passed_over() {
    let request = metrics_request();
    for extra in unknown_fields() {
        let mut body = request.to_bytes();
        body.extend_from_slice(&extra);
        assert_eq!(
            ExportMetricsServiceRequest::from_bytes(&body),
            Ok(request.clone())
        );
        let mut body = extra.clone();
        body.extend_from_slice(&request.to_bytes());
        assert_eq!(
            ExportMetricsServiceRequest::from_bytes(&body),
            Ok(request.clone())
        );
    }
    let logs = logs_request();
    let trace = trace_request();
    let kv = pair("k", text("v"));
    for extra in unknown_fields() {
        let mut body = logs.to_bytes();
        body.extend_from_slice(&extra);
        assert_eq!(ExportLogsServiceRequest::from_bytes(&body), Ok(logs.clone()));
        let mut body = trace.to_bytes();
        body.extend_from_slice(&extra);
        assert_eq!(ExportTraceServiceRequest::from_bytes(&body), Ok(trace.clone()));
        let mut body = kv.to_bytes();
        body.extend_from_slice(&extra);
        assert_eq!(KeyValue::from_bytes(&body), Ok(kv.clone()));
    }
}

#[test]
fn a_field_of_another_wire_type_is_passed_over() {
    // the key of a pair as a varint, its value as 64 bits
    assert_eq!(KeyValue::from_bytes(&[8, 5]), Ok(KeyValue::default()));
    assert_eq!(
        KeyValue::from_bytes(&[17, 1, 2, 3, 4, 5, 6, 7, 8, 10, 1, 97]),
        Ok(KeyValue {
            key: Cow::from("a"),
            value: None
        })
    );
    // the flags of a log record as a varint
    assert_eq!(LogRecord::from_bytes(&[64, 1]), Ok(LogRecord::default()));
}

#[test]
fn a_later_field_wins() {
    assert_eq!(
        KeyValue::from_bytes(&[10, 1, 97, 10, 1, 98]),
        Ok(KeyValue {
            key: Cow::from("b"),
            value: None
        })
    );
    assert_eq!(
        KeyValue::from_bytes(&[10, 1, 97, 10, 0]),
        Ok(KeyValue::default())
    );
    assert_eq!(
        AnyValue::from_bytes(&[10, 1, 97, 16, 1, 24, 5]),
        Ok(AnyValue {
            value: AnyValueOneOfvalue::int_value(5)
        })
    );
    assert_eq!(
        AnyValue::from_bytes(&[24, 5, 10, 1, 97]),
        Ok(text("a"))
    );
    assert_eq!(
        Status::from_bytes(&[24, 1, 24, 2]),
        Ok(Status {
            message: Cow::from(""),
            code: StatusCode::STATUS_CODE_ERROR
        })
    );
    // an optional message is replaced, not merged
    assert_eq!(
        KeyValue::from_bytes(&[18, 3, 10, 1, 97, 18, 0]),
        Ok(KeyValue {
            key: Cow::from(""),
            value: Some(AnyValue::default())
        })
    );
}

#[test]
fn repeated_fields_come_in_the_order_of_the_bytes() {
    let list = ArrayValue::from_bytes(&[10, 2, 24, 1, 96, 0, 10, 2, 24, 2, 10, 2, 24, 3])
        .expect("decode");
    let values: Vec<AnyValueOneOfvalue> = list.values.into_iter().map(|v| v.value).collect();
    assert_eq!(
        values,
        vec![
            AnyValueOneOfvalue::int_value(1),
            AnyValueOneOfvalue::int_value(2),
            AnyValueOneOfvalue::int_value(3)
        ]
    );
}

#[test]
fn repeated_numbers_are_read_packed_or_one_by_one() {
    let expected = ExponentialHistogramDataPointBuckets {
        offset: 0,
        bucket_counts: vec![1, 300, 2],
    };
    // one by one, as they are written
    assert_eq!(
        ExponentialHistogramDataPointBuckets::from_bytes(&[16, 1, 16, 172, 2, 16, 2]),
        Ok(expected.clone())
    );
    assert_eq!(expected.to_bytes(), vec![16, 1, 16, 172, 2, 16, 2]);
    // packed
    assert_eq!(
        ExponentialHistogramDataPointBuckets::from_bytes(&[18, 4, 1, 172, 2, 2]),
        Ok(expected.clone())
    );
    // both
    assert_eq!(
        ExponentialHistogramDataPointBuckets::from_bytes(&[16, 1, 18, 2, 172, 2, 16, 2]),
        Ok(expected.clone())
    );
    let expected = HistogramDataPoint {
        bucket_counts: vec![1, 2],
        explicit_bounds: vec![3],
        ..Default::default()
    };
    // packed, as they are written
    let packed = [
        50, 16, 1, 0, 0, 0, 0, 0, 0, 0, 2, 0, 0, 0, 0, 0, 0, 0, 58, 8, 3, 0, 0, 0, 0, 0, 0, 0,
    ];
    assert_eq!(HistogramDataPoint::from_bytes(&packed), Ok(expected.clone()));
    assert_eq!(expected.to_bytes(), packed.to_vec());
    // one by one
    let single = [
        49, 1, 0, 0, 0, 0, 0, 0, 0, 49, 2, 0, 0, 0, 0, 0, 0, 0, 57, 3, 0, 0, 0, 0, 0, 0, 0,
    ];
    assert_eq!(HistogramDataPoint::from_bytes(&single), Ok(expected.clone()));
    // two packed runs
    let two = [
        50, 8, 1, 0, 0, 0, 0, 0, 0, 0, 50, 8, 2, 0, 0, 0, 0, 0, 0, 0, 58, 8, 3, 0, 0, 0, 0, 0, 0,
        0,
    ];
    assert_eq!(HistogramDataPoint::from_bytes(&two), Ok(expected.clone()));
}

#[test]
fn numbers_of_no_variant_give_the_first_variant() {
    assert_eq!(
        Status::from_bytes(&[24, 3]),
        Ok(Status::default())
    );
    assert_eq!(
        Status::from_bytes(&[24, 255, 255, 255, 255, 255, 255, 255, 255, 255, 1]),
        Ok(Status::default())
    );
    assert_eq!(SeverityNumber::from_number(24), SeverityNumber::SEVERITY_NUMBER_FATAL4);
    assert_eq!(SeverityNumber::from_number(25), SeverityNumber::SEVERITY_NUMBER_UNSPECIFIED);
    assert_eq!(SeverityNumber::from_number(-1), SeverityNumber::SEVERITY_NUMBER_UNSPECIFIED);
    assert_eq!(SeverityNumber::SEVERITY_NUMBER_INFO.number(), 9);
    assert_eq!(SeverityNumber::SEVERITY_NUMBER_WARN.number(), 13);
    assert_eq!(SeverityNumber::SEVERITY_NUMBER_ERROR.number(), 17);
    assert_eq!(SpanKind::SPAN_KIND_CONSUMER.number(), 5);
    assert_eq!(SpanKind::from_number(3), SpanKind::SPAN_KIND_CLIENT);
    assert_eq!(StatusCode::from_number(1), StatusCode::STATUS_CODE_OK);
    assert_eq!(
        AggregationTemporality::from_number(2),
        AggregationTemporality::AGGREGATION_TEMPORALITY_CUMULATIVE
    );
    for n in 0..25 {
        assert_eq!(SeverityNumber::from_number(n).number(), n);
    }
    assert_eq!(SeverityNumber::default(), SeverityNumber::SEVERITY_NUMBER_UNSPECIFIED);
}

#[test]
fn signed_numbers_of_32_bits_are_read_in_either_length() {
    for v in [0, 1, -1, 10, (1 << 30) - 1, 1 << 30, -(1 << 30) - 1, i32::MAX, i32::MIN] {
        let expected = ExponentialHistogramDataPointBuckets {
            offset: v,
            bucket_counts: Vec::new(),
        };
        // five bytes at most, as they are written here
        let body = expected.to_bytes();
        assert!(body.len() <= 6);
        assert_eq!(
            ExponentialHistogramDataPointBuckets::from_bytes(&body),
            Ok(expected.clone())
        );
        // extended to 64 bits, as the reference writes the large ones
        let mut reference = Vec::new();
        {
            let mut w = Writer::new(&mut reference);
            w.write_with_tag(8, |w| w.write_sint32(v)).expect("write");
        }
        if v != 0 {
            assert_eq!(
                ExponentialHistogramDataPointBuckets::from_bytes(&reference),
                Ok(expected.clone())
            );
        }
    }
}

#[test]
fn numbers_of_32_bits_keep_their_low_bits() {
    // 2^32 + 5 as the dropped attributes count
    assert_eq!(
        Resource::from_bytes(&[16, 133, 128, 128, 128, 16]),
        Ok(Resource {
            attributes: Vec::new(),
            dropped_attributes_count: 5
        })
    );
}

#[test]
fn malformed_bytes_are_refused() {
    let refused: Vec<Vec<u8>> = vec![
        vec![10],                   // a tag and nothing more
        vec![10, 5, 1],             // a run that claims too much
        vec![0x80],                 // a tag cut short
        vec![10, 0x80],             // a length cut short
        vec![9, 1, 2, 3],           // 64 bits cut short
        vec![13, 1, 2],             // 32 bits cut short
        vec![8],                    // a varint that is missing
        vec![11],                   // wire type 3
        vec![12],                   // wire type 4
        vec![14, 0],                // wire type 6
        vec![15, 0],                // wire type 7
        vec![10, 1, 0xff],          // a key that is not text
        vec![10, 2, 0xc3, 0x28],    // a key that is not text
        vec![10, 3, 0xed, 0xa0, 0x80], // a key that is a surrogate
        vec![18, 2, 10, 5],         // a value that is malformed
        vec![18, 3, 10, 1, 0xff],   // a value whose text is not text
        vec![8, 0x80, 0x80, 0x80, 0x80, 0x80, 0x80, 0x80, 0x80, 0x80, 0x80, 0x01],
    ];
    for bytes in refused {
        assert_eq!(KeyValue::from_bytes(&bytes), Err(Error::InvalidProtobuf));
    }
    assert_eq!(
        ExportMetricsServiceRequest::try_from(&[10, 2, 10, 5][..]),
        Err(Error::InvalidProtobuf)
    );
    assert_eq!(
        ExportLogsServiceRequest::try_from(&[10, 1][..]),
        Err(Error::InvalidProtobuf)
    );
    assert_eq!(
        ExportTraceServiceRequest::try_from(&[0xff][..]),
        Err(Error::InvalidProtobuf)
    );
    assert_eq!(
        HistogramDataPoint::from_bytes(&[50, 7, 1, 2, 3, 4, 5, 6, 7]),
        Err(Error::InvalidProtobuf)
    );
    assert_eq!(
        ExponentialHistogramDataPointBuckets::from_bytes(&[18, 1, 0x80]),
        Err(Error::InvalidProtobuf)
    );
}

#[test]
fn a_request_cut_short_is_refused() {
    let request = metrics_request();
    let body = request.to_bytes();
    for cut in 0..body.len() {
        assert_ne!(
            ExportMetricsServiceRequest::from_bytes(&body[..cut]),
            Ok(request.clone())
        );
    }
    for cut in [1, 3, body.len() - 1] {
        assert_eq!(
            ExportMetricsServiceRequest::from_bytes(&body[..cut]),
            Err(Error::InvalidProtobuf)
        );
    }
}

#[test]
fn framed_messages() {
    let kv = pair("test", text("test"));
    let framed = kv.encode();
    assert_eq!(framed[0] as usize, framed.len() - 1);
    // what follows the message is not read
    let mut more = framed.clone();
    more.extend_from_slice(&[0xff, 0xff]);
    assert_eq!(KeyValue::decode(&more), Ok(kv.clone()));
    // a frame that claims too much
    assert_eq!(
        KeyValue::decode(&framed[..framed.len() - 1]),
        Err(Error::InvalidProtobuf)
    );
    assert_eq!(KeyValue::decode(&[]), Err(Error::InvalidProtobuf));
    assert_eq!(KeyValue::decode(&[0x80]), Err(Error::InvalidProtobuf));
    assert_eq!(KeyValue::decode(&[0]), Ok(KeyValue::default()));
    assert_eq!(KeyValue::decode(&[1, 10]), Err(Error::InvalidProtobuf));
}

#[test]
fn decoded_text_is_borrowed_from_the_bytes() {
    let bytes = pair("key", text("value")).to_bytes();
    let kv = KeyValue::from_bytes(&bytes).expect("decode");
    assert!(matches!(kv.key, Cow::Borrowed("key")));
    let span = Span {
        trace_id: Cow::from(&b"id"[..]),
        ..Default::default()
    };
    let bytes = span.to_bytes();
    let back = Span::from_bytes(&bytes).expect("decode");
    assert!(matches!(back.trace_id, Cow::Borrowed(b"id")));
}

#[test]
fn copies_are_equal() {
    for v in every_kind_of_value() {
        assert_eq!(v.clone(), v);
        let kv = pair("k", v);
        assert_eq!(kv.clone(), kv);
        assert_eq!(kv.clone().to_bytes(), kv.to_bytes());
    }
    let list = KeyValueList {
        values: attributes(),
    };
    assert_eq!(list.clone(), list);
    let array = ArrayValue {
        values: every_kind_of_value(),
    };
    assert_eq!(array.clone(), array);
}

#[test]
fn key_value_as_the_reference_writer_has_it() {
    let mut inner = Vec::new();
    {
        let mut w = Writer::new(&mut inner);
        w.write_with_tag(10, |w| w.write_string("test")).expect("write");
    }
    let mut reference = Vec::new();
    {
        let mut w = Writer::new(&mut reference);
        w.write_with_tag(10, |w| w.write_string("test")).expect("write");
        w.write_with_tag(18, |w| w.write_bytes(&inner)).expect("write");
    }
    assert_eq!(pair("test", text("test")).to_bytes(), reference);
}

#[test]
fn span_as_the_reference_writer_has_it() {
    let span = Span {
        trace_id: Cow::from(&b"trace"[..]),
        name: Cow::from("name"),
        kind: SpanKind::SPAN_KIND_SERVER,
        start_time_unix_nano: 1681339577345243523,
        dropped_attributes_count: 300,
        status: Some(Status {
            message: Cow::from("m"),
            code: StatusCode::STATUS_CODE_OK,
        }),
        ..Default::default()
    };
    let mut status = Vec::new();
    {
        let mut w = Writer::new(&mut status);
        w.write_with_tag(18, |w| w.write_string("m")).expect("write");
        w.write_with_tag(24, |w| w.write_enum(1)).expect("write");
    }
    let mut reference = Vec::new();
    {
        let mut w = Writer::new(&mut reference);
        w.write_with_tag(10, |w| w.write_bytes(b"trace")).expect("write");
        w.write_with_tag(42, |w| w.write_string("name")).expect("write");
        w.write_with_tag(48, |w| w.write_enum(2)).expect("write");
        w.write_with_tag(57, |w| w.write_fixed64(1681339577345243523))
            .expect("write");
        w.write_with_tag(80, |w| w.write_uint32(300)).expect("write");
        w.write_with_tag(122, |w| w.write_bytes(&status)).expect("write");
    }
    assert_eq!(span.to_bytes(), reference);
}

fn reference_reader_walks(body: &[u8]) -> usize {
    let mut reader = BytesReader::from_bytes(body);
    let mut fields = 0;
    while !reader.is_eof() {
        let tag = reader.next_tag(body).expect("tag");
        reader.read_unknown(body, tag).expect("field");
        fields += 1;
    }
    fields
}

#[test]
fn what_is_written_is_fields_to_the_reference_reader() {
    let metrics = metrics_request();
    assert_eq!(
        reference_reader_walks(&metrics.to_bytes()),
        metrics.resource_metrics.len()
    );
    for resource in &metrics.resource_metrics {
        let expected = resource.scope_metrics.len()
            + resource.resource.iter().count()
            + if resource.schema_url.is_empty() { 0 } else { 1 };
        assert_eq!(reference_reader_walks(&resource.to_bytes()), expected);
        for scope in &resource.scope_metrics {
            for metric in &scope.metrics {
                reference_reader_walks(&metric.to_bytes());
            }
        }
    }
    let logs = logs_request();
    assert_eq!(
        reference_reader_walks(&logs.to_bytes()),
        logs.resource_logs.len()
    );
    let trace = trace_request();
    assert_eq!(
        reference_reader_walks(&trace.to_bytes()),
        trace.resource_spans.len()
    );
    for v in every_kind_of_value() {
        let expected = if v.value == AnyValueOneOfvalue::Unset { 0 } else { 1 };
        assert_eq!(reference_reader_walks(&v.to_bytes()), expected);
    }
}

#[test]
fn framed_as_the_reference_reader_has_it() {
    let request = trace_request();
    let framed = request.encode();
    let mut reader = BytesReader::from_bytes(&framed);
    let body = reader.read_bytes(&framed).expect("frame");
    assert!(reader.is_eof());
    assert_eq!(body, &request.to_bytes()[..]);
}

fn decode_and_own(bytes: Vec<u8>) -> ExportTraceServiceRequest<'static> {
    let borrowed = ExportTraceServiceRequest::from_bytes(&bytes).expect("decode");
    borrowed.owned()
}

#[test]
fn an_owned_copy_outlives_the_bytes() {
    let request = trace_request();
    let copy = decode_and_own(request.to_bytes());
    assert_eq!(copy, request);
    let span = &copy.resource_spans[1].scope_spans[1].spans[1];
    assert!(matches!(span.name, Cow::Owned(_)));
    assert!(matches!(span.trace_id, Cow::Owned(_)));
    let metrics = metrics_request();
    let bytes = metrics.to_bytes();
    let borrowed = ExportMetricsServiceRequest::from_bytes(&bytes).expect("decode");
    let copy = borrowed.owned();
    assert_eq!(copy, metrics);
    assert_eq!(copy.to_bytes(), bytes);
    let logs = logs_request();
    assert_eq!(logs.owned(), logs);
    for v in every_kind_of_value() {
        assert_eq!(v.owned(), v);
        assert_eq!(pair("k", v.clone()).owned(), pair("k", v));
    }
}

#[test]
fn a_copy_borrows_what_the_message_borrows() {
    let bytes = trace_request().to_bytes();
    let decoded = ExportTraceServiceRequest::from_bytes(&bytes).expect("decode");
    let copy = decoded.clone();
    assert_eq!(copy, decoded);
    let span = &copy.resource_spans[1].scope_spans[1].spans[1];
    assert!(matches!(span.name, Cow::Borrowed("name")));
    assert!(matches!(span.trace_id, Cow::Borrowed(_)));
    let owned = decoded.owned();
    let copy = owned.clone();
    assert_eq!(copy, owned);
    let span = &copy.resource_spans[1].scope_spans[1].spans[1];
    assert!(matches!(span.name, Cow::Owned(_)));
    assert!(matches!(span.trace_id, Cow::Owned(_)));
    let metrics = metrics_request();
    assert_eq!(metrics.clone(), metrics);
    assert_eq!(metrics.clone().to_bytes(), metrics.to_bytes());
    let logs = logs_request();
    assert_eq!(logs.clone(), logs);
}
