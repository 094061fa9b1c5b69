use otlp_codec::error::{Error, UnexpectedParse, UrlParseError};
use otlp_codec::opentelemetry::common::{
    AnyValue, AnyValueOneOfvalue, ArrayValue, InstrumentationScope, KeyValue, KeyValueList,
    Resource,
};
use otlp_codec::opentelemetry::logs::{
    ExportLogsServiceRequest, LogRecord, ResourceLogs, ScopeLogs, SeverityNumber,
};
use otlp_codec::opentelemetry::metrics::{
    Exemplar, ExemplarOneOfvalue, ExponentialHistogram, ExponentialHistogramDataPoint,
    ExponentialHistogramDataPointBuckets, ExportMetricsServiceRequest, Gauge, Histogram,
    HistogramDataPoint, Metric, MetricOneOfdata, NumberDataPoint, NumberDataPointOneOfvalue,
    ResourceMetrics, ScopeMetrics, Sum, Summary, SummaryDataPoint,
    SummaryDataPointValueAtQuantile,
};
use otlp_codec::opentelemetry::trace::{
    ExportTraceServiceRequest, ResourceSpans, ScopeSpans, Span, SpanEvent, SpanLink, Status,
};
use otlp_codec::schema_url::{check_schema_url, judge_schema_url, url_error_text};
use otlp_codec::validation::common::CommonValidate;
use otlp_codec::validation::logs::LogValidate;
use otlp_codec::validation::metrics::MetricValidate;
use otlp_codec::validation::trace::TraceValidate;
use std::borrow::Cow;

fn metric(name: &'static str) -> Metric<'static> {
    Metric {
        name: Cow::from(name),
        ..Default::default()
    }
}

fn scope_metrics(url: &'static str, names: &[&'static str]) -> ScopeMetrics<'static> {
    ScopeMetrics {
        scope: Some(InstrumentationScope::default()),
        metrics: names.iter().map(|n| metric(n)).collect(),
        schema_url: Cow::from(url),
    }
}

fn resource_metrics(url: &'static str, scopes: Vec<ScopeMetrics<'static>>) -> ResourceMetrics<'static> {
    ResourceMetrics {
        resource: Some(Resource::default()),
        scope_metrics: scopes,
        schema_url: Cow::from(url),
    }
}

#[test]
fn schema_urls() {
    assert_eq!(check_schema_url(""), Ok(()));
    assert_eq!(check_schema_url("https://some_url.com"), Ok(()));
    assert_eq!(
        check_schema_url("https://opentelemetry.io/schemas/1.18.0"),
        Ok(())
    );
    assert_eq!(check_schema_url("ecto://ffs_postgres"), Ok(()));
    assert_eq!(check_schema_url("mailto:someone@example.com"), Ok(()));
    assert_eq!(
        check_schema_url("https://"),
        Err(Error::UrlParse(UrlParseError::EmptyHost))
    );
    assert_eq!(
        check_schema_url("opentelemetry.io/schemas/1.18.0"),
        Err(Error::UrlParse(UrlParseError::RelativeUrlWithoutBase))
    );
    assert_eq!(
        check_schema_url(" "),
        Err(Error::UrlParse(UrlParseError::RelativeUrlWithoutBase))
    );
    assert_eq!(
        check_schema_url("https://example.com:99999999"),
        Err(Error::UrlParse(UrlParseError::InvalidPort))
    );
    assert_eq!(
        check_schema_url("https://[::zz]"),
        Err(Error::UrlParse(UrlParseError::InvalidIpv6Address))
    );
    assert_eq!(
        check_schema_url("https://exa mple.com"),
        Err(Error::UrlParse(UrlParseError::IdnaError))
    );
}

#[test]
fn schema_url_verdict_from_the_parser_outcome() {
    assert_eq!(judge_schema_url(true, None), Ok(()));
    assert_eq!(
        judge_schema_url(true, Some(UrlParseError::EmptyHost)),
        Ok(())
    );
    assert_eq!(judge_schema_url(false, None), Ok(()));
    assert_eq!(
        judge_schema_url(false, Some(UrlParseError::EmptyHost)),
        Err(Error::UrlParse(UrlParseError::EmptyHost))
    );
    assert_eq!(
        judge_schema_url(false, Some(UrlParseError::Overflow)),
        Err(Error::UrlParse(UrlParseError::Overflow))
    );
}

#[test]
fn url_error_texts_are_those_of_the_parser() {
    for input in [
        "https://",
        "relative",
        "https://example.com:99999999",
        "https://[::zz]",
        "https://exa mple.com",
    ] {
        let reference = url::Url::parse(input).expect_err("refused").to_string();
        let ours = check_schema_url(input).expect_err("refused");
        assert_eq!(ours.to_string(), reference);
    }
    assert_eq!(url_error_text(UrlParseError::EmptyHost), "empty host");
    assert_eq!(
        url_error_text(UrlParseError::IdnaError),
        url::ParseError::IdnaError.to_string()
    );
    assert_eq!(
        url_error_text(UrlParseError::InvalidIpv4Address),
        url::ParseError::InvalidIpv4Address.to_string()
    );
    assert_eq!(
        url_error_text(UrlParseError::RelativeUrlWithCannotBeABaseBase),
        url::ParseError::RelativeUrlWithCannotBeABaseBase.to_string()
    );
    assert_eq!(
        url_error_text(UrlParseError::SetHostOnCannotBeABaseUrl),
        url::ParseError::SetHostOnCannotBeABaseUrl.to_string()
    );
    assert_eq!(
        url_error_text(UrlParseError::Overflow),
        url::ParseError::Overflow.to_string()
    );
    assert_eq!(
        url_error_text(UrlParseError::Unrecognized),
        "unrecognized URL parse error"
    );
}

#[test]
fn url_error_texts_by_refusal() {
    let table = [
        (UrlParseError::EmptyHost, url::ParseError::EmptyHost, "empty host"),
        (
            UrlParseError::IdnaError,
            url::ParseError::IdnaError,
            "invalid international domain name",
        ),
        (
            UrlParseError::InvalidPort,
            url::ParseError::InvalidPort,
            "invalid port number",
        ),
        (
            UrlParseError::InvalidIpv4Address,
            url::ParseError::InvalidIpv4Address,
            "invalid IPv4 address",
        ),
        (
            UrlParseError::InvalidIpv6Address,
            url::ParseError::InvalidIpv6Address,
            "invalid IPv6 address",
        ),
        (
            UrlParseError::InvalidDomainCharacter,
            url::ParseError::InvalidDomainCharacter,
            "invalid domain character",
        ),
        (
            UrlParseError::RelativeUrlWithoutBase,
            url::ParseError::RelativeUrlWithoutBase,
            "relative URL without a base",
        ),
        (
            UrlParseError::RelativeUrlWithCannotBeABaseBase,
            url::ParseError::RelativeUrlWithCannotBeABaseBase,
            "relative URL with a cannot-be-a-base base",
        ),
        (
            UrlParseError::SetHostOnCannotBeABaseUrl,
            url::ParseError::SetHostOnCannotBeABaseUrl,
            "a cannot-be-a-base URL doesn\u{2019}t have a host to set",
        ),
        (
            UrlParseError::Overflow,
            url::ParseError::Overflow,
            "URLs more than 4 GB are not supported",
        ),
    ];
    for (ours, reference, text) in table {
        assert_eq!(url_error_text(ours), text);
        assert_eq!(reference.to_string(), text);
        assert_eq!(Error::UrlParse(ours).to_string(), text);
    }
}

#[test]
fn other_error_texts() {
    assert_eq!(Error::InvalidProtobuf.to_string(), "invalid wire format");
    assert_eq!(Error::Other("something".to_string()).to_string(), "something");
    assert_eq!(Error::EmptyLabelValue.to_string(), "empty label value");
    assert_eq!(
        Error::UrlParse(UrlParseError::EmptyHost).to_string(),
        "empty host"
    );
}

#[test]
fn one_invalid_resource_among_several() {
    for at in 0..4 {
        let mut resources = Vec::new();
        for i in 0..4 {
            let url = if i == at { "https://" } else { "https://some_url.com" };
            resources.push(resource_metrics(
                url,
                vec![scope_metrics("https://some_url.com", &["a", "b"])],
            ));
        }
        let request = ExportMetricsServiceRequest {
            resource_metrics: resources,
        };
        match request.validate() {
            Err(e) => {
                assert_eq!(e, Error::UrlParse(UrlParseError::EmptyHost));
                assert_eq!(e.to_string(), "empty host");
            }
            Ok(_) => panic!("Validation should failed"),
        }
    }
}

#[test]
fn one_invalid_scope_among_several() {
    for at in 0..3 {
        let mut scopes = Vec::new();
        for i in 0..3 {
            let url = if i == at { "https://[::zz]" } else { "" };
            scopes.push(scope_metrics(url, &["a"]));
        }
        let request = ExportMetricsServiceRequest {
            resource_metrics: vec![resource_metrics("", Vec::new()), resource_metrics("", scopes)],
        };
        assert_eq!(
            request.validate(),
            Err(Error::UrlParse(UrlParseError::InvalidIpv6Address))
        );
    }
}

#[test]
fn one_invalid_metric_name_among_several() {
    let names: [&[&'static str]; 3] = [&["9a", "b", "c"], &["a", "9b", "c"], &["a", "b", "9c"]];
    for list in names {
        let request = ExportMetricsServiceRequest {
            resource_metrics: vec![resource_metrics("", vec![scope_metrics("", list)])],
        };
        assert_eq!(
            request.validate(),
            Err(Error::Parse(UnexpectedParse::Unexpected))
        );
    }
}

#[test]
fn the_first_fault_in_the_order_of_the_walk_is_returned() {
    // metrics come before the schema URL of their scope
    let scope = scope_metrics("https://", &["a", ""]);
    assert_eq!(scope.validate(), Err(Error::Parse(UnexpectedParse::Eoi)));
    // scopes come before the schema URL of their resource
    let resource = resource_metrics("relative", vec![scope_metrics("https://", &["a"])]);
    assert_eq!(
        resource.validate(),
        Err(Error::UrlParse(UrlParseError::EmptyHost))
    );
    // an earlier item comes before a later one
    let request = ExportMetricsServiceRequest {
        resource_metrics: vec![
            resource_metrics("", Vec::new()),
            resource_metrics("relative", Vec::new()),
            resource_metrics("https://", Vec::new()),
        ],
    };
    assert_eq!(
        request.validate(),
        Err(Error::UrlParse(UrlParseError::RelativeUrlWithoutBase))
    );
    // an earlier metric comes before a later one
    let scope = scope_metrics("", &["a", "", "9"]);
    assert_eq!(scope.validate(), Err(Error::Parse(UnexpectedParse::Eoi)));
    let scope = scope_metrics("", &["a", "9", ""]);
    assert_eq!(
        scope.validate(),
        Err(Error::Parse(UnexpectedParse::Unexpected))
    );
}

#[test]
fn empty_requests_are_valid() {
    assert_eq!(ExportMetricsServiceRequest::default().validate(), Ok(()));
    assert_eq!(ExportLogsServiceRequest::default().validate(), Ok(()));
    assert_eq!(ExportTraceServiceRequest::default().validate(), Ok(()));
    assert_eq!(ResourceMetrics::default().validate(), Ok(()));
    assert_eq!(ScopeMetrics::default().validate(), Ok(()));
    assert_eq!(ResourceLogs::default().validate(), Ok(()));
    assert_eq!(ScopeLogs::default().validate(), Ok(()));
    assert_eq!(ResourceSpans::default().validate(), Ok(()));
    assert_eq!(ScopeSpans::default().validate(), Ok(()));
}

#[test]
fn a_metric_without_a_name_is_invalid() {
    assert_eq!(
        Metric::default().validate(),
        Err(Error::Parse(UnexpectedParse::Eoi))
    );
}

#[test]
fn logs_are_validated_by_their_schema_urls() {
    let good = ExportLogsServiceRequest {
        resource_logs: vec![ResourceLogs {
            resource: None,
            scope_logs: vec![ScopeLogs {
                scope: None,
                log_records: vec![LogRecord {
                    severity_number: SeverityNumber::SEVERITY_NUMBER_FATAL4,
                    ..Default::default()
                }],
                schema_url: Cow::from("https://opentelemetry.io/schemas/1.18.0"),
            }],
            schema_url: Cow::from(""),
        }],
    };
    assert_eq!(good.validate(), Ok(()));
    let mut bad_scope = good.clone();
    bad_scope.resource_logs[0].scope_logs[0].schema_url = Cow::from("https://");
    assert_eq!(
        bad_scope.validate(),
        Err(Error::UrlParse(UrlParseError::EmptyHost))
    );
    let mut bad_resource = good.clone();
    bad_resource.resource_logs[0].schema_url = Cow::from("x");
    assert_eq!(
        bad_resource.validate(),
        Err(Error::UrlParse(UrlParseError::RelativeUrlWithoutBase))
    );
    let mut both = bad_scope.clone();
    both.resource_logs[0].schema_url = Cow::from("x");
    assert_eq!(
        both.validate(),
        Err(Error::UrlParse(UrlParseError::EmptyHost))
    );
    assert_eq!(
        bad_scope.resource_logs[0].scope_logs[0].log_records[0].validate(),
        Ok(())
    );
}

#[test]
fn traces_are_validated_by_their_schema_urls() {
    let good = ExportTraceServiceRequest {
        resource_spans: vec![
            ResourceSpans::default(),
            ResourceSpans {
                resource: None,
                scope_spans: vec![
                    ScopeSpans::default(),
                    ScopeSpans {
                        scope: None,
                        spans: vec![Span {
                            events: vec![SpanEvent::default()],
                            links: vec![SpanLink::default()],
                            status: Some(Status::default()),
                            ..Default::default()
                        }],
                        schema_url: Cow::from("https://some_url.com"),
                    },
                ],
                schema_url: Cow::from("https://some_url.com"),
            },
        ],
    };
    assert_eq!(good.validate(), Ok(()));
    let mut bad_scope = good.clone();
    bad_scope.resource_spans[1].scope_spans[1].schema_url = Cow::from("https://");
    assert_eq!(
        bad_scope.validate(),
        Err(Error::UrlParse(UrlParseError::EmptyHost))
    );
    assert_eq!(
        bad_scope.resource_spans[1].validate(),
        Err(Error::UrlParse(UrlParseError::EmptyHost))
    );
    assert_eq!(bad_scope.resource_spans[0].validate(), Ok(()));
    assert_eq!(
        bad_scope.resource_spans[1].scope_spans[1].spans[0].validate(),
        Ok(())
    );
    let mut bad_resource = good.clone();
    bad_resource.resource_spans[1].schema_url = Cow::from("https://exa mple.com");
    assert_eq!(
        bad_resource.validate(),
        Err(Error::UrlParse(UrlParseError::IdnaError))
    );
}

#[test]
fn values_without_rules_are_valid() {
    let nested = AnyValue {
        value: AnyValueOneOfvalue::array_value(ArrayValue {
            values: vec![
                AnyValue {
                    value: AnyValueOneOfvalue::kvlist_value(KeyValueList {
                        values: vec![KeyValue {
                            key: Cow::from(""),
                            value: None,
                        }],
                    }),
                },
                AnyValue::default(),
            ],
        }),
    };
    assert_eq!(nested.validate(), Ok(()));
    assert_eq!(nested.value.validate(), Ok(()));
    let kv = KeyValue {
        key: Cow::from("not checked: \u{0}"),
        value: Some(nested),
    };
    assert_eq!(kv.validate(), Ok(()));
    assert_eq!(
        Resource {
            attributes: vec![kv.clone()],
            dropped_attributes_count: 1
        }
        .validate(),
        Ok(())
    );
    assert_eq!(
        InstrumentationScope {
            attributes: vec![kv.clone()],
            ..Default::default()
        }
        .validate(),
        Ok(())
    );
    assert_eq!(ArrayValue::default().validate(), Ok(()));
    assert_eq!(Status::default().validate(), Ok(()));
    assert_eq!(SpanEvent::default().validate(), Ok(()));
    assert_eq!(SpanLink::default().validate(), Ok(()));
}

#[test]
fn metric_data_without_rules_is_valid() {
    let exemplar = Exemplar {
        value: ExemplarOneOfvalue::as_double(1.5_f64.to_bits()),
        ..Default::default()
    };
    let number = NumberDataPoint {
        exemplars: vec![exemplar.clone()],
        value: NumberDataPointOneOfvalue::as_int(-1),
        ..Default::default()
    };
    // bucket counts and bounds that do not fit each other are not looked at
    let histogram = HistogramDataPoint {
        bucket_counts: vec![1],
        explicit_bounds: vec![3.0_f64.to_bits(), 2.0_f64.to_bits(), 1.0_f64.to_bits()],
        exemplars: vec![exemplar.clone()],
        ..Default::default()
    };
    let exponential = ExponentialHistogramDataPoint {
        positive: Some(ExponentialHistogramDataPointBuckets {
            offset: -3,
            bucket_counts: vec![u64::MAX],
        }),
        negative: Some(ExponentialHistogramDataPointBuckets::default()),
        ..Default::default()
    };
    let summary = SummaryDataPoint {
        quantile_values: vec![SummaryDataPointValueAtQuantile {
            quantile: 2.0_f64.to_bits(),
            value: f64::NAN.to_bits(),
        }],
        ..Default::default()
    };
    assert_eq!(exemplar.validate(), Ok(()));
    assert_eq!(exemplar.value.validate(), Ok(()));
    assert_eq!(number.validate(), Ok(()));
    assert_eq!(number.value.validate(), Ok(()));
    assert_eq!(histogram.validate(), Ok(()));
    assert_eq!(exponential.validate(), Ok(()));
    assert_eq!(summary.validate(), Ok(()));
    assert_eq!(summary.quantile_values[0].validate(), Ok(()));
    let data = [
        MetricOneOfdata::gauge(Gauge {
            data_points: vec![number.clone()],
        }),
        MetricOneOfdata::sum(Sum {
            data_points: vec![number.clone()],
            ..Default::default()
        }),
        MetricOneOfdata::histogram(Histogram {
            data_points: vec![histogram.clone()],
            ..Default::default()
        }),
        MetricOneOfdata::exponential_histogram(ExponentialHistogram {
            data_points: vec![exponential.clone()],
            ..Default::default()
        }),
        MetricOneOfdata::summary(Summary {
            data_points: vec![summary.clone()],
        }),
        MetricOneOfdata::Unset,
    ];
    for d in data {
        let m = Metric {
            name: Cow::from("m"),
            description: Cow::from(""),
            unit: Cow::from("1"),
            data: d,
        };
        assert_eq!(m.validate(), Ok(()));
    }
}
