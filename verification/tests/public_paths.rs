use otlp_codec::opentelemetry::common::{KeyValueList, Validate as ValidateCommon};
use otlp_codec::opentelemetry::logs::{ExportLogsServiceRequest, Validate as ValidateLogs};
use otlp_codec::opentelemetry::metrics::{
    ExportMetricsServiceRequest, Gauge, Metric, MetricOneOfdata, Validate as ValidateMetrics,
};
use otlp_codec::opentelemetry::trace::{ExportTraceServiceRequest, Validate as ValidateTrace};
use otlp_codec::Error;
use std::borrow::Cow;

fn check<T: ValidateMetrics>(item: &T) -> Result<(), Error> {
    item.validate()
}

#[test]
fn validation_by_the_family_names() {
    assert_eq!(
        ValidateMetrics::validate(&ExportMetricsServiceRequest::default()),
        Ok(())
    );
    assert_eq!(
        ValidateLogs::validate(&ExportLogsServiceRequest::default()),
        Ok(())
    );
    assert_eq!(
        ValidateTrace::validate(&ExportTraceServiceRequest::default()),
        Ok(())
    );
    assert_eq!(ValidateCommon::validate(&KeyValueList::default()), Ok(()));
}

#[test]
fn validation_behind_a_bound() {
    let named = Metric {
        name: Cow::from("requests_total"),
        data: MetricOneOfdata::gauge(Gauge::default()),
        ..Default::default()
    };
    assert_eq!(check(&named), Ok(()));
    assert_eq!(check(&named.data), Ok(()));
    let unnamed = Metric::default();
    assert!(matches!(check(&unnamed), Err(Error::Parse(_))));
}
