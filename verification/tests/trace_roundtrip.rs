use otlp_codec::opentelemetry::trace::{
    AnyValue, AnyValueOneOfvalue, ExportTraceServiceRequest, InstrumentationScope, KeyValue,
    Resource, ResourceSpans, ScopeSpans, Span, SpanEvent, SpanKind, SpanLink, Status, StatusCode,
};
use otlp_codec::validation::trace::TraceValidate;
use std::borrow::Cow;

#[test]
fn roundtrip_trace_valid_data() {
    let key_value = KeyValue {
        key: Cow::from("test"),
        value: Some(AnyValue {
            value: AnyValueOneOfvalue::string_value(Cow::from("test")),
        }),
    };

    let logs_data = ExportTraceServiceRequest {
        resource_spans: vec![ResourceSpans {
            resource: Some(Resource {
                attributes: vec![key_value.clone()],
                dropped_attributes_count: 10,
            }),
            scope_spans: vec![ScopeSpans {
                scope: Some(InstrumentationScope {
                    name: Cow::from("test_name"),
                    version: Cow::from("1.2.3"),
                    attributes: vec![key_value.clone()],
                    dropped_attributes_count: 10,
                }),
                spans: vec![Span {
                    trace_id: Cow::from("trace_id".as_bytes()),
                    span_id: Cow::from("span_id".as_bytes()),
                    parent_span_id: Cow::from("parent_span_id".as_bytes()),
                    trace_state: Cow::from("test_state"),
                    name: Cow::from("test_name"),
                    kind: SpanKind::SPAN_KIND_UNSPECIFIED,
                    start_time_unix_nano: 1681339577345243523,
                    end_time_unix_nano: 1681339577345243523,
                    attributes: vec![key_value.clone()],
                    dropped_attributes_count: 10,
                    events: vec![SpanEvent {
                        time_unix_nano: 1681339577345243523,
                        name: Cow::from("test_name"),
                        attributes: vec![key_value.clone()],
                        dropped_attributes_count: 10,
                    }],
                    dropped_events_count: 10,
                    dropped_links_count: 10,
                    links: vec![SpanLink {
                        trace_id: Cow::from("link_trace_id".as_bytes()),
                        span_id: Cow::from("link_span_id".as_bytes()),
                        trace_state: Cow::from("link_test_state"),
                        attributes: vec![key_value.clone()],
                        dropped_attributes_count: 10,
                    }],
                    status: Some(Status {
                        message: Cow::from("test_message"),
                        code: StatusCode::STATUS_CODE_OK,
                    }),
                }],
                schema_url: Cow::from("https://some_url.com"),
            }],
            schema_url: Cow::from("https://some_url.com"),
        }],
    };
    let out = logs_data.encode();

    let expected: [u8; 335] = [
        205, 2, 10, 202, 2, 10, 18, 10, 14, 10, 4, 116, 101, 115, 116, 18, 6, 10, 4, 116, 101,
        115, 116, 16, 10, 18, 157, 2, 10, 36, 10, 9, 116, 101, 115, 116, 95, 110, 97, 109, 101,
        18, 5, 49, 46, 50, 46, 51, 26, 14, 10, 4, 116, 101, 115, 116, 18, 6, 10, 4, 116, 101,
        115, 116, 32, 10, 18, 222, 1, 10, 8, 116, 114, 97, 99, 101, 95, 105, 100, 18, 7, 115,
        112, 97, 110, 95, 105, 100, 26, 10, 116, 101, 115, 116, 95, 115, 116, 97, 116, 101, 34,
        14, 112, 97, 114, 101, 110, 116, 95, 115, 112, 97, 110, 95, 105, 100, 42, 9, 116, 101,
        115, 116, 95, 110, 97, 109, 101, 57, 131, 249, 119, 254, 111, 81, 85, 23, 65, 131, 249,
        119, 254, 111, 81, 85, 23, 74, 14, 10, 4, 116, 101, 115, 116, 18, 6, 10, 4, 116, 101,
        115, 116, 80, 10, 90, 38, 9, 131, 249, 119, 254, 111, 81, 85, 23, 18, 9, 116, 101, 115,
        116, 95, 110, 97, 109, 101, 26, 14, 10, 4, 116, 101, 115, 116, 18, 6, 10, 4, 116, 101,
        115, 116, 32, 10, 96, 10, 106, 64, 10, 13, 108, 105, 110, 107, 95, 116, 114, 97, 99,
        101, 95, 105, 100, 18, 12, 108, 105, 110, 107, 95, 115, 112, 97, 110, 95, 105, 100, 26,
        15, 108, 105, 110, 107, 95, 116, 101, 115, 116, 95, 115, 116, 97, 116, 101, 34, 14, 10,
        4, 116, 101, 115, 116, 18, 6, 10, 4, 116, 101, 115, 116, 40, 10, 112, 10, 122, 16, 18,
        12, 116, 101, 115, 116, 95, 109, 101, 115, 115, 97, 103, 101, 24, 1, 26, 20, 104, 116,
        116, 112, 115, 58, 47, 47, 115, 111, 109, 101, 95, 117, 114, 108, 46, 99, 111, 109, 26,
        20, 104, 116, 116, 112, 115, 58, 47, 47, 115, 111, 109, 101, 95, 117, 114, 108, 46, 99,
        111, 109,
    ];

    assert_eq!(&out, &expected[..]);

    let read_message = ExportTraceServiceRequest::decode(&out).expect("Cannot read message");
    assert_eq!(logs_data, read_message);
    logs_data.validate().expect("validation failed");
}

#[test]
fn roundtrip_trace_real_otlp_request_body() {
    let out: &[u8] = b"\n\xb3\x0b\n\x83\x03\n \n\x15telemetry.sdk.version\x12\x07\n\x051.2.1\n%\n\x12telemetry.sdk.name\x12\x0f\n\ropentelemetry\n\"\n\x16telemetry.sdk.language\x12\x08\n\x06erlang\n$\n\x0cservice.name\x12\x14\n\x12featureflagservice\n8\n\x13service.instance.id\x12!\n\x1ffeatureflagservice@d69d857131ac\n%\n\x17process.runtime.version\x12\n\n\x0811.2.2.8\n\x1e\n\x14process.runtime.name\x12\x06\n\x04BEAM\n<\n\x1bprocess.runtime.description\x12\x1d\n\x1bErlang/OTP 23 erts-11.2.2.8\n/\n\x17process.executable.name\x12\x14\n\x12featureflagservice\x12\x92\x04\n\x1e\n\x15opentelemetry_phoenix\x12\x051.0.0\x12\xef\x03\n\x10\xc4\xce\xa2\"\x12\nVl\xea\xf63E\0\xab\x01(\x12\x08>@\xb3&\xa3)\x08\x97\"\0*\x01/0\x029x\xc4\xb6\xdc[\xc4\x82\x17A9\x90\xcc\xdc[\xc4\x82\x17J=\n\x0cphoenix.plug\x12-\n+Elixir.FeatureflagserviceWeb.PageControllerJ\x19\n\x0ephoenix.action\x12\x07\n\x05indexJ\x19\n\rnet.transport\x12\x08\n\x06IP.TCPJ\x15\n\rnet.peer.port\x12\x04\x18\xb2\x98\x02J\x1a\n\x0bnet.peer.ip\x12\x0b\n\t127.0.0.1J\x14\n\rnet.host.port\x12\x03\x18\x91?J\x1a\n\x0bnet.host.ip\x12\x0b\n\t127.0.0.1J \n\x0fhttp.user_agent\x12\r\n\x0bcurl/7.74.0J\x12\n\x0bhttp.target\x12\x03\n\x01/J\x17\n\x10http.status_code\x12\x03\x18\xc8\x01J\x15\n\x0bhttp.scheme\x12\x06\n\x04httpJ\x11\n\nhttp.route\x12\x03\n\x01/J\x14\n\x0bhttp.method\x12\x05\n\x03GETJ\x18\n\thttp.host\x12\x0b\n\tlocalhostJ\x14\n\x0bhttp.flavor\x12\x05\n\x031.1J\x1d\n\x0ehttp.client_ip\x12\x0b\n\t127.0.0.1z\0\x12\x95\x04\n\x1b\n\x12opentelemetry_ecto\x12\x051.0.0\x12\xf5\x03\n\x10\xc4\xce\xa2\"\x12\nVl\xea\xf63E\0\xab\x01(\x12\x08u\xe5\x7fF\t\xad\xff\x0e\"\x08>@\xb3&\xa3)\x08\x97**featureflagservice.repo.query:featureflags0\x039\xbf$\xbb\xdc[\xc4\x82\x17AN\xef\xc6\xdc[\xc4\x82\x17J\x1e\n\x17total_time_microseconds\x12\x03\x18\xa2\x04J\x18\n\x06source\x12\x0e\n\x0cfeatureflagsJ\x1d\n\x17queue_time_microseconds\x12\x02\x184J\x1e\n\x17query_time_microseconds\x12\x03\x18\xe9\x03J\x1e\n\x16idle_time_microseconds\x12\x04\x18\xf3\xd5#J\x1e\n\x18decode_time_microseconds\x12\x02\x18\x05J\x1f\n\x06db.url\x12\x15\n\x13ecto://ffs_postgresJ\x10\n\x07db.type\x12\x05\n\x03sqlJ\x88\x01\n\x0cdb.statement\x12x\nvSELECT f0.\"id\", f0.\"description\", f0.\"enabled\", f0.\"name\", f0.\"inserted_at\", f0.\"updated_at\" FROM \"featureflags\" AS f0J\x14\n\x0bdb.instance\x12\x05\n\x03ffsz\0";

    ExportTraceServiceRequest::try_from(out)
        .expect("Parsing of trace protobuf failed")
        .validate()
        .expect("Validation of trace protobuf failed");
}
