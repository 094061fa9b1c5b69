use otlp_codec::opentelemetry::metrics::{AnyValue, AnyValueOneOfvalue, KeyValue};
use otlp_codec::validation::common::CommonValidate;
use std::borrow::Cow;

#[test]
fn roundtrip_key_value() {
    let any_value = AnyValue {
        value: AnyValueOneOfvalue::string_value(Cow::from("test")),
    };

    let message = KeyValue {
        key: Cow::from("test"),
        value: Some(any_value),
    };
    let out = message.encode();

    let expected: [u8; 15] = [
        14, 10, 4, 116, 101, 115, 116, 18, 6, 10, 4, 116, 101, 115, 116,
    ];

    assert_eq!(&out, &expected[..]);

    let read_message = KeyValue::decode(&out).expect("Cannot read message");
    assert_eq!(message, read_message);
    message.validate().expect("validation failed");
}
