use otlp_codec::error::{Error, UnexpectedParse};
use otlp_codec::name::parse_name;
use otlp_codec::opentelemetry::metrics::{Metric, MetricOneOfdata};
use otlp_codec::validation::metrics::{check_metric_name, MetricValidate};
use std::borrow::Cow;

#[test]
fn names_of_the_grammar_are_accepted() {
    for name in ["name", "_name", "name_1", "a", "_", "A", "Z9", "__", "test_name", "aB_0z"] {
        assert_eq!(parse_name(name.as_bytes()), Ok(()));
    }
}

#[test]
fn names_outside_the_grammar_are_refused() {
    for name in [
        "9name", "na-me", "1", "-", "name ", " name", "na me", "name.x", "na\u{e9}", "\u{e9}",
        "name\0", "a/b", "a:b", "0_", "@", "[", "`", "{",
    ] {
        assert_eq!(
            parse_name(name.as_bytes()),
            Err(UnexpectedParse::Unexpected)
        );
    }
}

#[test]
fn empty_name_is_the_end_of_input() {
    assert_eq!(parse_name(b""), Err(UnexpectedParse::Eoi));
}

#[test]
fn bytes_next_to_the_ranges_are_refused() {
    for b in [0x2fu8, 0x3a, 0x40, 0x5b, 0x5e, 0x60, 0x7b, 0x7f, 0x80, 0xff, 0x00] {
        assert_eq!(parse_name(&[b'a', b]), Err(UnexpectedParse::Unexpected));
        assert_eq!(parse_name(&[b]), Err(UnexpectedParse::Unexpected));
    }
    for b in [0x30u8, 0x39] {
        assert_eq!(parse_name(&[b'a', b]), Ok(()));
        assert_eq!(parse_name(&[b]), Err(UnexpectedParse::Unexpected));
    }
    for b in [0x41u8, 0x5a, 0x5f, 0x61, 0x7a] {
        assert_eq!(parse_name(&[b'a', b]), Ok(()));
        assert_eq!(parse_name(&[b]), Ok(()));
    }
}

#[test]
fn metric_name_errors() {
    assert_eq!(check_metric_name(b"name"), Ok(()));
    assert_eq!(
        check_metric_name(b""),
        Err(Error::Parse(UnexpectedParse::Eoi))
    );
    assert_eq!(
        check_metric_name(b"9name"),
        Err(Error::Parse(UnexpectedParse::Unexpected))
    );
}

fn metric(name: &str) -> Metric<'_> {
    Metric {
        name: Cow::from(name),
        description: Cow::from(""),
        unit: Cow::from("not a unit at all"),
        data: MetricOneOfdata::Unset,
    }
}

#[test]
fn metric_is_validated_by_its_name() {
    for name in ["name", "_name", "name_1"] {
        assert_eq!(metric(name).validate(), Ok(()));
    }
    for name in ["9name", "na-me"] {
        assert_eq!(
            metric(name).validate(),
            Err(Error::Parse(UnexpectedParse::Unexpected))
        );
    }
    assert_eq!(
        metric("").validate(),
        Err(Error::Parse(UnexpectedParse::Eoi))
    );
}

#[test]
fn name_error_texts() {
    assert_eq!(
        Error::Parse(UnexpectedParse::Eoi).to_string(),
        "unexpected end of input"
    );
    assert_eq!(
        Error::Parse(UnexpectedParse::Unexpected).to_string(),
        "unexpected parse"
    );
    assert_eq!(UnexpectedParse::Eoi.to_string(), "unexpected end of input");
}
