//! The errors of decoding and validation.

use crate::schema_url::{url_error_text, url_error_text_of};
use vstd::prelude::*;

verus! {

/// Why a schema URL was refused.
#[derive(Debug, Clone, Copy, PartialEq, Eq)]
pub enum UrlParseError {
    EmptyHost,
    IdnaError,
    InvalidPort,
    InvalidIpv4Address,
    InvalidIpv6Address,
    InvalidDomainCharacter,
    RelativeUrlWithoutBase,
    RelativeUrlWithCannotBeABaseBase,
    SetHostOnCannotBeABaseUrl,
    Overflow,
    /// A refusal that this list does not know.
    Unrecognized,
}

/// Why a metric name was refused: it ended before its first character, or
/// holds a byte that the grammar does not allow at its place.
#[derive(Debug, Clone, Copy, PartialEq, Eq)]
pub enum UnexpectedParse {
    Eoi,
    Unexpected,
}

/// What decoding or validation can fail with.
#[derive(Debug, Clone, PartialEq, Eq)]
pub enum Error {
    /// The bytes are no message of the wire format: a varint without end or
    /// worth more than 64 bits, a length beyond the input, a wire type that
    /// does not exist, or text that is not UTF-8.
    InvalidProtobuf,
    Other(String),
    /// A metric name that does not match `[a-zA-Z_][a-zA-Z0-9_]*`.
    Parse(UnexpectedParse),
    /// A schema URL that is neither empty nor an absolute URL.
    UrlParse(UrlParseError),
    EmptyLabelValue,
}

impl UnexpectedParse {
    /// The text that says what the scan of a name ran into.
    pub open spec fn text(self) -> Seq<char> {
        match self {
            UnexpectedParse::Eoi => "unexpected end of input"@,
            UnexpectedParse::Unexpected => "unexpected parse"@,
        }
    }

    /// The text that says what the scan of a name ran into.
    pub fn to_string(&self) -> (r: String)
        ensures
            r@ == self.text(),
    {
        match self {
            UnexpectedParse::Eoi => "unexpected end of input".to_owned(),
            UnexpectedParse::Unexpected => "unexpected parse".to_owned(),
        }
    }
}

impl Error {
    /// The text of the error, for a reader.
    pub open spec fn text(self) -> Seq<char> {
        match self {
            Error::InvalidProtobuf => "invalid wire format"@,
            Error::Other(text) => text@,
            Error::Parse(e) => e.text(),
            Error::UrlParse(e) => url_error_text_of(e),
            Error::EmptyLabelValue => "empty label value"@,
        }
    }

    /// The text of the error, for a reader.
    pub fn to_string(&self) -> (r: String)
        ensures
            r@ == self.text(),
    {
        match self {
            Error::InvalidProtobuf => "invalid wire format".to_owned(),
            Error::Other(text) => text.clone(),
            Error::Parse(e) => e.to_string(),
            Error::UrlParse(e) => url_error_text(*e),
            Error::EmptyLabelValue => "empty label value".to_owned(),
        }
    }
}

} // verus!
