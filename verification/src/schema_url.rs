//! Schema URLs: empty, or an absolute URL.

use crate::error::{Error, UrlParseError};
use vstd::prelude::*;

verus! {

/// What `url::Url::parse` makes of `input`: `None` where it parses as an
/// absolute URL, else the reason why it does not.
pub uninterp spec fn url_parse_error(input: Seq<char>) -> Option<UrlParseError>;

/// `url::Url::parse`: whether `input` is an absolute URL and, where it is
/// not, the variant of `url::ParseError` that the parser gave. The parsed
/// URL itself is dropped.
#[verifier::external_body]
fn parse_url(input: &str) -> (r: Option<UrlParseError>)
    ensures
        r == url_parse_error(input@),
{
    match url::Url::parse(input) {
        Ok(_) => None,
        Err(url::ParseError::EmptyHost) => Some(UrlParseError::EmptyHost),
        Err(url::ParseError::IdnaError) => Some(UrlParseError::IdnaError),
        Err(url::ParseError::InvalidPort) => Some(UrlParseError::InvalidPort),
        Err(url::ParseError::InvalidIpv4Address) => Some(UrlParseError::InvalidIpv4Address),
        Err(url::ParseError::InvalidIpv6Address) => Some(UrlParseError::InvalidIpv6Address),
        Err(url::ParseError::InvalidDomainCharacter) => Some(UrlParseError::InvalidDomainCharacter),
        Err(url::ParseError::RelativeUrlWithoutBase) => Some(UrlParseError::RelativeUrlWithoutBase),
        Err(url::ParseError::RelativeUrlWithCannotBeABaseBase) => Some(UrlParseError::RelativeUrlWithCannotBeABaseBase),
        Err(url::ParseError::SetHostOnCannotBeABaseUrl) => Some(UrlParseError::SetHostOnCannotBeABaseUrl),
        Err(url::ParseError::Overflow) => Some(UrlParseError::Overflow),
        Err(_) => Some(UrlParseError::Unrecognized),
    }
}

/// The text that says why a schema URL was refused. For the ten refusals of
/// the parser it is the text that `url::ParseError` displays; for a refusal
/// that the list of `UrlParseError` does not know, a text of this library.
pub open spec fn url_error_text_of(e: UrlParseError) -> Seq<char> {
    match e {
        UrlParseError::EmptyHost => "empty host"@,
        UrlParseError::IdnaError => "invalid international domain name"@,
        UrlParseError::InvalidPort => "invalid port number"@,
        UrlParseError::InvalidIpv4Address => "invalid IPv4 address"@,
        UrlParseError::InvalidIpv6Address => "invalid IPv6 address"@,
        UrlParseError::InvalidDomainCharacter => "invalid domain character"@,
        UrlParseError::RelativeUrlWithoutBase => "relative URL without a base"@,
        UrlParseError::RelativeUrlWithCannotBeABaseBase => "relative URL with a cannot-be-a-base base"@,
        UrlParseError::SetHostOnCannotBeABaseUrl => "a cannot-be-a-base URL doesn\u{2019}t have a host to set"@,
        UrlParseError::Overflow => "URLs more than 4 GB are not supported"@,
        UrlParseError::Unrecognized => "unrecognized URL parse error"@,
    }
}

/// `Display` of `url::ParseError`: the text that the parser's table gives
/// for the variant that `e` stands for, and `None` for a refusal that the
/// list of `UrlParseError` does not know.
#[verifier::external_body]
fn parser_text(e: UrlParseError) -> (r: Option<String>)
    ensures
        match r {
            Some(text) => !(e is Unrecognized) && text@ == url_error_text_of(e),
            None => e is Unrecognized,
        },
{
    let outside = match e {
        UrlParseError::EmptyHost => url::ParseError::EmptyHost,
        UrlParseError::IdnaError => url::ParseError::IdnaError,
        UrlParseError::InvalidPort => url::ParseError::InvalidPort,
        UrlParseError::InvalidIpv4Address => url::ParseError::InvalidIpv4Address,
        UrlParseError::InvalidIpv6Address => url::ParseError::InvalidIpv6Address,
        UrlParseError::InvalidDomainCharacter => url::ParseError::InvalidDomainCharacter,
        UrlParseError::RelativeUrlWithoutBase => url::ParseError::RelativeUrlWithoutBase,
        UrlParseError::RelativeUrlWithCannotBeABaseBase => url::ParseError::RelativeUrlWithCannotBeABaseBase,
        UrlParseError::SetHostOnCannotBeABaseUrl => url::ParseError::SetHostOnCannotBeABaseUrl,
        UrlParseError::Overflow => url::ParseError::Overflow,
        UrlParseError::Unrecognized => return None,
    };
    Some(outside.to_string())
}

/// The text that says why a schema URL was refused.
pub fn url_error_text(e: UrlParseError) -> (r: String)
    ensures
        r@ == url_error_text_of(e),
{
    match parser_text(e) {
        Some(text) => text,
        None => "unrecognized URL parse error".to_owned(),
    }
}

/// The verdict on a schema URL, given what the parser made of it: an empty
/// one is in order whatever the parser says, another one is in order where
/// the parser accepted it.
pub open spec fn schema_url_verdict_of(empty: bool, parsed: Option<UrlParseError>) -> Result<
    (),
    Error,
> {
    if empty {
        Ok(())
    } else {
        match parsed {
            None => Ok(()),
            Some(e) => Err(Error::UrlParse(e)),
        }
    }
}

/// The verdict on a schema URL.
pub open spec fn schema_url_verdict(url: Seq<char>) -> Result<(), Error> {
    schema_url_verdict_of(url.len() == 0, url_parse_error(url))
}

/// The verdict on a schema URL, from whether it is empty and what the
/// parser made of it.
pub fn judge_schema_url(empty: bool, parsed: Option<UrlParseError>) -> (r: Result<(), Error>)
    ensures
        r == schema_url_verdict_of(empty, parsed),
{
    if empty {
        return Ok(());
    }
    match parsed {
        None => Ok(()),
        Some(e) => Err(Error::UrlParse(e)),
    }
}

/// Checks a schema URL: empty, or an absolute URL.
pub fn check_schema_url(url: &str) -> (r: Result<(), Error>)
    ensures
        r == schema_url_verdict(url@),
{
    if url.is_empty() {
        judge_schema_url(true, None)
    } else {
        judge_schema_url(false, parse_url(url))
    }
}

} // verus!
