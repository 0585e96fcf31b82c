//! The relay's address.

use crate::error::HarnessError;
use vstd::prelude::*;

verus! {

/// An absolute URL as the `url` crate holds it, carried through unread.
#[verifier::external_type_specification]
#[verifier::external_body]
pub struct ExUrl(url::Url);

/// What `url::Url::parse` makes of a text: the URL, or the parser's error.
pub uninterp spec fn parsed_url(input: Seq<char>) -> Result<url::Url, url::ParseError>;

/// Parses `input` by `url::Url::parse`. The contract is taken on trust: the
/// parser reads nothing but its input, so one text always gives one result,
/// which [`parsed_url`] names. Which texts are URLs is left to the parser.
#[verifier::external_body]
fn parse_url(input: &str) -> (parsed: Result<url::Url, url::ParseError>)
    ensures
        parsed == parsed_url(input@),
{
    url::Url::parse(input)
}

/// What the harness makes of the parser's result: the URL untouched, or the
/// parser's error as the cause of an invalid address.
pub open spec fn relay_read(parsed: Result<url::Url, url::ParseError>) -> Result<
    url::Url,
    HarnessError,
> {
    match parsed {
        Ok(url) => Ok(url),
        Err(cause) => Err(HarnessError::InvalidRelayUrl(cause)),
    }
}

/// What [`parse_relay`] returns for each result of the parser: the URL
/// untouched, or the parser's error as the cause of an invalid address.
pub fn relay_from(parsed: Result<url::Url, url::ParseError>) -> (relay: Result<
    url::Url,
    HarnessError,
>)
    ensures
        relay == relay_read(parsed),
{
    match parsed {
        Ok(url) => Ok(url),
        Err(cause) => Err(HarnessError::InvalidRelayUrl(cause)),
    }
}

/// Reads the relay's address. An address that is no absolute URL ends the
/// invocation with [`HarnessError::InvalidRelayUrl`].
pub fn parse_relay(relay: &str) -> (parsed: Result<url::Url, HarnessError>)
    ensures
        parsed == relay_read(parsed_url(relay@)),
{
    relay_from(parse_url(relay))
}

} // verus!
