//! What the input reader fixes before it starts: the limits of its provider
//! and the endpoint it talks to.

use vstd::prelude::*;

verus! {

/// Maximum events allowed to be in a single provider response. If response
/// event number reaches over this number, the request must be split into
/// sub-ranges retried on each of them separately.
pub const MAXIMUM_EVENTS_PER_RESPONSE: usize = 10000;

/// How often the provider retries a request that was rate-limited.
pub const MAX_REQUEST_RETRIES: u32 = 10;

/// The provider's first pause before a retry, in milliseconds.
pub const INITIAL_BACKOFF_MILLIS: u64 = 1000;

/// `url::ParseError`, the reason `url::Url::parse` gives for refusing a text.
/// It is carried along as it came; nothing is claimed of what it holds.
#[verifier::external_type_specification]
#[verifier::external_body]
pub struct ExParseError(url::ParseError);

/// What `url::Url::parse` makes of a text: the serialization of the URL it
/// found, or `None` where it found no absolute URL.
pub uninterp spec fn parsed_url(input: Seq<char>) -> Option<Seq<char>>;

/// Why the endpoint of the provider was refused.
#[derive(Debug)]
pub enum EndpointError {
    /// The text is no absolute URL.
    ParseError { source: url::ParseError },
}

/// Calls `url::Url::parse` on `input` and hands the URL back as its
/// serialization. The parser reads nothing but `input`, so its result is
/// named by `parsed_url`; an error is passed on as it came.
#[verifier::external_body]
fn parse_url(input: &str) -> (result: Result<String, url::ParseError>)
    ensures
        match result {
            Ok(text) => parsed_url(input@) == Some(text@),
            Err(_) => parsed_url(input@) is None,
        },
{
    url::Url::parse(input).map(String::from)
}

/// Turns a parser's answer into the endpoint or the reason it was refused.
pub fn checked_endpoint(parsed: Result<String, url::ParseError>) -> (result: Result<
    String,
    EndpointError,
>)
    ensures
        match parsed {
            Ok(text) => result == Ok::<String, EndpointError>(text),
            Err(cause) => result == Err::<String, EndpointError>(
                EndpointError::ParseError { source: cause },
            ),
        },
{
    match parsed {
        Ok(text) => Ok(text),
        Err(source) => Err(EndpointError::ParseError { source }),
    }
}

/// The URL of the provider's HTTP endpoint, in the form the parser gives it.
/// It is `Ok` exactly where `http_endpoint` is an absolute URL.
pub fn http_endpoint_url(http_endpoint: &str) -> (result: Result<String, EndpointError>)
    ensures
        match result {
            Ok(text) => parsed_url(http_endpoint@) == Some(text@),
            Err(error) => parsed_url(http_endpoint@) is None,
        },
{
    checked_endpoint(parse_url(http_endpoint))
}

} // verus!
