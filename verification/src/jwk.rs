//! Signing keys as a key endpoint serves them, and what one request to the
//! endpoint comes to.

use crate::header_parser::{get_max_age, max_age_in};
use vstd::prelude::*;

verus! {

/// Seconds for which a key set is good when the response names no lifetime.
pub const DEFAULT_TIMEOUT: u64 = 60;

/// One public signing key. All fields are kept as the endpoint wrote them;
/// `n` and `e` are the RSA modulus and exponent in base64url.
#[derive(Debug, PartialEq, Eq, Clone)]
pub struct Jwk {
    pub e: String,
    pub alg: String,
    pub kty: String,
    pub kid: String,
    pub n: String,
    /// What the key is declared to be for; `sig` for a signing key.
    pub key_use: String,
}

/// The body of a response from the key endpoint.
#[derive(Debug, PartialEq, Eq, Clone)]
pub struct KeyResponse {
    pub keys: Vec<Jwk>,
}

/// The keys of one fetch and the number of seconds for which they are good.
#[derive(Debug, PartialEq, Eq, Clone)]
pub struct Jwks {
    pub keys: Vec<Jwk>,
    pub validity: u64,
}

/// Why a fetch gave no keys. Each variant holds the transport's own account
/// of what went wrong.
#[derive(Debug, PartialEq, Eq, Clone)]
pub enum KeyFetchError {
    /// The request did not reach the endpoint, or no response came back.
    RequestError(String),
    /// A response came back, but its body is not a key set.
    ResponseBodyError(String),
}

/// What came of one request to the key endpoint.
#[derive(Debug, PartialEq, Eq, Clone)]
pub enum FetchReply {
    /// The request failed on the way.
    Unreachable(String),
    /// A response arrived whose body could not be read as a key set.
    Unreadable(String),
    /// A response arrived with a key set in its body, and with this
    /// `Cache-Control` header if it had one.
    Received { cache_control: Option<String>, body: KeyResponse },
}

/// Where the keys are fetched from.
#[derive(Debug, PartialEq, Eq, Clone)]
pub struct JwkFetcher {
    pub url: String,
}

/// The seconds for which keys are good that came with this `Cache-Control`
/// header: its max-age, and `DEFAULT_TIMEOUT` where there is no header or the
/// header grants none.
pub open spec fn validity_of(cache_control: Option<String>) -> u64 {
    match cache_control {
        Some(header) => match max_age_in(header@) {
            Some(seconds) => seconds,
            None => DEFAULT_TIMEOUT,
        },
        None => DEFAULT_TIMEOUT,
    }
}

/// What the fetcher hands on for a reply: the keys with their lifetime, or
/// the error that belongs to the way the request failed.
pub open spec fn keys_of_reply(reply: FetchReply) -> Result<Jwks, KeyFetchError> {
    match reply {
        FetchReply::Unreachable(detail) => Err(KeyFetchError::RequestError(detail)),
        FetchReply::Unreadable(detail) => Err(KeyFetchError::ResponseBodyError(detail)),
        FetchReply::Received { cache_control, body } => Ok(
            Jwks { keys: body.keys, validity: validity_of(cache_control) },
        ),
    }
}

impl JwkFetcher {
    /// A fetcher for the endpoint at `url`.
    pub fn new(url: String) -> (fetcher: JwkFetcher)
        ensures
            fetcher.url == url,
    {
        JwkFetcher { url }
    }

    /// Reads the reply to one request: a key set with its lifetime where the
    /// response held one, `RequestError` where the request failed, and
    /// `ResponseBodyError` where the body was no key set.
    pub fn fetch_keys(&self, reply: FetchReply) -> (keys: Result<Jwks, KeyFetchError>)
        ensures
            keys == keys_of_reply(reply),
    {
        match reply {
            FetchReply::Unreachable(detail) => Err(KeyFetchError::RequestError(detail)),
            FetchReply::Unreadable(detail) => Err(KeyFetchError::ResponseBodyError(detail)),
            FetchReply::Received { cache_control, body } => {
                let max_age = match &cache_control {
                    Some(header) => get_max_age(header.as_str()),
                    None => None,
                };
                let validity = match max_age {
                    Some(seconds) => seconds,
                    None => DEFAULT_TIMEOUT,
                };
                Ok(Jwks { keys: body.keys, validity })
            },
        }
    }
}

} // verus!
