//! Decoding of bodies and query strings into values, by `serde_json` and
//! `serde_urlencoded`.

use crate::extract::ExtractionError;
use crate::extract::FromJson;
use crate::extract::FromQuery;
use vstd::prelude::*;

verus! {

/// `serde_json::Error`: why a text is not the JSON form of a value.
#[verifier::external_type_specification]
#[verifier::external_body]
pub struct ExJsonError(serde_json::Error);

/// `serde::de::value::Error`: why a query string is not the form of a value.
#[verifier::external_type_specification]
#[verifier::external_body]
pub struct ExFormError(serde::de::value::Error);

/// `serde_json::Deserializer::from_slice`, handed to the type's own
/// `deserialize`: the value that the bytes start with the JSON form of.
/// Nothing is claimed of the result, which is for the type to decide.
#[verifier::external_body]
fn json_from_slice<T: serde::de::DeserializeOwned>(bytes: &[u8]) -> (r: Result<
    T,
    serde_json::Error,
>) {
    T::deserialize(&mut serde_json::Deserializer::from_slice(bytes))
}

/// `serde_urlencoded::from_str`: the value that the text is the
/// `application/x-www-form-urlencoded` form of. Nothing is claimed of the
/// result, which is for the type to decide.
#[verifier::external_body]
fn form_from_str<T: serde::de::DeserializeOwned>(text: &str) -> (r: Result<
    T,
    serde::de::value::Error,
>) {
    serde_urlencoded::from_str(text)
}

/// What the decoding of a body ends in: the value decoded, or the error that
/// says that the body is malformed.
pub fn body_decoded<T>(outcome: Result<T, serde_json::Error>) -> (r: Result<T, ExtractionError>)
    ensures
        r == match outcome {
            Ok(value) => Ok::<T, ExtractionError>(value),
            Err(_) => Err(ExtractionError::MalformedBody),
        },
{
    match outcome {
        Ok(value) => Ok(value),
        Err(_) => Err(ExtractionError::MalformedBody),
    }
}

/// What the decoding of a query string ends in: the value decoded, or the
/// error that says that the query string is malformed.
pub fn query_decoded<T>(outcome: Result<T, serde::de::value::Error>) -> (r: Result<
    T,
    ExtractionError,
>)
    ensures
        r == match outcome {
            Ok(value) => Ok::<T, ExtractionError>(value),
            Err(_) => Err(ExtractionError::MalformedQuery),
        },
{
    match outcome {
        Ok(value) => Ok(value),
        Err(_) => Err(ExtractionError::MalformedQuery),
    }
}

/// Decodes JSON into a value of a type that `serde` can build. The only
/// error is `MalformedBody`.
pub fn decode_json<T: serde::de::DeserializeOwned>(bytes: &[u8]) -> (r: Result<T, ExtractionError>)
    ensures
        r is Err ==> r == Err::<T, ExtractionError>(ExtractionError::MalformedBody),
{
    body_decoded(json_from_slice::<T>(bytes))
}

/// Decodes a query string into a value of a type that `serde` can build.
/// The only error is `MalformedQuery`.
pub fn decode_query<T: serde::de::DeserializeOwned>(query: &str) -> (r: Result<T, ExtractionError>)
    ensures
        r is Err ==> r == Err::<T, ExtractionError>(ExtractionError::MalformedQuery),
{
    query_decoded(form_from_str::<T>(query))
}

/// `serde_json::Value`: any JSON value.
#[verifier::external_type_specification]
#[verifier::external_body]
pub struct ExJsonValue(serde_json::Value);

impl FromJson for serde_json::Value {
    open spec fn decodes(body: Seq<u8>, r: Result<serde_json::Value, ExtractionError>) -> bool {
        r is Err ==> r == Err::<serde_json::Value, ExtractionError>(ExtractionError::MalformedBody)
    }

    /// Any JSON value decodes as itself.
    fn from_json(body: &[u8]) -> (r: Result<serde_json::Value, ExtractionError>) {
        decode_json::<serde_json::Value>(body)
    }
}

impl FromJson for String {
    open spec fn decodes(body: Seq<u8>, r: Result<String, ExtractionError>) -> bool {
        r is Err ==> r == Err::<String, ExtractionError>(ExtractionError::MalformedBody)
    }

    /// A JSON string decodes as its text.
    fn from_json(body: &[u8]) -> (r: Result<String, ExtractionError>) {
        decode_json::<String>(body)
    }
}

impl FromJson for i64 {
    open spec fn decodes(body: Seq<u8>, r: Result<i64, ExtractionError>) -> bool {
        r is Err ==> r == Err::<i64, ExtractionError>(ExtractionError::MalformedBody)
    }

    /// A JSON number that is an integer of the type decodes as it.
    fn from_json(body: &[u8]) -> (r: Result<i64, ExtractionError>) {
        decode_json::<i64>(body)
    }
}

impl FromJson for bool {
    open spec fn decodes(body: Seq<u8>, r: Result<bool, ExtractionError>) -> bool {
        r is Err ==> r == Err::<bool, ExtractionError>(ExtractionError::MalformedBody)
    }

    /// `true` and `false` decode as themselves.
    fn from_json(body: &[u8]) -> (r: Result<bool, ExtractionError>) {
        decode_json::<bool>(body)
    }
}

impl FromQuery for Vec<(String, String)> {
    open spec fn decodes(query: Seq<char>, r: Result<Vec<(String, String)>, ExtractionError>) -> bool {
        r is Err ==> r == Err::<Vec<(String, String)>, ExtractionError>(
            ExtractionError::MalformedQuery,
        )
    }

    /// A query string decodes as its pairs of name and value, in order.
    fn from_query(query: &str) -> (r: Result<Vec<(String, String)>, ExtractionError>) {
        decode_query::<Vec<(String, String)>>(query)
    }
}

} // verus!
