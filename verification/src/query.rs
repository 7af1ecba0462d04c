//! The single-entity query: extracting a named attribute's value and the
//! optional `TimeInstant` timestamp from an entity document. A response
//! with the attribute or its value missing yields a recoverable error, so
//! one bad response cannot take a long-running client down.
use vstd::prelude::*;
use vstd::string::StringExecFns;
use crate::json::{Json, JsonValue};
use crate::time::{parse_rfc3339_millis, rfc3339_parse_millis};

verus! {

/// What a single-entity query asks for: the entity identifier and the
/// attribute name.
pub struct MeasurementRequest {
    pub urn: String,
    pub name: String,
}

impl MeasurementRequest {
    /// Builds a request for one attribute of one entity.
    pub fn new(urn: String, name: String) -> (r: MeasurementRequest)
        ensures
            r.urn == urn,
            r.name == name,
    {
        MeasurementRequest { urn, name }
    }
}

/// What a single-entity query found: the queried identifier and name, the
/// attribute's value text, and the observed instant — milliseconds since
/// the Unix epoch, UTC — when the entity carried one that parses.
pub struct MeasurementResult {
    pub urn: String,
    pub name: String,
    pub value: String,
    pub timestamp: Option<i64>,
}

/// Why an entity document could not answer a query.
#[derive(Debug)]
pub enum QueryError {
    /// The document carries no attribute of the requested name.
    MissingAttribute,
    /// An attribute that was consulted carries no `value` field.
    MissingValue,
    /// A `value` field that was consulted is not a JSON string.
    ValueNotText,
}

/// The observed timestamp an entity document yields: nothing when there is
/// no `TimeInstant` attribute or its value does not parse as RFC 3339; an
/// error when the attribute is there but malformed.
pub open spec fn timestamp_of(doc: Json) -> Result<Option<i64>, QueryError> {
    match doc.get("TimeInstant"@) {
        Option::None => Result::Ok(Option::None),
        Option::Some(ti) => match ti.get("value"@) {
            Option::None => Result::Err(QueryError::MissingValue),
            Option::Some(v) => match v.as_text() {
                Option::None => Result::Err(QueryError::ValueNotText),
                Option::Some(s) => Result::Ok(rfc3339_parse_millis(s)),
            },
        },
    }
}

/// The value text of the named attribute of an entity document, or the
/// error saying what was missing.
pub open spec fn attribute_value_of(doc: Json, name: Seq<char>) -> Result<Seq<char>, QueryError> {
    match doc.get(name) {
        Option::None => Result::Err(QueryError::MissingAttribute),
        Option::Some(attr) => match attr.get("value"@) {
            Option::None => Result::Err(QueryError::MissingValue),
            Option::Some(v) => match v.as_text() {
                Option::None => Result::Err(QueryError::ValueNotText),
                Option::Some(s) => Result::Ok(s),
            },
        },
    }
}

/// Reads a fetched entity document as the answer to a measurement request:
/// the timestamp is taken first, then the named attribute's value, and the
/// result succeeds exactly when both are usable.
pub fn interpret_entity_response(doc: &JsonValue, request: &MeasurementRequest) -> (r: Result<
    MeasurementResult,
    QueryError,
>)
    ensures
        match timestamp_of(doc.model()) {
            Result::Err(e) => r == Result::<MeasurementResult, QueryError>::Err(e),
            Result::Ok(ts) => match attribute_value_of(doc.model(), request.name@) {
                Result::Err(e) => r == Result::<MeasurementResult, QueryError>::Err(e),
                Result::Ok(value) => r matches Result::Ok(m) && m.urn@ == request.urn@
                    && m.name@ == request.name@ && m.value@ == value && m.timestamp == ts,
            },
        },
{
    let time_key = String::from_str("TimeInstant");
    let value_key = String::from_str("value");

    let mut timestamp: Option<i64> = Option::None;
    match doc.get(&time_key) {
        Option::None => {},
        Option::Some(ti) => match ti.get(&value_key) {
            Option::None => {
                return Result::Err(QueryError::MissingValue);
            },
            Option::Some(v) => match v.as_str() {
                Option::None => {
                    return Result::Err(QueryError::ValueNotText);
                },
                Option::Some(s) => {
                    timestamp = parse_rfc3339_millis(s);
                },
            },
        },
    }

    match doc.get(&request.name) {
        Option::None => Result::Err(QueryError::MissingAttribute),
        Option::Some(attr) => match attr.get(&value_key) {
            Option::None => Result::Err(QueryError::MissingValue),
            Option::Some(v) => match v.as_str() {
                Option::None => Result::Err(QueryError::ValueNotText),
                Option::Some(s) => Result::Ok(MeasurementResult {
                    urn: request.urn.clone(),
                    name: request.name.clone(),
                    value: s.clone(),
                    timestamp,
                }),
            },
        },
    }
}

} // verus!
