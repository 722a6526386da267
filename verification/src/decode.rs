//! Reading the single value a COUNT or EXISTS query returns.

use vstd::prelude::*;
use crate::builder::QueryBuilder;
use crate::error::Error;
use crate::json::{JsonValue, json_text, push_json_text};
use crate::text::{push_i64, push_str, signed_decimal, string_of};

verus! {

/// The message of an EXISTS result that is neither a boolean nor an integer.
pub open spec fn undecodable_exists_message(v: JsonValue) -> Seq<char> {
    "Unable to decode the database EXISTS result as a boolean or integer (got "@ + json_text(v) + ")"@
}

/// The message of a COUNT result without its column.
pub open spec fn missing_count_message() -> Seq<char> {
    "Database returned no 'count' column for the query count"@
}

/// The message of a COUNT result that is not an integer.
pub open spec fn undecodable_count_message(v: JsonValue) -> Seq<char> {
    "Unable to decode the query count as an integer (got "@ + json_text(v) + ")"@
}

/// The message of a negative COUNT result.
pub open spec fn negative_count_message(n: int) -> Seq<char> {
    "Database returned a negative count ("@ + signed_decimal(n) + ") for the query count"@
}

impl QueryBuilder {
    /// The flag an EXISTS query returned: a boolean as it is, an integer as
    /// whether it is non-zero. Anything else is reported rather than guessed.
    pub fn decode_exists_flag(value: &JsonValue) -> (r: Result<bool, Error>)
        ensures
            match *value {
                JsonValue::Bool(b) => r == Ok::<bool, Error>(b),
                JsonValue::Int(i) => r == Ok::<bool, Error>(i != 0),
                JsonValue::UInt(u) => r == Ok::<bool, Error>(u != 0),
                _ => r matches Err(Error::Query(m)) && m@ == undecodable_exists_message(*value),
            },
    {
        match value {
            JsonValue::Bool(b) => Ok(*b),
            JsonValue::Int(i) => Ok(*i != 0),
            JsonValue::UInt(u) => Ok(*u != 0),
            _ => {
                let mut m: Vec<char> = Vec::new();
                push_str(&mut m, "Unable to decode the database EXISTS result as a boolean or integer (got ");
                push_json_text(&mut m, value);
                push_str(&mut m, ")");
                Err(Error::Query(string_of(&m)))
            },
        }
    }

    /// The number a COUNT query returned: a non-negative integer as it is; a
    /// missing column, a negative number or anything else is reported.
    pub fn decode_count_value(value: Option<&JsonValue>) -> (r: Result<u64, Error>)
        ensures
            match value {
                None => r matches Err(Error::Query(m)) && m@ == missing_count_message(),
                Some(v) => match *v {
                    JsonValue::UInt(u) => r == Ok::<u64, Error>(u),
                    JsonValue::Int(i) => if i >= 0 {
                        r == Ok::<u64, Error>(i as u64)
                    } else {
                        r matches Err(Error::Query(m)) && m@ == negative_count_message(i as int)
                    },
                    _ => r matches Err(Error::Query(m)) && m@ == undecodable_count_message(*v),
                },
            },
    {
        let v = match value {
            None => {
                let mut m: Vec<char> = Vec::new();
                push_str(&mut m, "Database returned no 'count' column for the query count");
                return Err(Error::Query(string_of(&m)));
            },
            Some(v) => v,
        };
        match v {
            JsonValue::UInt(u) => Ok(*u),
            JsonValue::Int(i) => {
                if *i >= 0 {
                    Ok(*i as u64)
                } else {
                    let mut m: Vec<char> = Vec::new();
                    push_str(&mut m, "Database returned a negative count (");
                    push_i64(&mut m, *i);
                    push_str(&mut m, ") for the query count");
                    Err(Error::Query(string_of(&m)))
                }
            },
            _ => {
                let mut m: Vec<char> = Vec::new();
                push_str(&mut m, "Unable to decode the query count as an integer (got ");
                push_json_text(&mut m, v);
                push_str(&mut m, ")");
                Err(Error::Query(string_of(&m)))
            },
        }
    }
}

} // verus!
