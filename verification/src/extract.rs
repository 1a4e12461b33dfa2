//! Shape analysis of path-query matches: coercion of the first match to a
//! string or to a numeric text, exactly as the record builder needs them.

use vstd::prelude::*;
use crate::errors::ExtractError;
use crate::jsonio::JsonValue;
use crate::text;

verus! {

/// What string extraction returns for a given match list: the first match,
/// which must be a string scalar; no match at all is `PathNotFound`.
pub open spec fn spec_string_extract(ms: Seq<JsonValue>) -> Result<Seq<char>, ExtractError> {
    if ms.len() == 0 {
        Err(ExtractError::PathNotFound)
    } else {
        match ms[0] {
            JsonValue::Str(s) => Ok(s@),
            _ => Err(ExtractError::TypeMismatch),
        }
    }
}

/// Extract the first match as a string scalar.
pub fn string_of_matches(ms: &Vec<JsonValue>) -> (r: Result<String, ExtractError>)
    ensures
        match r {
            Ok(s) => spec_string_extract(ms@) == Ok::<Seq<char>, ExtractError>(s@),
            Err(e) => spec_string_extract(ms@) == Err::<Seq<char>, ExtractError>(e),
        },
{
    if ms.len() == 0 {
        return Err(ExtractError::PathNotFound);
    }
    match &ms[0] {
        JsonValue::Str(s) => Ok(s.clone()),
        _ => Err(ExtractError::TypeMismatch),
    }
}

/// What numeric extraction returns for a given match list: the first match's
/// decimal text where it is a number scalar, or the first match itself where
/// it is a string that a float parser accepts; anything else is a type
/// mismatch, no match at all is `PathNotFound`.
pub open spec fn spec_double_extract(ms: Seq<JsonValue>) -> Result<Seq<char>, ExtractError> {
    if ms.len() == 0 {
        Err(ExtractError::PathNotFound)
    } else {
        match ms[0] {
            JsonValue::Num(n) => Ok(n@),
            JsonValue::Str(s) => if text::float_text(s@) {
                Ok(s@)
            } else {
                Err(ExtractError::TypeMismatch)
            },
            _ => Err(ExtractError::TypeMismatch),
        }
    }
}

/// Extract the first match as a numeric text.
pub fn double_of_matches(ms: &Vec<JsonValue>) -> (r: Result<String, ExtractError>)
    ensures
        match r {
            Ok(s) => spec_double_extract(ms@) == Ok::<Seq<char>, ExtractError>(s@),
            Err(e) => spec_double_extract(ms@) == Err::<Seq<char>, ExtractError>(e),
        },
{
    if ms.len() == 0 {
        return Err(ExtractError::PathNotFound);
    }
    match &ms[0] {
        JsonValue::Num(n) => Ok(n.clone()),
        JsonValue::Str(s) => {
            if text::is_float_text(s.as_str()) {
                Ok(s.clone())
            } else {
                Err(ExtractError::TypeMismatch)
            }
        },
        _ => Err(ExtractError::TypeMismatch),
    }
}

} // verus!
