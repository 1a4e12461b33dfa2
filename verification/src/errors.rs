//! Error taxonomy. Field-level failures are contained per field, record-level
//! failures skip one record, source-level failures abort one fetch.

use vstd::prelude::*;

verus! {

/// Failure of one path extraction: the query matched nothing, or the matched
/// value had the wrong shape.
#[derive(Debug, Clone, PartialEq, Eq)]
pub enum ExtractError {
    PathNotFound,
    TypeMismatch,
}

/// Failure of the date rule engine: no configured parser matched the text.
/// The payload names the configured formats, for diagnostics.
#[derive(Debug, Clone, PartialEq, Eq)]
pub enum DateParseError {
    NoRuleMatched(String),
}

/// Failure to build one record; the batch goes on without it.
#[derive(Debug, Clone, PartialEq, Eq)]
pub enum BuildError {
    /// A required descriptor field (latitude or longitude path) is unset or
    /// empty, or the start-date parser is missing.
    MissingField,
    /// A required path extraction failed.
    PathError(ExtractError),
    /// The start date could not be parsed.
    DateError(DateParseError),
}

/// Failure of one whole fetch for a source.
#[derive(Debug, Clone, PartialEq, Eq)]
pub enum FetchError {
    /// The body is not well-formed JSON.
    MalformedJson,
    /// The root-array path did not resolve.
    RootNotFound,
}

} // verus!
