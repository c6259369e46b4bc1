//! The error taxonomy of the resolution pipeline.
//!
//! Every business-data failure is typed and returned to the caller; no
//! function of this library panics. The kinds mirror, with plain payloads,
//! what the schema validator reports.
use vstd::prelude::*;
use crate::json::JsonNode;

verus! {

/// The top-level error of the resolution pipeline.
#[derive(Debug)]
pub enum ResolvePcdbProductsError {
    /// The input bytes are not parseable JSON at all.
    InvalidJson,
    /// The parsed document fails structural validation against the input schema.
    InvalidRequest(JsonValidationError),
    /// The recursive reference query itself failed (an internal invariant,
    /// since the path is a fixed constant).
    CouldNotExtractProductReferences(JsonPathError),
    /// Resolved products whose technology does not match the equipment
    /// category of their context, collected across all qualifying devices.
    ProductCategoryMismatches(Vec<String>),
    /// A `product_reference` field whose value is not a string; the offending
    /// value is carried along.
    InvalidProductCategoryReference(JsonNode),
    /// A referenced key that has no catalog entry.
    UnknownProductReference(String),
}

/// One structural validation failure: the offending value, the path to the
/// failing instance location, the path to the schema rule that rejected it,
/// and a normalized failure kind.
#[derive(Debug)]
pub struct JsonValidationError {
    pub value: JsonNode,
    pub kind: JsonValidationErrorKind,
    pub instance_path: String,
    pub schema_path: String,
}

/// Simplified, owned mapping of the schema validator's failure kinds.
#[derive(Debug)]
pub enum JsonValidationErrorKind {
    /// The input array contains more items than expected.
    AdditionalItems { limit: usize },
    /// Unexpected properties.
    AdditionalProperties { unexpected: Vec<String> },
    /// The input value is not valid under any of the schemas listed in `anyOf`.
    AnyOf,
    /// The regex backtrack limit was exceeded while matching a pattern.
    BacktrackLimitExceeded,
    /// The regex engine failed to evaluate a pattern.
    RegexEngineFailure { message: String },
    /// The input value doesn't match the expected constant.
    Constant { expected_value: JsonNode },
    /// The input array doesn't contain items conforming to the specified schema.
    Contains,
    /// The input value does not respect the defined `contentEncoding`.
    ContentEncoding { content_encoding: String },
    /// The input value does not respect the defined `contentMediaType`.
    ContentMediaType { content_media_type: String },
    /// Custom error message for user-defined validation.
    Custom { message: String },
    /// The input value doesn't match any of the specified options.
    EnumMismatch { options: JsonNode },
    /// Value is too large.
    ExclusiveMaximum { limit: JsonNode },
    /// Value is too small.
    ExclusiveMinimum { limit: JsonNode },
    /// Everything is invalid for a `false` schema.
    FalseSchema,
    /// The input doesn't match the specified format.
    Format { format: String },
    /// Invalid UTF-8 found during `contentEncoding` validation.
    FromUtf8 { error: String },
    /// Too many items in an array.
    MaxItems { limit: u64 },
    /// Value is too large.
    Maximum { limit: JsonNode },
    /// String is too long.
    MaxLength { limit: u64 },
    /// Too many properties in an object.
    MaxProperties { limit: u64 },
    /// Too few items in an array.
    MinItems { limit: u64 },
    /// Value is too small.
    Minimum { limit: JsonNode },
    /// String is too short.
    MinLength { limit: u64 },
    /// Not enough properties in an object.
    MinProperties { limit: u64 },
    /// A number is not a multiple of another number; the multiple is carried
    /// as its decimal rendering.
    MultipleOf { multiple_of: String },
    /// A negated schema failed validation.
    Not { schema: JsonNode },
    /// The input is valid under more than one of the schemas listed in `oneOf`.
    OneOfMultipleValid,
    /// The input is not valid under any of the schemas listed in `oneOf`.
    OneOfNotValid,
    /// The input doesn't match a pattern.
    Pattern { pattern: String },
    /// Object property names are invalid.
    PropertyNames { error: String },
    /// A required property is missing.
    Required { property: JsonNode },
    /// The input doesn't match one or multiple required types.
    TypeMismatch { kind: String },
    /// Unexpected items.
    UnevaluatedItems { unexpected: Vec<String> },
    /// Unexpected properties.
    UnevaluatedProperties { unexpected: Vec<String> },
    /// The input array has non-unique elements.
    UniqueItems,
    /// An error during schema reference resolution.
    Referencing(String),
}

/// Simplified, owned mapping of a path-query engine failure. The reference
/// query of this library is a fixed constant and its traversal is total, so
/// no function here constructs these; the type is kept so that callers can
/// match the full error surface.
#[derive(Debug)]
pub enum JsonPathError {
    PestError(String),
    UnexpectedRuleLogicError(String, String),
    UnexpectedNoneLogicError(String, String),
    UnexpectedPestOutput,
    NoRulePath,
    NoJsonPathDescent,
    NoJsonPathField,
    InvalidNumber(String),
    InvalidTopLevelRule(String),
    EmptyInner(String),
    InvalidJsonPath(String),
}

} // verus!
