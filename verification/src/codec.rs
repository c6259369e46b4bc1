//! The trusted boundary: parsing JSON text through `serde_json`, and
//! structural validation through `jsonschema`. Everything here either
//! declares an outside type or wraps one outside call; the contracts name
//! the outside results, and the verified pipeline builds on those names.
use vstd::prelude::*;
use crate::errors::{JsonValidationError, JsonValidationErrorKind};
use crate::json::{JVal, JsonNode};
use jsonschema::error::ValidationErrorKind;

verus! {

#[verifier::external_type_specification]
#[verifier::external_body]
pub struct ExValue(serde_json::Value);

#[verifier::external_type_specification]
#[verifier::external_body]
pub struct ExValidationError<'a>(jsonschema::ValidationError<'a>);

#[verifier::external_type_specification]
#[verifier::external_body]
pub struct ExValidationErrorKind(jsonschema::error::ValidationErrorKind);

/// What `serde_json` parses the text into, carried over to the document
/// model: `None` when the text is not JSON. The result depends on the text
/// alone.
pub uninterp spec fn json_parse_of(s: Seq<char>) -> Option<JVal>;

/// Whether `serde_json` accepts this literal as a number value (the
/// grammar, and a magnitude a double can carry). A function of the literal
/// alone.
pub uninterp spec fn json_num_ok(s: Seq<char>) -> bool;

/// Whether the offline schema compiler accepts this value as a schema.
/// External references are refused rather than fetched, so the result is a
/// function of the schema value alone.
pub uninterp spec fn schema_compiles(schema: JVal) -> bool;

/// Whether the document conforms to the schema. The compiled validator
/// resolves no external reference, so the result is a function of the two
/// values alone.
pub uninterp spec fn schema_allows(schema: JVal, doc: JVal) -> bool;

/// The validation failures reported for the document under the schema, in
/// the validator's deterministic traversal order; empty exactly when the
/// document conforms. A function of the two values alone.
pub uninterp spec fn violations_of(schema: JVal, doc: JVal) -> Seq<JsonValidationError>;

/// Every number literal in the tree is one that `serde_json` accepts:
/// what parsing guarantees of the documents it hands over, and what
/// conversion back demands.
pub open spec fn wf_jval(v: JVal) -> bool
    decreases v,
{
    match v {
        JVal::Num(s) => json_num_ok(s),
        JVal::Arr(items) => forall|i: int| 0 <= i < items.len() ==> wf_jval(#[trigger] items[i]),
        JVal::Obj(entries) => forall|i: int|
            0 <= i < entries.len() ==> wf_jval((#[trigger] entries[i]).1),
        _ => true,
    }
}

/// Parse one JSON document.
///
/// Relies on `serde_json::from_str`: it yields a value exactly when the
/// text is JSON; numbers are carried over as the literal `serde_json`
/// renders for them, which it accepts back; objects hold one entry per key,
/// in the deterministic order of `serde_json`'s map.
#[verifier::external_body]
pub(crate) fn parse_json(s: &str) -> (r: Result<JsonNode, ()>)
    ensures
        r is Ok <==> json_parse_of(s@) is Some,
        r matches Ok(n) ==> n.jv() == json_parse_of(s@)->Some_0 && wf_jval(n.jv()),
        r matches Ok(n) ==> (n.jv() matches JVal::Num(lit) ==> json_num_ok(lit)),
{
    match serde_json::from_str::<serde_json::Value>(s) {
        Ok(v) => Ok(value_to_node(&v)),
        Err(_) => Err(()),
    }
}

/// Carry a parsed `serde_json` value over into the document model.
///
/// Relies on `serde_json::Value` being a finite tree of the six JSON
/// shapes; numbers become the text of `serde_json::Number`'s rendering.
#[verifier::external_body]
fn value_to_node(v: &serde_json::Value) -> JsonNode {
    match v {
        serde_json::Value::Null => JsonNode::Null,
        serde_json::Value::Bool(b) => JsonNode::Bool(*b),
        serde_json::Value::Number(x) => JsonNode::Num(x.to_string()),
        serde_json::Value::String(x) => JsonNode::Str(x.clone()),
        serde_json::Value::Array(a) => JsonNode::Arr(a.iter().map(value_to_node).collect()),
        serde_json::Value::Object(m) => JsonNode::Obj(
            m.iter().map(|(k, x)| (k.clone(), value_to_node(x))).collect(),
        ),
    }
}

/// Carry a document back into a `serde_json` value; the well-formedness
/// bound keeps every number literal one that `serde_json` accepts.
///
/// Relies on `serde_json::Number`'s `Deserialize` accepting the literals
/// its rendering produces.
#[verifier::external_body]
fn node_to_value(n: &JsonNode) -> serde_json::Value
    requires
        wf_jval(n.jv()),
{
    match n {
        JsonNode::Null => serde_json::Value::Null,
        JsonNode::Bool(b) => serde_json::Value::Bool(*b),
        JsonNode::Num(lit) => serde_json::Value::Number(serde_json::from_str(lit).unwrap()),
        JsonNode::Str(s) => serde_json::Value::String(s.clone()),
        JsonNode::Arr(items) => serde_json::Value::Array(items.iter().map(node_to_value).collect()),
        JsonNode::Obj(entries) => serde_json::Value::Object(
            entries.iter().map(|p| (p.0.clone(), node_to_value(&p.1))).collect(),
        ),
    }
}

/// Holds the compiled `jsonschema` validator. The verifier cannot declare
/// `jsonschema::Validator` itself (its generic parameter is bound by a
/// private trait), so the whole holder is opaque.
#[verifier::external_body]
struct CompiledSchema {
    validator: jsonschema::Validator,
}

/// The compiled input-schema service: the schema is compiled once, offline,
/// and the compiled validator is shared read-only by any number of
/// validation calls.
pub struct SchemaValidator {
    compiled: CompiledSchema,
    schema_node: JsonNode,
}

impl SchemaValidator {
    /// The schema this validator enforces.
    pub closed spec fn schema(&self) -> JVal {
        self.schema_node.jv()
    }

    /// Build the validation service from a schema document.
    pub fn new(schema: &JsonNode) -> (r: Result<SchemaValidator, ()>)
        requires
            wf_jval(schema.jv()),
        ensures
            r is Ok <==> schema_compiles(schema.jv()),
            r matches Ok(v) ==> v.schema() == schema.jv(),
    {
        let copy = crate::json::clone_node(schema);
        SchemaValidator::build(schema, copy)
    }

    /// Relies on `jsonschema::options().offline().build`: with every
    /// external reference refused rather than fetched, it accepts the value
    /// exactly when the value is a self-contained usable schema.
    #[verifier::external_body]
    fn build(schema: &JsonNode, keep: JsonNode) -> (r: Result<SchemaValidator, ()>)
        requires
            wf_jval(schema.jv()),
            keep.jv() == schema.jv(),
        ensures
            r is Ok <==> schema_compiles(schema.jv()),
            r matches Ok(v) ==> v.schema() == schema.jv(),
    {
        let value = node_to_value(schema);
        match jsonschema::options().offline().build(&value) {
            Ok(validator) => Ok(
                SchemaValidator { compiled: CompiledSchema { validator }, schema_node: keep },
            ),
            Err(_) => Err(()),
        }
    }

    /// Every validation failure of the document, in the validator's order:
    /// none exactly when the document conforms. The pipeline aborts on the
    /// first failure; the full set is preserved for diagnostics.
    ///
    /// Relies on `jsonschema::Validator::iter_errors` of the compiled
    /// validator: it runs to completion, yields the failures in a
    /// deterministic order, and yields none exactly when the document
    /// conforms; no external reference is resolved.
    #[verifier::external_body]
    pub fn violations(&self, doc: &JsonNode) -> (r: Vec<JsonValidationError>)
        requires
            wf_jval(doc.jv()),
        ensures
            r@ == violations_of(self.schema(), doc.jv()),
            r@.len() == 0 <==> schema_allows(self.schema(), doc.jv()),
    {
        let value = node_to_value(doc);
        self.compiled.validator.iter_errors(&value).map(convert_validation_error).collect()
    }
}

/// Carry one validation failure over into the library's error type.
///
/// Relies on `jsonschema::ValidationError`'s accessors for the offending
/// value, the instance location and the schema location.
#[verifier::external_body]
fn convert_validation_error(e: jsonschema::ValidationError<'_>) -> JsonValidationError {
    JsonValidationError {
        value: value_to_node(e.instance()),
        kind: convert_kind(e.kind()),
        instance_path: e.instance_path().as_str().to_string(),
        schema_path: e.schema_path().as_str().to_string(),
    }
}

/// Carry a validation failure kind over, one variant at a time.
///
/// Relies on `jsonschema::error::ValidationErrorKind`'s variants, split over the
/// three group conversions below and the remainder here.
#[verifier::external_body]
fn convert_kind(k: &jsonschema::error::ValidationErrorKind) -> JsonValidationErrorKind {
    convert_kind_bounds(k).or_else(|| convert_kind_ranges(k)).or_else(
        || convert_kind_values(k),
    ).or_else(|| convert_kind_composition(k)).unwrap_or_else(|| convert_kind_rest(k))
}

/// The size-bound failure kinds, fields moved one for one.
///
/// Relies on the corresponding `jsonschema::error::ValidationErrorKind` variants.
#[verifier::external_body]
fn convert_kind_bounds(k: &jsonschema::error::ValidationErrorKind) -> Option<JsonValidationErrorKind> {
    match k {
        ValidationErrorKind::AdditionalItems { limit } => Some(JsonValidationErrorKind::AdditionalItems { limit: *limit }),
        ValidationErrorKind::MaxItems { limit } => Some(JsonValidationErrorKind::MaxItems { limit: *limit }),
        ValidationErrorKind::MaxLength { limit } => Some(JsonValidationErrorKind::MaxLength { limit: *limit }),
        ValidationErrorKind::MaxProperties { limit } => Some(JsonValidationErrorKind::MaxProperties { limit: *limit }),
        ValidationErrorKind::MinItems { limit } => Some(JsonValidationErrorKind::MinItems { limit: *limit }),
        ValidationErrorKind::MinLength { limit } => Some(JsonValidationErrorKind::MinLength { limit: *limit }),
        ValidationErrorKind::MinProperties { limit } => Some(JsonValidationErrorKind::MinProperties { limit: *limit }),
        ValidationErrorKind::MultipleOf { multiple_of } => Some(JsonValidationErrorKind::MultipleOf { multiple_of: multiple_of.to_string() }),
        ValidationErrorKind::UniqueItems => Some(JsonValidationErrorKind::UniqueItems),
        _ => None,
    }
}

/// The numeric range failure kinds, limits carried over as documents.
///
/// Relies on the corresponding `jsonschema::error::ValidationErrorKind` variants.
#[verifier::external_body]
fn convert_kind_ranges(k: &jsonschema::error::ValidationErrorKind) -> Option<
    JsonValidationErrorKind,
> {
    match k {
        ValidationErrorKind::Maximum { limit } => Some(JsonValidationErrorKind::Maximum { limit: value_to_node(limit) }),
        ValidationErrorKind::Minimum { limit } => Some(JsonValidationErrorKind::Minimum { limit: value_to_node(limit) }),
        ValidationErrorKind::ExclusiveMaximum { limit } => Some(JsonValidationErrorKind::ExclusiveMaximum { limit: value_to_node(limit) }),
        ValidationErrorKind::ExclusiveMinimum { limit } => Some(JsonValidationErrorKind::ExclusiveMinimum { limit: value_to_node(limit) }),
        _ => None,
    }
}

/// The value-comparison failure kinds, values carried over as documents.
///
/// Relies on the corresponding `jsonschema::error::ValidationErrorKind` variants.
#[verifier::external_body]
fn convert_kind_values(k: &jsonschema::error::ValidationErrorKind) -> Option<
    JsonValidationErrorKind,
> {
    match k {
        ValidationErrorKind::Constant { expected_value } => Some(JsonValidationErrorKind::Constant { expected_value: value_to_node(expected_value) }),
        ValidationErrorKind::Enum { options } => Some(JsonValidationErrorKind::EnumMismatch { options: value_to_node(options) }),
        ValidationErrorKind::Not { schema } => Some(JsonValidationErrorKind::Not { schema: value_to_node(schema) }),
        ValidationErrorKind::Required { property } => Some(JsonValidationErrorKind::Required { property: value_to_node(property) }),
        ValidationErrorKind::Type { kind } => Some(JsonValidationErrorKind::TypeMismatch { kind: format!("{kind:?}") }),
        _ => None,
    }
}

/// The schema-composition and property failure kinds.
///
/// Relies on the corresponding `jsonschema::error::ValidationErrorKind` variants.
#[verifier::external_body]
fn convert_kind_composition(k: &jsonschema::error::ValidationErrorKind) -> Option<
    JsonValidationErrorKind,
> {
    match k {
        ValidationErrorKind::AdditionalProperties { unexpected } => Some(JsonValidationErrorKind::AdditionalProperties { unexpected: unexpected.clone() }),
        ValidationErrorKind::UnevaluatedItems { unexpected } => Some(JsonValidationErrorKind::UnevaluatedItems { unexpected: unexpected.clone() }),
        ValidationErrorKind::UnevaluatedProperties { unexpected } => Some(JsonValidationErrorKind::UnevaluatedProperties { unexpected: unexpected.clone() }),
        ValidationErrorKind::AnyOf { context: _ } => Some(JsonValidationErrorKind::AnyOf),
        ValidationErrorKind::OneOfMultipleValid { context: _ } => Some(JsonValidationErrorKind::OneOfMultipleValid),
        ValidationErrorKind::OneOfNotValid { context: _ } => Some(JsonValidationErrorKind::OneOfNotValid),
        ValidationErrorKind::Contains => Some(JsonValidationErrorKind::Contains),
        ValidationErrorKind::FalseSchema => Some(JsonValidationErrorKind::FalseSchema),
        ValidationErrorKind::Custom { message, .. } => Some(JsonValidationErrorKind::Custom { message: message.clone() }),
        _ => None,
    }
}

/// The pattern, encoding and reference failure kinds; a kind this mapping
/// does not know is carried as its rendering.
///
/// Relies on the corresponding `jsonschema::error::ValidationErrorKind` variants.
#[verifier::external_body]
fn convert_kind_rest(k: &jsonschema::error::ValidationErrorKind) -> JsonValidationErrorKind {
    match k {
        ValidationErrorKind::BacktrackLimitExceeded { .. } => JsonValidationErrorKind::BacktrackLimitExceeded,
        ValidationErrorKind::RegexEngineFailure { message } => JsonValidationErrorKind::RegexEngineFailure { message: message.clone() },
        ValidationErrorKind::Pattern { pattern } => JsonValidationErrorKind::Pattern { pattern: pattern.clone() },
        ValidationErrorKind::PropertyNames { error } => JsonValidationErrorKind::PropertyNames { error: format!("{error:?}") },
        ValidationErrorKind::Format { format } => JsonValidationErrorKind::Format { format: format.clone() },
        ValidationErrorKind::FromUtf8 { error } => JsonValidationErrorKind::FromUtf8 { error: error.to_string() },
        ValidationErrorKind::ContentEncoding { content_encoding } => JsonValidationErrorKind::ContentEncoding { content_encoding: content_encoding.clone() },
        ValidationErrorKind::ContentMediaType { content_media_type } => JsonValidationErrorKind::ContentMediaType { content_media_type: content_media_type.clone() },
        ValidationErrorKind::Referencing(err) => JsonValidationErrorKind::Referencing(format!("{err:?}")),
        _ => JsonValidationErrorKind::Custom { message: format!("{k:?}") },
    }
}

} // verus!
