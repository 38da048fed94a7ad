//! JSON Schema validation of tool-call arguments.
//!
//! The kernel's own values stand at this boundary; the `jsonschema` validator stays inside
//! this module.

use crate::error::{ToolError, ToolErrorModel};
use crate::json::{export, serde_from_str, serde_to_string, Json, JsonValue};
use crate::state::SerializedJson;
use vstd::prelude::*;

verus! {

/// Whether `jsonschema::validator_for` accepts a value as a schema.
pub uninterp spec fn jsonschema_compiles(schema: Json) -> bool;

/// Whether the validator of a schema accepts an instance.
pub uninterp spec fn jsonschema_accepts(schema: Json, instance: Json) -> bool;

/// Whether the validator has reported a schema as unusable with this diagnostic.
pub uninterp spec fn schema_diagnosed(schema: Json, text: Seq<char>) -> bool;

/// Whether the validator has reported an instance as invalid with this diagnostic.
pub uninterp spec fn instance_diagnosed(schema: Json, instance: Json, text: Seq<char>) -> bool;

/// What a schema says of an instance.
#[derive(Debug, Eq, PartialEq)]
pub enum SchemaVerdict {
    /// The instance is valid.
    Valid,
    /// The schema itself is not usable, with the validator's diagnostic.
    BadSchema(String),
    /// The instance is not valid, with the validator's diagnostic.
    Invalid(String),
}

/// `jsonschema::validator_for`, then `Validator::validate`: which of the three cases holds is
/// a function of the two values. Of a diagnostic text, whose words may vary, it is only said
/// what it diagnoses.
#[verifier::external_body]
fn judge(schema: &JsonValue, instance: &JsonValue) -> (r: SchemaVerdict)
    ensures
        (r is BadSchema) == !jsonschema_compiles(schema@),
        (r is Valid) == (jsonschema_compiles(schema@) && jsonschema_accepts(schema@, instance@)),
        r matches SchemaVerdict::BadSchema(text) ==> schema_diagnosed(schema@, text@),
        r matches SchemaVerdict::Invalid(text) ==> instance_diagnosed(schema@, instance@, text@),
{
    match jsonschema::validator_for(&export(schema)) {
        Err(error) => SchemaVerdict::BadSchema(error.to_string()),
        Ok(validator) => match validator.validate(&export(instance)) {
            Err(error) => SchemaVerdict::Invalid(error.to_string()),
            Ok(()) => SchemaVerdict::Valid,
        },
    }
}

/// The failure of one tool's arguments.
pub open spec fn rejected(tool: Seq<char>, message: Seq<char>) -> ToolErrorModel {
    ToolErrorModel::InvalidArguments { tool, message }
}

fn invalid(tool_name: &str, prefix: &str, message: &str) -> (r: ToolError)
    ensures
        r@ == rejected(tool_name@, prefix@ + message@),
{
    let mut text = prefix.to_owned();
    text.push_str(message);
    ToolError::InvalidArguments { tool: tool_name.to_owned(), message: text }
}

/// Report a verdict on a tool's arguments.
pub fn report_verdict(tool_name: &str, verdict: SchemaVerdict) -> (r: Result<(), ToolError>)
    ensures
        match verdict {
            SchemaVerdict::Valid => r is Ok,
            SchemaVerdict::BadSchema(text) => r matches Err(e) && e@ == rejected(
                tool_name@,
                "tool schema is invalid: "@ + text@,
            ),
            SchemaVerdict::Invalid(text) => r matches Err(e) && e@ == rejected(tool_name@, text@),
        },
{
    match verdict {
        SchemaVerdict::Valid => Ok(()),
        SchemaVerdict::BadSchema(text) => Err(
            invalid(tool_name, "tool schema is invalid: ", text.as_str()),
        ),
        SchemaVerdict::Invalid(text) => Err(
            ToolError::InvalidArguments { tool: tool_name.to_owned(), message: text },
        ),
    }
}

/// Whether a verdict is one that the schema of a tool gives on its arguments.
pub open spec fn judged(
    tool: Seq<char>,
    schema: Json,
    arguments: Seq<char>,
    verdict: Result<(), ToolErrorModel>,
) -> bool {
    match (serde_from_str(serde_to_string(schema)), serde_from_str(arguments)) {
        (Err(text), _) => verdict == Err::<(), ToolErrorModel>(
            rejected(tool, "tool schema cannot be decoded: "@ + text),
        ),
        (Ok(_), Err(text)) => verdict == Err::<(), ToolErrorModel>(
            rejected(tool, "tool-call arguments are not valid JSON: "@ + text),
        ),
        (Ok(decoded), Ok(instance)) => if !jsonschema_compiles(decoded) {
            exists|text: Seq<char>| #[trigger]
                schema_diagnosed(decoded, text) && verdict == Err::<(), ToolErrorModel>(
                    rejected(tool, "tool schema is invalid: "@ + text),
                )
        } else if !jsonschema_accepts(decoded, instance) {
            exists|text: Seq<char>| #[trigger]
                instance_diagnosed(decoded, instance, text) && verdict == Err::<(), ToolErrorModel>(
                    rejected(tool, text),
                )
        } else {
            verdict is Ok
        },
    }
}

/// Validate the arguments of one tool call against the tool's schema.
///
/// They are accepted exactly when the schema survives its own text form, the arguments are
/// JSON text, the schema is usable, and it accepts them.
pub fn validate_tool_arguments(
    tool_name: &str,
    schema: &JsonValue,
    arguments: &SerializedJson,
) -> (r: Result<(), ToolError>)
    ensures
        judged(
            tool_name@,
            schema@,
            arguments@,
            match r {
                Ok(()) => Ok(()),
                Err(error) => Err(error@),
            },
        ),
{
    let encoded = schema.to_json_string();
    let decoded = match JsonValue::parse(encoded.as_str()) {
        Err(error) => {
            return Err(
                invalid(tool_name, "tool schema cannot be decoded: ", error.message.as_str()),
            );
        },
        Ok(value) => value,
    };
    let instance = match JsonValue::parse(arguments.as_str()) {
        Err(error) => {
            return Err(
                invalid(
                    tool_name,
                    "tool-call arguments are not valid JSON: ",
                    error.message.as_str(),
                ),
            );
        },
        Ok(value) => value,
    };
    report_verdict(tool_name, judge(&decoded, &instance))
}

} // verus!
