//! The `edit` tool: batched file edits compiled to one patch.
use vstd::prelude::*;
use crate::error;
use crate::error::FunctionCallError;
use crate::text;
use crate::tool_spec::JsonSchema;
use crate::tool_spec::ResponsesApiTool;
use crate::tool_spec::ToolSpec;
use crate::tool_spec::boolean_schema;
use crate::tool_spec::is_boolean;
use crate::tool_spec::is_function_tool;
use crate::tool_spec::is_number;
use crate::tool_spec::is_string;
use crate::tool_spec::number_schema;
use crate::tool_spec::parameters_of;
use crate::tool_spec::property;
use crate::tool_spec::required_is;
use crate::tool_spec::string_schema;

verus! {

/// The properties of one edit operation, in key order.
pub open spec fn edit_operation_properties(p: Seq<(String, JsonSchema)>) -> bool {
    p.len() == 14 &&
    p[0].0@ == "anchor"@ && is_string(p[0].1, "Exact text anchor used for insert_before or insert_after."@) &&
    p[1].0@ == "content"@ && is_string(p[1].1, "Content to create or insert."@) &&
    p[2].0@ == "expected_occurrences"@ && is_number(p[2].1, "Optional exact anchor match count guard."@) &&
    p[3].0@ == "expected_replacements"@ && is_number(p[3].1, "Optional exact replacement count guard."@) &&
    p[4].0@ == "from"@ && is_string(p[4].1, "Source path for move operations."@) &&
    p[5].0@ == "ignore_missing"@ && is_boolean(p[5].1, "Allow delete to skip a missing file."@) &&
    p[6].0@ == "insert_all"@ && is_boolean(p[6].1, "Insert around every anchor occurrence instead of just the first."@) &&
    p[7].0@ == "new"@ && is_string(p[7].1, "Replacement text."@) &&
    p[8].0@ == "old"@ && is_string(p[8].1, "Exact text to replace."@) &&
    p[9].0@ == "op"@ && is_string(p[9].1, "Operation kind: create, delete, move, replace, insert_before, or insert_after."@) &&
    p[10].0@ == "overwrite"@ && is_boolean(p[10].1, "Allow create or move to overwrite an existing destination."@) &&
    p[11].0@ == "path"@ && is_string(p[11].1, "Target file path, relative to the workspace when possible."@) &&
    p[12].0@ == "replace_all"@ && is_boolean(p[12].1, "Replace every occurrence instead of just the first."@) &&
    p[13].0@ == "to"@ && is_string(p[13].1, "Destination path for move operations."@)
}

/// One edit operation's schema: a closed object that requires `op`.
pub open spec fn is_edit_operation_schema(s: JsonSchema) -> bool {
    s matches JsonSchema::Object { properties, required, additional_properties } && edit_operation_properties(
        properties@,
    ) && additional_properties == Some(false) && required_is(required, Some(seq!["op"@]))
}

/// The `edit` tool: a closed object whose one required property,
/// `operations`, is an array of edit operations.
pub open spec fn edit_tool_holds(t: ToolSpec) -> bool {
    &&& is_function_tool(t, "edit"@, "Use the `edit` tool for coordinated file edits. It accepts batched structured operations like create, delete, move, replace, insert_before, and insert_after, then applies them atomically through Codex's verified edit pipeline."@)
    &&& parameters_of(t) matches JsonSchema::Object { properties, required, additional_properties }
        && additional_properties == Some(false) && required_is(required, Some(seq!["operations"@]))
        && properties.len() == 1 && properties@[0].0@ == "operations"@
        && (properties@[0].1 matches JsonSchema::Array { items, description }
            && is_edit_operation_schema(*items)
            && crate::tool_spec::described(description, "Ordered edit operations to apply in a single tool call."@))
}

fn edit_operation_schema() -> (s: JsonSchema)
    ensures
        is_edit_operation_schema(s),
{
    let mut properties: Vec<(String, JsonSchema)> = Vec::new();

    properties.push(property("anchor", string_schema("Exact text anchor used for insert_before or insert_after.")));
    properties.push(property("content", string_schema("Content to create or insert.")));
    properties.push(property("expected_occurrences", number_schema("Optional exact anchor match count guard.")));
    properties.push(property("expected_replacements", number_schema("Optional exact replacement count guard.")));
    properties.push(property("from", string_schema("Source path for move operations.")));
    properties.push(property("ignore_missing", boolean_schema("Allow delete to skip a missing file.")));
    properties.push(property("insert_all", boolean_schema("Insert around every anchor occurrence instead of just the first.")));
    properties.push(property("new", string_schema("Replacement text.")));
    properties.push(property("old", string_schema("Exact text to replace.")));
    properties.push(property("op", string_schema("Operation kind: create, delete, move, replace, insert_before, or insert_after.")));
    properties.push(property("overwrite", boolean_schema("Allow create or move to overwrite an existing destination.")));
    properties.push(property("path", string_schema("Target file path, relative to the workspace when possible.")));
    properties.push(property("replace_all", boolean_schema("Replace every occurrence instead of just the first.")));
    properties.push(property("to", string_schema("Destination path for move operations.")));
    assert(edit_operation_properties(properties@));
    let mut required: Vec<String> = Vec::new();
    required.push(String::from_str("op"));
    assert(text::strings_view(required@) =~= seq!["op"@]);
    JsonSchema::Object { properties, required: Some(required), additional_properties: Some(false) }
}

/// The `edit` tool's description for the model.
pub fn create_edit_tool() -> (t: ToolSpec)
    ensures
        edit_tool_holds(t),
{
    let items = edit_operation_schema();
    let mut properties: Vec<(String, JsonSchema)> = Vec::new();
    properties.push(
        property(
            "operations",
            JsonSchema::Array {
                items: Box::new(items),
                description: Some(String::from_str("Ordered edit operations to apply in a single tool call.")),
            },
        ),
    );
    let mut required: Vec<String> = Vec::new();
    required.push(String::from_str("operations"));
    assert(text::strings_view(required@) =~= seq!["operations"@]);
    ToolSpec::Function(
        ResponsesApiTool {
            name: String::from_str("edit"),
            description: String::from_str("Use the `edit` tool for coordinated file edits. It accepts batched structured operations like create, delete, move, replace, insert_before, and insert_after, then applies them atomically through Codex's verified edit pipeline."),
            strict: false,
            parameters: JsonSchema::Object { properties, required: Some(required), additional_properties: Some(false) },
        },
    )
}

/// What kind of tool a handler serves.
#[derive(Clone, Copy, PartialEq, Eq, Structural, Debug)]
pub enum ToolKind {
    Function,
}

/// What checking a compiled patch gave: a patch to apply, or why it is
/// not one.
#[derive(Clone, Debug)]
pub enum PatchCheck {
    Body,
    CorrectnessError(String),
    ShellParseError(String),
    NotApplyPatch,
}

/// The edit tool.
pub struct EditHandler;

impl EditHandler {
    pub fn kind(&self) -> (k: ToolKind)
        ensures
            k == ToolKind::Function,
    {
        ToolKind::Function
    }

    /// Edits change files.
    pub fn is_mutating(&self) -> (b: bool)
        ensures
            b,
    {
        true
    }

    /// The error for a call that does not carry function arguments.
    pub fn unsupported_payload(&self) -> (e: FunctionCallError)
        ensures
            e.message() == "edit handler received unsupported payload"@,
    {
        error::respond("edit handler received unsupported payload")
    }

    /// The error for a compiled patch that the patch checker refused; none
    /// when it is a patch to apply.
    pub fn check_error(&self, check: &PatchCheck) -> (r: Option<FunctionCallError>)
        ensures
            match check {
                PatchCheck::Body => r is None,
                PatchCheck::CorrectnessError(m) => r matches Some(e) && e.message() == "edit generated an invalid patch: "@
                    + m@,
                PatchCheck::ShellParseError(m) => r matches Some(e) && e.message()
                    == "edit generated an unparsable patch wrapper: "@ + m@,
                PatchCheck::NotApplyPatch => r matches Some(e) && e.message() == "edit generated a non-apply_patch payload"@,
            },
    {
        match check {
            PatchCheck::Body => None,
            PatchCheck::CorrectnessError(m) => {
                let mut s = String::from_str("edit generated an invalid patch: ");
                text::push_str(&mut s, m.as_str());
                Some(error::respond_with(s))
            },
            PatchCheck::ShellParseError(m) => {
                let mut s = String::from_str("edit generated an unparsable patch wrapper: ");
                text::push_str(&mut s, m.as_str());
                Some(error::respond_with(s))
            },
            PatchCheck::NotApplyPatch => Some(error::respond("edit generated a non-apply_patch payload")),
        }
    }
}

} // verus!
