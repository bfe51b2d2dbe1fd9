//! How a tool describes itself to the model: a name, a description and a
//! JSON schema of its arguments.
use vstd::prelude::*;
use crate::text;

verus! {

/// Where a tool call runs: no environment, a remote one, or a local one
/// working in `cwd`.
#[derive(Clone, Debug)]
pub enum ToolEnvironment {
    Unavailable,
    Remote,
    Local { cwd: String },
}

/// A JSON schema of a tool's arguments.
#[derive(Debug)]
pub enum JsonSchema {
    Boolean { description: Option<String> },
    Str { description: Option<String> },
    /// A string among the given values.
    StringEnum { values: Vec<String>, description: Option<String> },
    Number { description: Option<String> },
    Integer { description: Option<String> },
    Array { items: Box<JsonSchema>, description: Option<String> },
    /// An object with the given properties, in key order.
    Object { properties: Vec<(String, JsonSchema)>, required: Option<Vec<String>>, additional_properties: Option<bool> },
}

/// A function tool.
#[derive(Debug)]
pub struct ResponsesApiTool {
    pub name: String,
    pub description: String,
    pub strict: bool,
    pub parameters: JsonSchema,
}

/// What a tool offers the model.
#[derive(Debug)]
pub enum ToolSpec {
    Function(ResponsesApiTool),
}

pub open spec fn described(d: Option<String>, text: Seq<char>) -> bool {
    d matches Some(x) && x@ == text
}

pub open spec fn is_string(s: JsonSchema, text: Seq<char>) -> bool {
    s matches JsonSchema::Str { description } && described(description, text)
}

pub open spec fn is_boolean(s: JsonSchema, text: Seq<char>) -> bool {
    s matches JsonSchema::Boolean { description } && described(description, text)
}

pub open spec fn is_number(s: JsonSchema, text: Seq<char>) -> bool {
    s matches JsonSchema::Number { description } && described(description, text)
}

pub open spec fn is_integer(s: JsonSchema, text: Seq<char>) -> bool {
    s matches JsonSchema::Integer { description } && described(description, text)
}

pub open spec fn is_string_enum(s: JsonSchema, values: Seq<Seq<char>>, text: Seq<char>) -> bool {
    s matches JsonSchema::StringEnum { values: v, description } && text::strings_view(v@) == values && described(
        description,
        text,
    )
}

/// The required properties are these.
pub open spec fn required_is(r: Option<Vec<String>>, q: Option<Seq<Seq<char>>>) -> bool {
    match (r, q) {
        (Some(r), Some(q)) => text::strings_view(r@) == q,
        (None, None) => true,
        _ => false,
    }
}

/// A function tool with this name and description, not strict.
pub open spec fn is_function_tool(t: ToolSpec, name: Seq<char>, description: Seq<char>) -> bool {
    t matches ToolSpec::Function(f) && f.name@ == name && f.description@ == description && !f.strict
}

pub open spec fn parameters_of(t: ToolSpec) -> JsonSchema {
    match t {
        ToolSpec::Function(f) => f.parameters,
    }
}

pub fn string_schema(text: &str) -> (s: JsonSchema)
    ensures
        is_string(s, text@),
{
    JsonSchema::Str { description: Some(text.to_owned()) }
}

pub fn boolean_schema(text: &str) -> (s: JsonSchema)
    ensures
        is_boolean(s, text@),
{
    JsonSchema::Boolean { description: Some(text.to_owned()) }
}

pub fn number_schema(text: &str) -> (s: JsonSchema)
    ensures
        is_number(s, text@),
{
    JsonSchema::Number { description: Some(text.to_owned()) }
}

pub fn integer_schema(text: &str) -> (s: JsonSchema)
    ensures
        is_integer(s, text@),
{
    JsonSchema::Integer { description: Some(text.to_owned()) }
}

/// A property: its key and its schema.
pub fn property(key: &str, schema: JsonSchema) -> (p: (String, JsonSchema))
    ensures
        p.0@ == key@,
        p.1 == schema,
{
    (key.to_owned(), schema)
}

/// The given strings as a list.
pub fn string_list(items: &[&str]) -> (v: Vec<String>)
    ensures
        v@.len() == items@.len(),
        forall|i: int| 0 <= i < items@.len() ==> (#[trigger] v@[i])@ == items@[i]@,
{
    let mut v: Vec<String> = Vec::new();
    let mut i: usize = 0;
    while i < items.len()
        invariant
            i <= items@.len(),
            v@.len() == i,
            forall|j: int| 0 <= j < i ==> (#[trigger] v@[j])@ == items@[j]@,
        decreases items.len() - i,
    {
        v.push(items[i].to_owned());
        i += 1;
    }
    v
}

} // verus!
