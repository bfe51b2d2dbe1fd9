//! Translation of a Responses API request into the body of a chat
//! completions request: its tools, its conversation and its output format.
use vstd::prelude::*;
use crate::json::{
    JsonMember, JsonValue, array_of_len, field, get, get_str, items, json_get, json_get_str, lookup,
    jstr, jstring, keys_of, object_with, push_member, str_is, take_members,
};
use crate::responses::{ApiError, ContentItem, ResponseItem, invalid_request, opt_text};
use crate::text::{is_blank, is_blank_str, push_str, str_equal};

verus! {

/// The text of `c` as a JSON string escapes it: `"` and `\` and the control
/// characters that have a short form take a backslash; other control
/// characters are written as `\u00` and two lower-case hex digits.
pub open spec fn json_escape(c: char) -> Seq<char> {
    if c == '"' {
        seq!['\\', '"']
    } else if c == '\\' {
        seq!['\\', '\\']
    } else if c == '\u{8}' {
        seq!['\\', 'b']
    } else if c == '\u{c}' {
        seq!['\\', 'f']
    } else if c == '\n' {
        seq!['\\', 'n']
    } else if c == '\r' {
        seq!['\\', 'r']
    } else if c == '\t' {
        seq!['\\', 't']
    } else if (c as u32) < 0x20 {
        seq!['\\', 'u', '0', '0', hex_digit((c as u32) / 16), hex_digit((c as u32) % 16)]
    } else {
        seq![c]
    }
}

/// A lower-case hex digit.
pub open spec fn hex_digit(d: u32) -> char {
    if d < 10 {
        (('0' as u32) + d) as char
    } else {
        (('a' as u32) + d - 10) as char
    }
}

/// The escaped characters of `s`, in order.
pub open spec fn json_escaped(s: Seq<char>) -> Seq<char>
    decreases s.len(),
{
    if s.len() == 0 {
        Seq::empty()
    } else {
        json_escaped(s.drop_last()) + json_escape(s.last())
    }
}

/// `s` as a JSON string literal, quotes included.
pub open spec fn json_quoted(s: Seq<char>) -> Seq<char> {
    seq!['"'] + json_escaped(s) + seq!['"']
}

/// `serde_json::to_string` on a string: the string as a JSON literal,
/// quoted and escaped as `json_quoted` says. Encoding a string does not fail.
#[verifier::external_body]
fn quote_json_string(s: &str) -> (r: String)
    ensures
        r@ == json_quoted(s@),
{
    serde_json::to_string(s).unwrap_or_default()
}

/// An object with no members.
pub fn empty_object() -> (r: JsonValue)
    ensures
        object_with(r, Seq::empty()),
{
    let ms: Vec<JsonMember> = Vec::new();
    assert(keys_of(ms@) =~= Seq::<Seq<char>>::empty());
    JsonValue::Object(ms)
}

/// An object of one member.
pub fn object1(k1: &str, v1: JsonValue) -> (r: JsonValue)
    ensures
        object_with(r, seq![k1@]),
        field(r, 0) == v1,
{
    let mut ms: Vec<JsonMember> = Vec::new();
    push_member(&mut ms, k1, v1);
    assert(keys_of(ms@) =~= seq![k1@]);
    JsonValue::Object(ms)
}

/// An object of two members, in this order.
pub fn object2(k1: &str, v1: JsonValue, k2: &str, v2: JsonValue) -> (r: JsonValue)
    ensures
        object_with(r, seq![k1@, k2@]),
        field(r, 0) == v1,
        field(r, 1) == v2,
{
    let mut ms: Vec<JsonMember> = Vec::new();
    push_member(&mut ms, k1, v1);
    let ghost m1 = ms@;
    push_member(&mut ms, k2, v2);
    assert(ms@[0] == m1[0]);
    assert(keys_of(ms@) =~= seq![k1@, k2@]);
    JsonValue::Object(ms)
}

/// An object of three members, in this order.
pub fn object3(k1: &str, v1: JsonValue, k2: &str, v2: JsonValue, k3: &str, v3: JsonValue) -> (r: JsonValue)
    ensures
        object_with(r, seq![k1@, k2@, k3@]),
        field(r, 0) == v1,
        field(r, 1) == v2,
        field(r, 2) == v3,
{
    let mut ms: Vec<JsonMember> = Vec::new();
    push_member(&mut ms, k1, v1);
    let ghost m1 = ms@;
    push_member(&mut ms, k2, v2);
    let ghost m2 = ms@;
    assert(m2[0] == m1[0]);
    push_member(&mut ms, k3, v3);
    assert(ms@[0] == m2[0] && ms@[1] == m2[1]);
    assert(keys_of(ms@) =~= seq![k1@, k2@, k3@]);
    JsonValue::Object(ms)
}

/// An object of four members, in this order.
pub fn object4(
    k1: &str,
    v1: JsonValue,
    k2: &str,
    v2: JsonValue,
    k3: &str,
    v3: JsonValue,
    k4: &str,
    v4: JsonValue,
) -> (r: JsonValue)
    ensures
        object_with(r, seq![k1@, k2@, k3@, k4@]),
        field(r, 0) == v1,
        field(r, 1) == v2,
        field(r, 2) == v3,
        field(r, 3) == v4,
{
    let mut ms: Vec<JsonMember> = Vec::new();
    push_member(&mut ms, k1, v1);
    let ghost m1 = ms@;
    push_member(&mut ms, k2, v2);
    let ghost m2 = ms@;
    assert(m2[0] == m1[0]);
    push_member(&mut ms, k3, v3);
    let ghost m3 = ms@;
    assert(m3[0] == m2[0] && m3[1] == m2[1]);
    push_member(&mut ms, k4, v4);
    assert(ms@[0] == m3[0] && ms@[1] == m3[1] && ms@[2] == m3[2]);
    assert(keys_of(ms@) =~= seq![k1@, k2@, k3@, k4@]);
    JsonValue::Object(ms)
}

/// `v` is an array of exactly these strings.
pub open spec fn strings_are(v: JsonValue, ss: Seq<Seq<char>>) -> bool {
    &&& array_of_len(v, ss.len())
    &&& forall|i: int| 0 <= i < ss.len() ==> str_is(#[trigger] items(v)[i], ss[i])
}

/// An array of one string.
pub fn string_array1(s: &str) -> (r: JsonValue)
    ensures
        strings_are(r, seq![s@]),
{
    let mut xs: Vec<JsonValue> = Vec::new();
    xs.push(jstr(s));
    JsonValue::Array(xs)
}

/// `v` is a property schema of this type and description.
pub open spec fn typed_property(v: JsonValue, ty: Seq<char>, desc: Seq<char>) -> bool {
    &&& object_with(v, seq!["type"@, "description"@])
    &&& str_is(field(v, 0), ty)
    &&& str_is(field(v, 1), desc)
}

/// `out` is a chat tool of type `function`, with a function object of the
/// four members `name`, `description`, `parameters`, `strict`.
pub open spec fn function_tool(out: JsonValue) -> bool {
    &&& object_with(out, seq!["type"@, "function"@])
    &&& str_is(field(out, 0), "function"@)
    &&& object_with(field(out, 1), seq!["name"@, "description"@, "parameters"@, "strict"@])
}

/// The function object of a chat tool.
pub open spec fn function_of(out: JsonValue) -> JsonValue {
    field(out, 1)
}

/// A value, or JSON null where there is none.
pub open spec fn or_null(o: Option<JsonValue>) -> JsonValue {
    match o {
        Some(x) => x,
        None => JsonValue::Null,
    }
}

/// The parameters a function tool gets when it names none: an object
/// schema with no properties and no others allowed.
pub open spec fn default_parameters(v: JsonValue) -> bool {
    &&& object_with(v, seq!["type"@, "properties"@, "additionalProperties"@])
    &&& str_is(field(v, 0), "object"@)
    &&& object_with(field(v, 1), Seq::empty())
    &&& field(v, 2) == JsonValue::Bool(false)
}

/// A function tool carried over: its name, description, parameters and
/// strictness, each as the tool gives it (null, default parameters, or false
/// where it gives none).
pub open spec fn copied_function(out: JsonValue, tool: JsonValue) -> bool {
    let f = function_of(out);
    &&& function_tool(out)
    &&& field(f, 0) == or_null(get(tool, "name"@))
    &&& field(f, 1) == or_null(get(tool, "description"@))
    &&& match get(tool, "parameters"@) {
        Some(p) => field(f, 2) == p,
        None => default_parameters(field(f, 2)),
    }
    &&& field(f, 3) == (match get(tool, "strict"@) {
        Some(x) => x,
        None => JsonValue::Bool(false),
    })
}

/// A text, or the empty text where there is none.
pub open spec fn or_empty(o: Option<Seq<char>>) -> Seq<char> {
    match o {
        Some(s) => s,
        None => Seq::empty(),
    }
}

/// The text of `key` in the tool's `format`, where it is a string.
pub open spec fn format_str(tool: JsonValue, key: Seq<char>) -> Seq<char> {
    match get(tool, "format"@) {
        Some(f) => or_empty(get_str(f, key)),
        None => Seq::empty(),
    }
}

/// The description a custom tool gets: its own, followed, where its format
/// has a syntax or a definition, by how to pass the payload and by each.
pub open spec fn custom_description(desc: Seq<char>, syntax: Seq<char>, definition: Seq<char>) -> Seq<char> {
    if syntax.len() == 0 && definition.len() == 0 {
        desc
    } else {
        desc + "\n\nProvide the full tool payload in the JSON string field `input`."@ + (if syntax.len() > 0 {
            "\nSyntax: "@ + syntax
        } else {
            Seq::empty()
        }) + (if definition.len() > 0 {
            "\nDefinition: "@ + definition
        } else {
            Seq::empty()
        })
    }
}

/// The parameters of a custom tool: one required string property `input`.
pub open spec fn input_parameters(v: JsonValue) -> bool {
    &&& object_with(v, seq!["type"@, "properties"@, "required"@, "additionalProperties"@])
    &&& str_is(field(v, 0), "object"@)
    &&& object_with(field(v, 1), seq!["input"@])
    &&& typed_property(field(field(v, 1), 0), "string"@, "Full tool input payload."@)
    &&& strings_are(field(v, 2), seq!["input"@])
    &&& field(v, 3) == JsonValue::Bool(false)
}

/// A custom tool as a function tool of this name and description.
pub open spec fn custom_function(out: JsonValue, name: Seq<char>, description: Seq<char>) -> bool {
    let f = function_of(out);
    &&& function_tool(out)
    &&& str_is(field(f, 0), name)
    &&& str_is(field(f, 1), description)
    &&& input_parameters(field(f, 2))
    &&& field(f, 3) == JsonValue::Bool(false)
}

/// The `command` property of the local shell tool: an array of strings.
pub open spec fn command_property(c: JsonValue) -> bool {
    &&& object_with(c, seq!["type"@, "items"@, "description"@])
    &&& str_is(field(c, 0), "array"@)
    &&& object_with(field(c, 1), seq!["type"@])
    &&& str_is(field(field(c, 1), 0), "string"@)
    &&& str_is(field(c, 2), "The command to execute."@)
}

/// The parameters of the local shell tool.
pub open spec fn local_shell_parameters(v: JsonValue) -> bool {
    let p = field(v, 1);
    &&& object_with(v, seq!["type"@, "properties"@, "required"@, "additionalProperties"@])
    &&& str_is(field(v, 0), "object"@)
    &&& object_with(p, seq!["command"@, "workdir"@, "timeout_ms"@])
    &&& command_property(field(p, 0))
    &&& typed_property(field(p, 1), "string"@, "The working directory to execute the command in."@)
    &&& typed_property(field(p, 2), "number"@, "The timeout for the command in milliseconds."@)
    &&& strings_are(field(v, 2), seq!["command"@])
    &&& field(v, 3) == JsonValue::Bool(false)
}

/// The local shell tool as a function tool.
pub open spec fn local_shell_function(out: JsonValue) -> bool {
    let f = function_of(out);
    &&& function_tool(out)
    &&& str_is(field(f, 0), "local_shell"@)
    &&& str_is(field(f, 1), "Runs a shell command and returns its output."@)
    &&& local_shell_parameters(field(f, 2))
    &&& field(f, 3) == JsonValue::Bool(false)
}

/// Why a tool cannot be translated, if it cannot: it has no type, it is a
/// custom tool without a name, or its type is one the chat format lacks.
pub open spec fn tool_error(tool: JsonValue) -> Option<Seq<char>> {
    match get_str(tool, "type"@) {
        None => Some("chat compatibility could not translate a tool without a type"@),
        Some(kind) => if kind == "function"@ || kind == "local_shell"@ || kind == "web_search"@ || kind
            == "image_generation"@ {
            None
        } else if kind == "custom"@ {
            if get_str(tool, "name"@) is Some {
                None
            } else {
                Some("chat compatibility could not translate a custom tool without a name"@)
            }
        } else {
            Some("wire_api=\"chat\" cannot translate Responses tool type `"@ + kind + "` yet"@)
        },
    }
}

/// What a tool that can be translated becomes: a function tool, or nothing
/// for the tools the chat format has no place for (web search, image generation).
pub open spec fn tool_result(tool: JsonValue, out: Option<JsonValue>) -> bool {
    let kind = get_str(tool, "type"@).unwrap();
    if kind == "function"@ {
        out matches Some(o) && copied_function(o, tool)
    } else if kind == "custom"@ {
        out matches Some(o) && custom_function(
            o,
            get_str(tool, "name"@).unwrap(),
            custom_description(
                or_empty(get_str(tool, "description"@)),
                format_str(tool, "syntax"@),
                format_str(tool, "definition"@),
            ),
        )
    } else if kind == "local_shell"@ {
        out matches Some(o) && local_shell_function(o)
    } else {
        out is None
    }
}

/// The parameters of the local shell tool.
fn local_shell_parameters_value() -> (v: JsonValue)
    ensures
        local_shell_parameters(v),
{
    let command = object3(
        "type",
        jstr("array"),
        "items",
        object1("type", jstr("string")),
        "description",
        jstr("The command to execute."),
    );
    let workdir = object2(
        "type",
        jstr("string"),
        "description",
        jstr("The working directory to execute the command in."),
    );
    let timeout = object2(
        "type",
        jstr("number"),
        "description",
        jstr("The timeout for the command in milliseconds."),
    );
    object4(
        "type",
        jstr("object"),
        "properties",
        object3("command", command, "workdir", workdir, "timeout_ms", timeout),
        "required",
        string_array1("command"),
        "additionalProperties",
        JsonValue::Bool(false),
    )
}

/// The parameters of a custom tool.
fn input_parameters_value() -> (v: JsonValue)
    ensures
        input_parameters(v),
{
    let input = object2("type", jstr("string"), "description", jstr("Full tool input payload."));
    object4(
        "type",
        jstr("object"),
        "properties",
        object1("input", input),
        "required",
        string_array1("input"),
        "additionalProperties",
        JsonValue::Bool(false),
    )
}

/// A function tool of type `function` around the function object `f`.
fn function_tool_value(name: JsonValue, description: JsonValue, parameters: JsonValue, strict: JsonValue) -> (out: JsonValue)
    ensures
        function_tool(out),
        field(function_of(out), 0) == name,
        field(function_of(out), 1) == description,
        field(function_of(out), 2) == parameters,
        field(function_of(out), 3) == strict,
{
    let f = object4("name", name, "description", description, "parameters", parameters, "strict", strict);
    object2("type", jstr("function"), "function", f)
}

/// The description of a custom tool.
fn custom_description_text(desc: &str, syntax: &str, definition: &str) -> (r: String)
    ensures
        r@ == custom_description(desc@, syntax@, definition@),
{
    let mut r = String::from_str(desc);
    if !syntax.is_empty() || !definition.is_empty() {
        push_str(&mut r, "\n\nProvide the full tool payload in the JSON string field `input`.");
        if !syntax.is_empty() {
            push_str(&mut r, "\nSyntax: ");
            push_str(&mut r, syntax);
        }
        if !definition.is_empty() {
            push_str(&mut r, "\nDefinition: ");
            push_str(&mut r, definition);
        }
    }
    assert(r@ =~= custom_description(desc@, syntax@, definition@));
    r
}

/// The text of `key` in the tool's `format`, or the empty text.
fn format_text(tool: &JsonValue, key: &str) -> (r: String)
    ensures
        r@ == format_str(*tool, key@),
{
    match json_get(tool, "format") {
        Some(f) => match json_get_str(f, key) {
            Some(s) => String::from_str(s),
            None => String::new(),
        },
        None => String::new(),
    }
}

/// Translates a tool of a Responses request into a chat tool: function and
/// custom tools become function tools, the local shell becomes a function
/// tool of its own; web search and image generation are dropped; a tool
/// without a type, a custom tool without a name, and any other type are
/// refused.
pub fn translate_tool_to_chat_tool(tool: JsonValue) -> (r: Result<Option<JsonValue>, ApiError>)
    ensures
        match r {
            Err(e) => tool_error(tool) == Some(e.message()) && !e.is_stream(),
            Ok(out) => tool_error(tool) is None && tool_result(tool, out),
        },
{
    proof {
        reveal_strlit("name");
        reveal_strlit("description");
        reveal_strlit("parameters");
        reveal_strlit("strict");
        reveal_strlit("function");
        reveal_strlit("custom");
        reveal_strlit("local_shell");
        reveal_strlit("web_search");
        reveal_strlit("image_generation");
        assert("function"@.len() == 8);
        assert("custom"@.len() == 6);
        assert("local_shell"@.len() == 11);
        assert("web_search"@.len() == 10);
        assert("image_generation"@.len() == 16);
    }
    let kind = match json_get_str(&tool, "type") {
        Some(k) => String::from_str(k),
        None => {
            return Err(invalid_request(String::from_str("chat compatibility could not translate a tool without a type")));
        },
    };
    if str_equal(kind.as_str(), "function") {
        let ghost t = tool;
        let ms = match tool {
            JsonValue::Object(ms) => ms,
            _ => {
                return Err(invalid_request(String::new()));
            },
        };
        let ghost ms_view = ms@;
        let mut wanted: Vec<&str> = Vec::new();
        wanted.push("name");
        wanted.push("description");
        wanted.push("parameters");
        wanted.push("strict");
        assert(wanted@.len() == 4);
        assert(wanted@[0]@.len() == 4 && wanted@[1]@.len() == 11 && wanted@[2]@.len() == 10 && wanted@[3]@.len() == 6);
        let mut taken = take_members(ms, wanted.as_slice());
        let strict = match taken.pop() {
            Some(Some(x)) => x,
            _ => JsonValue::Bool(false),
        };
        let parameters = match taken.pop() {
            Some(Some(x)) => x,
            _ => object3(
                "type",
                jstr("object"),
                "properties",
                empty_object(),
                "additionalProperties",
                JsonValue::Bool(false),
            ),
        };
        let description = match taken.pop() {
            Some(Some(x)) => x,
            _ => JsonValue::Null,
        };
        let name = match taken.pop() {
            Some(Some(x)) => x,
            _ => JsonValue::Null,
        };
        let out = function_tool_value(name, description, parameters, strict);
        assert(get(t, "name"@) == lookup(ms_view, "name"@));
        assert(field(function_of(out), 0) == or_null(get(t, "name"@)));
        assert(field(function_of(out), 1) == or_null(get(t, "description"@)));
        assert(field(function_of(out), 3) == (match get(t, "strict"@) {
            Some(x) => x,
            None => JsonValue::Bool(false),
        }));
        assert(match get(t, "parameters"@) {
            Some(p) => field(function_of(out), 2) == p,
            None => default_parameters(field(function_of(out), 2)),
        });
        return Ok(Some(out));
    }
    if str_equal(kind.as_str(), "custom") {
        let name = match json_get_str(&tool, "name") {
            Some(n) => String::from_str(n),
            None => {
                return Err(
                    invalid_request(
                        String::from_str("chat compatibility could not translate a custom tool without a name"),
                    ),
                );
            },
        };
        let desc = match json_get_str(&tool, "description") {
            Some(d) => String::from_str(d),
            None => String::new(),
        };
        let syntax = format_text(&tool, "syntax");
        let definition = format_text(&tool, "definition");
        let description = custom_description_text(desc.as_str(), syntax.as_str(), definition.as_str());
        let out = function_tool_value(
            jstring(name),
            jstring(description),
            input_parameters_value(),
            JsonValue::Bool(false),
        );
        return Ok(Some(out));
    }
    if str_equal(kind.as_str(), "local_shell") {
        let out = function_tool_value(
            jstr("local_shell"),
            jstr("Runs a shell command and returns its output."),
            local_shell_parameters_value(),
            JsonValue::Bool(false),
        );
        return Ok(Some(out));
    }
    if str_equal(kind.as_str(), "web_search") || str_equal(kind.as_str(), "image_generation") {
        return Ok(None);
    }
    let mut msg = String::from_str("wire_api=\"chat\" cannot translate Responses tool type `");
    push_str(&mut msg, kind.as_str());
    push_str(&mut msg, "` yet");
    Err(invalid_request(msg))
}


/// `v` is a text part of a chat message.
pub open spec fn text_part(v: JsonValue, t: Seq<char>) -> bool {
    &&& object_with(v, seq!["type"@, "text"@])
    &&& str_is(field(v, 0), "text"@)
    &&& str_is(field(v, 1), t)
}

/// `v` is the chat part for a piece of a message.
pub open spec fn content_part(v: JsonValue, c: ContentItem) -> bool {
    match c {
        ContentItem::InputText { text } => text_part(v, text@),
        ContentItem::OutputText { text } => text_part(v, text@),
        ContentItem::InputImage { image_url } => {
            &&& object_with(v, seq!["type"@, "image_url"@])
            &&& str_is(field(v, 0), "image_url"@)
            &&& object_with(field(v, 1), seq!["url"@])
            &&& str_is(field(field(v, 1), 0), image_url@)
        },
    }
}

/// A message has an image among its pieces.
pub open spec fn has_image(content: Seq<ContentItem>) -> bool {
    exists|i: int| 0 <= i < content.len() && content[i] is InputImage
}

/// The texts of a message's pieces, joined.
pub open spec fn content_texts(content: Seq<ContentItem>) -> Seq<char>
    decreases content.len(),
{
    if content.len() == 0 {
        Seq::empty()
    } else {
        content_texts(content.drop_last()) + match content.last() {
            ContentItem::InputText { text } => text@,
            ContentItem::OutputText { text } => text@,
            ContentItem::InputImage { .. } => Seq::empty(),
        }
    }
}

/// The chat content of a message: its texts joined into one string where
/// it has no image; else an array of text and image parts, one per piece.
pub open spec fn chat_content(v: JsonValue, content: Seq<ContentItem>) -> bool {
    if has_image(content) {
        &&& array_of_len(v, content.len())
        &&& forall|i: int| 0 <= i < content.len() ==> content_part(#[trigger] items(v)[i], content[i])
    } else {
        str_is(v, content_texts(content))
    }
}

/// The chat content of a message's pieces.
fn translate_content_items_to_chat_content(content: &[ContentItem]) -> (v: JsonValue)
    ensures
        chat_content(v, content@),
{
    let mut has_images = false;
    let mut i: usize = 0;
    while i < content.len()
        invariant
            i <= content@.len(),
            has_images <==> exists|j: int| 0 <= j < i && content@[j] is InputImage,
        decreases content@.len() - i,
    {
        match &content[i] {
            ContentItem::InputImage { .. } => {
                has_images = true;
            },
            _ => {},
        }
        i += 1;
    }
    if !has_images {
        let mut text = String::new();
        let mut k: usize = 0;
        while k < content.len()
            invariant
                k <= content@.len(),
                text@ == content_texts(content@.take(k as int)),
            decreases content@.len() - k,
        {
            assert(content@.take(k + 1).drop_last() =~= content@.take(k as int));
            assert(content@.take(k + 1).last() == content@[k as int]);
            match &content[k] {
                ContentItem::InputText { text: t } => push_str(&mut text, t.as_str()),
                ContentItem::OutputText { text: t } => push_str(&mut text, t.as_str()),
                ContentItem::InputImage { .. } => {
                    assert(text@ + Seq::<char>::empty() =~= text@);
                },
            }
            k += 1;
        }
        assert(content@.take(content@.len() as int) =~= content@);
        return JsonValue::Str(text);
    }
    let mut parts: Vec<JsonValue> = Vec::new();
    let mut k: usize = 0;
    while k < content.len()
        invariant
            k <= content@.len(),
            parts@.len() == k,
            forall|j: int| 0 <= j < k ==> content_part(#[trigger] parts@[j], content@[j]),
        decreases content@.len() - k,
    {
        let part = match &content[k] {
            ContentItem::InputText { text } => object2("type", jstr("text"), "text", jstring(text.clone())),
            ContentItem::OutputText { text } => object2("type", jstr("text"), "text", jstring(text.clone())),
            ContentItem::InputImage { image_url } => object2(
                "type",
                jstr("image_url"),
                "image_url",
                object1("url", jstring(image_url.clone())),
            ),
        };
        parts.push(part);
        k += 1;
    }
    JsonValue::Array(parts)
}

/// `m` is an assistant message holding one function call.
pub open spec fn tool_call_message(m: JsonValue, name: Seq<char>, arguments: Seq<char>, call_id: Seq<char>) -> bool {
    let c = items(field(m, 1))[0];
    &&& object_with(m, seq!["role"@, "tool_calls"@])
    &&& str_is(field(m, 0), "assistant"@)
    &&& array_of_len(field(m, 1), 1)
    &&& object_with(c, seq!["id"@, "type"@, "function"@])
    &&& str_is(field(c, 0), call_id)
    &&& str_is(field(c, 1), "function"@)
    &&& object_with(field(c, 2), seq!["name"@, "arguments"@])
    &&& str_is(field(field(c, 2), 0), name)
    &&& str_is(field(field(c, 2), 1), arguments)
}

/// An assistant message holding one function call.
fn chat_tool_call_message(name: &str, arguments: String, call_id: String) -> (m: JsonValue)
    ensures
        tool_call_message(m, name@, arguments@, call_id@),
{
    let function = object2("name", jstr(name), "arguments", jstring(arguments));
    let call = object3("id", jstring(call_id), "type", jstr("function"), "function", function);
    let mut calls: Vec<JsonValue> = Vec::new();
    calls.push(call);
    object2("role", jstr("assistant"), "tool_calls", JsonValue::Array(calls))
}

/// The arguments a custom tool call carries in the chat format: its input
/// as the member `input` of a JSON object.
pub open spec fn custom_call_arguments(input: Seq<char>) -> Seq<char> {
    "{\"input\":"@ + json_quoted(input) + "}"@
}

/// `m` is a tool message answering the call `call_id` with this text.
pub open spec fn tool_output_message(m: JsonValue, call_id: Seq<char>, output: Option<Seq<char>>) -> bool {
    &&& object_with(m, seq!["role"@, "tool_call_id"@, "content"@])
    &&& str_is(field(m, 0), "tool"@)
    &&& str_is(field(m, 1), call_id)
    &&& str_is(field(m, 2), or_empty(output))
}

/// A local shell call that has neither a call id nor an id.
pub open spec fn item_error(item: ResponseItem) -> bool {
    item matches ResponseItem::LocalShellCall { id: None, call_id: None, .. }
}

/// `m` is the chat message an item becomes.
pub open spec fn item_message(item: ResponseItem, m: JsonValue) -> bool {
    match item {
        ResponseItem::Message { role, content, .. } => {
            &&& object_with(m, seq!["role"@, "content"@])
            &&& str_is(field(m, 0), role@)
            &&& chat_content(field(m, 1), content@)
        },
        ResponseItem::FunctionCall { name, arguments, call_id, .. } => tool_call_message(
            m,
            name@,
            arguments@,
            call_id@,
        ),
        ResponseItem::CustomToolCall { name, input, call_id } => tool_call_message(
            m,
            name@,
            custom_call_arguments(input@),
            call_id@,
        ),
        ResponseItem::LocalShellCall { id, call_id, action_json } => tool_call_message(
            m,
            "local_shell"@,
            action_json@,
            match call_id {
                Some(c) => c@,
                None => match id {
                    Some(i) => i@,
                    None => Seq::empty(),
                },
            },
        ),
        ResponseItem::FunctionCallOutput { call_id, output_text } => tool_output_message(
            m,
            call_id@,
            opt_text(output_text),
        ),
        ResponseItem::CustomToolCallOutput { call_id, output_text } => tool_output_message(
            m,
            call_id@,
            opt_text(output_text),
        ),
        ResponseItem::Other => false,
    }
}

/// `ms` are the chat messages the items become, in order; items of kinds
/// the chat format has no place for give none.
pub open spec fn messages_for(input: Seq<ResponseItem>, ms: Seq<JsonValue>) -> bool
    decreases input.len(),
{
    if input.len() == 0 {
        ms.len() == 0
    } else if input.last() is Other {
        messages_for(input.drop_last(), ms)
    } else {
        &&& ms.len() > 0
        &&& item_message(input.last(), ms.last())
        &&& messages_for(input.drop_last(), ms.drop_last())
    }
}

/// `m` is the system message carrying the instructions.
pub open spec fn system_message(m: JsonValue, instructions: Seq<char>) -> bool {
    &&& object_with(m, seq!["role"@, "content"@])
    &&& str_is(field(m, 0), "system"@)
    &&& str_is(field(m, 1), instructions)
}

/// The chat messages of a request: the instructions as a system message
/// unless they are blank, then the conversation.
pub open spec fn chat_messages(ms: Seq<JsonValue>, instructions: Seq<char>, input: Seq<ResponseItem>) -> bool {
    if is_blank(instructions) {
        messages_for(input, ms)
    } else {
        &&& ms.len() > 0
        &&& system_message(ms[0], instructions)
        &&& messages_for(input, ms.drop_first())
    }
}

/// Some item cannot be sent: a local shell call without any id.
pub open spec fn input_error(input: Seq<ResponseItem>) -> bool {
    exists|i: int| 0 <= i < input.len() && item_error(#[trigger] input[i])
}

/// The message refusing a local shell call without an id.
pub open spec fn local_shell_id_message() -> Seq<char> {
    "chat compatibility requires local shell calls to have an id"@
}

/// The chat message an item becomes, none for the kinds the chat format
/// has no place for; a local shell call without an id is refused.
fn translate_item(item: &ResponseItem) -> (r: Result<Option<JsonValue>, ApiError>)
    ensures
        match r {
            Err(e) => item_error(*item) && e.message() == local_shell_id_message() && !e.is_stream(),
            Ok(None) => *item is Other,
            Ok(Some(m)) => !(*item is Other) && !item_error(*item) && item_message(*item, m),
        },
{
    match item {
        ResponseItem::Message { role, content, .. } => Ok(
            Some(
                object2(
                    "role",
                    jstring(role.clone()),
                    "content",
                    translate_content_items_to_chat_content(content.as_slice()),
                ),
            ),
        ),
        ResponseItem::FunctionCall { name, arguments, call_id, .. } => Ok(
            Some(chat_tool_call_message(name.as_str(), arguments.clone(), call_id.clone())),
        ),
        ResponseItem::CustomToolCall { name, input, call_id } => {
            let mut arguments = String::from_str("{\"input\":");
            let quoted = quote_json_string(input.as_str());
            push_str(&mut arguments, quoted.as_str());
            push_str(&mut arguments, "}");
            Ok(Some(chat_tool_call_message(name.as_str(), arguments, call_id.clone())))
        },
        ResponseItem::LocalShellCall { id, call_id, action_json } => {
            let the_id = match call_id {
                Some(c) => c.clone(),
                None => match id {
                    Some(i) => i.clone(),
                    None => {
                        return Err(
                            invalid_request(
                                String::from_str("chat compatibility requires local shell calls to have an id"),
                            ),
                        );
                    },
                },
            };
            Ok(Some(chat_tool_call_message("local_shell", action_json.clone(), the_id)))
        },
        ResponseItem::FunctionCallOutput { call_id, output_text } => Ok(
            Some(tool_output_value(call_id, output_text)),
        ),
        ResponseItem::CustomToolCallOutput { call_id, output_text } => Ok(
            Some(tool_output_value(call_id, output_text)),
        ),
        ResponseItem::Other => Ok(None),
    }
}

/// A tool message answering `call_id` with the output text, or an empty one.
fn tool_output_value(call_id: &String, output_text: &Option<String>) -> (m: JsonValue)
    ensures
        tool_output_message(m, call_id@, opt_text(*output_text)),
{
    let content = match output_text {
        Some(t) => t.clone(),
        None => String::new(),
    };
    object3("role", jstr("tool"), "tool_call_id", jstring(call_id.clone()), "content", jstring(content))
}

/// The chat messages of a request: the instructions as a system message
/// unless they are blank, then each item of the conversation that the chat
/// format has a place for. A local shell call without an id is refused.
pub fn translate_input_to_chat_messages(instructions: &str, input: &[ResponseItem]) -> (r: Result<
    Vec<JsonValue>,
    ApiError,
>)
    ensures
        match r {
            Err(e) => input_error(input@) && e.message() == local_shell_id_message() && !e.is_stream(),
            Ok(ms) => !input_error(input@) && chat_messages(ms@, instructions@, input@),
        },
{
    let mut out: Vec<JsonValue> = Vec::new();
    let mut i: usize = 0;
    while i < input.len()
        invariant
            i <= input@.len(),
            forall|j: int| 0 <= j < i ==> !item_error(#[trigger] input@[j]),
            messages_for(input@.take(i as int), out@),
        decreases input@.len() - i,
    {
        assert(input@.take(i + 1).drop_last() =~= input@.take(i as int));
        assert(input@.take(i + 1).last() == input@[i as int]);
        match translate_item(&input[i]) {
            Err(e) => {
                return Err(e);
            },
            Ok(None) => {},
            Ok(Some(m)) => {
                let ghost before = out@;
                out.push(m);
                assert(out@.drop_last() =~= before);
            },
        }
        i += 1;
    }
    assert(input@.take(input@.len() as int) =~= input@);
    if is_blank_str(instructions) {
        return Ok(out);
    }
    let mut all: Vec<JsonValue> = Vec::new();
    all.push(object2("role", jstr("system"), "content", jstr(instructions)));
    let ghost rest = out@;
    all.append(&mut out);
    assert(all@.drop_first() =~= rest);
    Ok(all)
}

/// The structured output a request asks for: a named JSON schema.
pub struct TextFormat {
    pub name: String,
    pub schema: JsonValue,
    pub strict: bool,
}

/// The text controls of a request.
pub struct TextControls {
    pub format: Option<TextFormat>,
}

/// The format asked for, if any.
pub open spec fn format_of(text: Option<TextControls>) -> Option<TextFormat> {
    match text {
        Some(t) => t.format,
        None => None,
    }
}

/// `v` is the chat response format for a named JSON schema.
pub open spec fn response_format(v: JsonValue, f: TextFormat) -> bool {
    let s = field(v, 1);
    &&& object_with(v, seq!["type"@, "json_schema"@])
    &&& str_is(field(v, 0), "json_schema"@)
    &&& object_with(s, seq!["name"@, "schema"@, "strict"@])
    &&& str_is(field(s, 0), f.name@)
    &&& field(s, 1) == f.schema
    &&& field(s, 2) == JsonValue::Bool(f.strict)
}

/// The chat response format for the output format a request asks for.
pub fn translate_text_controls_to_response_format(text: Option<TextControls>) -> (r: Option<JsonValue>)
    ensures
        match format_of(text) {
            Some(f) => r matches Some(v) && response_format(v, f),
            None => r is None,
        },
{
    let format = match text {
        Some(t) => t.format,
        None => None,
    };
    match format {
        Some(f) => {
            let TextFormat { name, schema, strict } = f;
            let inner = object3("name", jstring(name), "schema", schema, "strict", JsonValue::Bool(strict));
            Some(object2("type", jstr("json_schema"), "json_schema", inner))
        },
        None => None,
    }
}


/// A request in the Responses API shape, as far as the chat translation
/// reads it.
pub struct ResponsesApiRequest {
    pub model: String,
    pub instructions: String,
    pub input: Vec<ResponseItem>,
    pub tools: Vec<JsonValue>,
    pub tool_choice: String,
    pub parallel_tool_calls: bool,
    pub service_tier: Option<String>,
    pub text: Option<TextControls>,
}

/// Why the tools cannot be translated: the refusal of the first that cannot.
pub open spec fn tools_error(tools: Seq<JsonValue>) -> Option<Seq<char>>
    decreases tools.len(),
{
    if tools.len() == 0 {
        None
    } else {
        match tools_error(tools.drop_last()) {
            Some(e) => Some(e),
            None => tool_error(tools.last()),
        }
    }
}

/// `outs` are the chat tools the tools become, in order; dropped tools give none.
pub open spec fn kept_tools(tools: Seq<JsonValue>, outs: Seq<JsonValue>) -> bool
    decreases tools.len(),
{
    if tools.len() == 0 {
        outs.len() == 0
    } else {
        ||| tool_result(tools.last(), None) && kept_tools(tools.drop_last(), outs)
        ||| outs.len() > 0 && tool_result(tools.last(), Some(outs.last())) && kept_tools(
            tools.drop_last(),
            outs.drop_last(),
        )
    }
}

/// The keys of a chat body: model, messages and stream; the tool members
/// where some tool is kept; the service tier and the response format where
/// the request has them.
pub open spec fn body_keys(has_tools: bool, has_tier: bool, has_format: bool) -> Seq<Seq<char>> {
    seq!["model"@, "messages"@, "stream"@] + (if has_tools {
        seq!["tools"@, "tool_choice"@, "parallel_tool_calls"@]
    } else {
        Seq::empty()
    }) + (if has_tier {
        seq!["service_tier"@]
    } else {
        Seq::empty()
    }) + (if has_format {
        seq!["response_format"@]
    } else {
        Seq::empty()
    })
}

/// `body` is the chat body of the request, whose tools became `outs`.
pub open spec fn chat_body(body: JsonValue, request: ResponsesApiRequest, outs: Seq<JsonValue>) -> bool {
    let has_tools = outs.len() > 0;
    let tier_at: int = if has_tools { 6 } else { 3 };
    let format_at: int = tier_at + (if request.service_tier is Some { 1int } else { 0int });
    &&& object_with(body, body_keys(has_tools, request.service_tier is Some, format_of(request.text) is Some))
    &&& str_is(field(body, 0), request.model@)
    &&& chat_messages(items(field(body, 1)), request.instructions@, request.input@)
    &&& field(body, 1) is Array
    &&& field(body, 2) == JsonValue::Bool(true)
    &&& has_tools ==> field(body, 3) is Array && items(field(body, 3)) == outs
    &&& has_tools ==> str_is(field(body, 4), request.tool_choice@)
    &&& has_tools ==> field(body, 5) == JsonValue::Bool(request.parallel_tool_calls)
    &&& match request.service_tier {
        Some(t) => str_is(field(body, tier_at), t@),
        None => true,
    }
    &&& match format_of(request.text) {
        Some(f) => response_format(field(body, format_at), f),
        None => true,
    }
}

/// The tools of a request translated in order; the first that cannot be is refused.
fn translate_tools(tools: Vec<JsonValue>) -> (r: Result<Vec<JsonValue>, ApiError>)
    ensures
        match r {
            Err(e) => tools_error(tools@) == Some(e.message()) && !e.is_stream(),
            Ok(outs) => tools_error(tools@) is None && kept_tools(tools@, outs@),
        },
{
    let ghost ts = tools@;
    let n = tools.len();
    let mut rest = tools;
    let mut kept: Vec<JsonValue> = Vec::new();
    let mut i: usize = 0;
    assert(ts.take(0) =~= Seq::<JsonValue>::empty());
    while rest.len() > 0
        invariant
            i <= ts.len(),
            rest@ == ts.skip(i as int),
            i + rest@.len() == ts.len(),
            ts.len() == n,
            ts == tools@,
            tools_error(ts.take(i as int)) is None,
            kept_tools(ts.take(i as int), kept@),
        decreases rest@.len(),
    {
        let ghost before = rest@;
        let t = rest.remove(0);
        assert(t == ts[i as int]);
        assert(rest@ =~= ts.skip(i + 1));
        assert(ts.take(i + 1).drop_last() =~= ts.take(i as int));
        assert(ts.take(i + 1).last() == ts[i as int]);
        match translate_tool_to_chat_tool(t) {
            Err(e) => {
                assert(tools_error(ts.take(i + 1)) == Some(e.message()));
                proof {
                    lemma_tools_error_stops(ts, i as int + 1);
                }
                return Err(e);
            },
            Ok(None) => {},
            Ok(Some(out)) => {
                let ghost k = kept@;
                kept.push(out);
                assert(kept@.drop_last() =~= k);
            },
        }
        i += 1;
    }
    assert(ts.take(i as int) =~= ts);
    Ok(kept)
}

proof fn lemma_tools_error_stops(ts: Seq<JsonValue>, k: int)
    requires
        0 <= k <= ts.len(),
        tools_error(ts.take(k)) is Some,
    ensures
        tools_error(ts) == tools_error(ts.take(k)),
    decreases ts.len() - k,
{
    if k < ts.len() {
        assert(ts.take(k + 1).drop_last() =~= ts.take(k));
        lemma_tools_error_stops(ts, k + 1);
    } else {
        assert(ts.take(k) =~= ts);
    }
}

/// The body of a chat completions request for a Responses API request:
/// the model, the messages, streaming on; the translated tools with the tool
/// choice and parallel calls where some tool is kept; the service tier and
/// the response format where the request has them. The messages are
/// refused first, then the tools.
pub fn translate_responses_request_to_chat_body(request: ResponsesApiRequest) -> (r: Result<JsonValue, ApiError>)
    ensures
        match r {
            Err(e) => !e.is_stream() && if input_error(request.input@) {
                e.message() == local_shell_id_message()
            } else {
                tools_error(request.tools@) == Some(e.message())
            },
            Ok(body) => {
                &&& !input_error(request.input@)
                &&& tools_error(request.tools@) is None
                &&& exists|outs: Seq<JsonValue>| kept_tools(request.tools@, outs) && chat_body(body, request, outs)
            },
        },
{
    let ghost req = request;
    let ResponsesApiRequest {
        model,
        instructions,
        input,
        tools,
        tool_choice,
        parallel_tool_calls,
        service_tier,
        text,
    } = request;
    let messages = match translate_input_to_chat_messages(instructions.as_str(), input.as_slice()) {
        Ok(ms) => ms,
        Err(e) => {
            return Err(e);
        },
    };
    let outs = match translate_tools(tools) {
        Ok(outs) => outs,
        Err(e) => {
            return Err(e);
        },
    };
    let ghost outs_view = outs@;
    let has_tools = outs.len() > 0;
    let has_tier = service_tier.is_some();
    let format = translate_text_controls_to_response_format(text);
    let has_format = format.is_some();
    let mut ms: Vec<JsonMember> = Vec::new();
    push_member(&mut ms, "model", jstring(model));
    push_member(&mut ms, "messages", JsonValue::Array(messages));
    push_member(&mut ms, "stream", JsonValue::Bool(true));
    let ghost m3 = ms@;
    if has_tools {
        push_member(&mut ms, "tools", JsonValue::Array(outs));
        push_member(&mut ms, "tool_choice", jstring(tool_choice));
        push_member(&mut ms, "parallel_tool_calls", JsonValue::Bool(parallel_tool_calls));
    }
    let ghost m6 = ms@;
    match service_tier {
        Some(t) => {
            push_member(&mut ms, "service_tier", jstring(t));
        },
        None => {},
    }
    let ghost m7 = ms@;
    match format {
        Some(f) => {
            push_member(&mut ms, "response_format", f);
        },
        None => {},
    }
    assert(keys_of(ms@) =~= body_keys(has_tools, has_tier, has_format));
    let body = JsonValue::Object(ms);
    assert(chat_body(body, req, outs_view));
    Ok(body)
}

} // verus!
