//! The `smart_write` tool: structural edits of existing source files
//! inside the current project.
use vstd::prelude::*;
use crate::error;
use crate::error::FunctionCallError;
use crate::read_file;
use crate::text;
use crate::tool_spec::JsonSchema;
use crate::tool_spec::ResponsesApiTool;
use crate::tool_spec::ToolEnvironment;
use crate::tool_spec::ToolSpec;
use crate::tool_spec::boolean_schema;
use crate::tool_spec::integer_schema;
use crate::tool_spec::is_boolean;
use crate::tool_spec::is_function_tool;
use crate::tool_spec::is_integer;
use crate::tool_spec::is_string;
use crate::tool_spec::is_string_enum;
use crate::tool_spec::parameters_of;
use crate::tool_spec::property;
use crate::tool_spec::required_is;
use crate::tool_spec::string_schema;
use crate::smart_read::environment_check;

verus! {

/// Bytes of the edited file shown after an edit.
pub const SMART_WRITE_PREVIEW_LIMIT: usize = 2000;

/// Whether the tool takes an environment id.
#[derive(Clone, Copy, Debug)]
pub struct SmartWriteToolOptions {
    pub include_environment_id: bool,
}

/// The smart write tool.
pub struct SmartWriteHandler {
    pub options: SmartWriteToolOptions,
}

/// The structural operations the tool offers.
#[derive(Clone, Copy, PartialEq, Eq, Structural, Debug)]
pub enum SmartWriteOperation {
    ReplaceFunction,
    ReplaceSymbol,
    InsertAfter,
    Delete,
    ReplaceLines,
}

/// A smart write call's arguments.
pub struct SmartWriteArgs {
    pub path: String,
    pub operation: SmartWriteOperation,
    pub target: String,
    pub content: String,
    pub after: Option<String>,
    pub dry_run: bool,
    pub environment_id: Option<String>,
}

/// A structural edit of a file.
#[derive(Clone, Debug)]
pub enum StructuralEdit {
    ReplaceFunction { name: String, content: String },
    ReplaceSymbol { name: String, content: String },
    InsertAfter { anchor: String, content: String },
    DeleteSymbol { name: String },
    /// Lines `start` to `end`, 1-based and inclusive.
    ReplaceLines { start: usize, end: usize, content: String },
}

/// The properties of the `smart_write` tool's arguments, in key order.
pub open spec fn smart_write_properties(p: Seq<(String, JsonSchema)>, env: bool) -> bool {
    if env {
        p.len() == 7 &&
        p[0].0@ == "after"@ && is_string(p[0].1, "For insert_after, the symbol to insert after. Defaults to target."@) &&
        p[1].0@ == "content"@ && is_string(p[1].1, "Replacement or inserted content. Use an empty string for delete."@) &&
        p[2].0@ == "dry_run"@ && is_boolean(p[2].1, "Preview the edit without writing the file. Defaults to false."@) &&
        p[3].0@ == "environment_id"@ && is_string(p[3].1, "Environment id from <environment_context>. Omit to use the primary environment."@) &&
        p[4].0@ == "operation"@ && is_string_enum(p[4].1, seq!["replace_function"@, "replace_symbol"@, "insert_after"@, "delete"@, "replace_lines"@], "Structural edit operation to apply."@) &&
        p[5].0@ == "path"@ && is_string(p[5].1, "Path to an existing source file inside the current project."@) &&
        p[6].0@ == "target"@ && is_string(p[6].1, "Target symbol name, or a 1-based inclusive line range like `10:20` for replace_lines."@)
    } else {
        p.len() == 6 &&
        p[0].0@ == "after"@ && is_string(p[0].1, "For insert_after, the symbol to insert after. Defaults to target."@) &&
        p[1].0@ == "content"@ && is_string(p[1].1, "Replacement or inserted content. Use an empty string for delete."@) &&
        p[2].0@ == "dry_run"@ && is_boolean(p[2].1, "Preview the edit without writing the file. Defaults to false."@) &&
        p[3].0@ == "operation"@ && is_string_enum(p[3].1, seq!["replace_function"@, "replace_symbol"@, "insert_after"@, "delete"@, "replace_lines"@], "Structural edit operation to apply."@) &&
        p[4].0@ == "path"@ && is_string(p[4].1, "Path to an existing source file inside the current project."@) &&
        p[5].0@ == "target"@ && is_string(p[5].1, "Target symbol name, or a 1-based inclusive line range like `10:20` for replace_lines."@)
    }
}

/// The `smart_write` tool: its name, its description, and a closed object of
/// its arguments.
pub open spec fn smart_write_tool_holds(t: ToolSpec, env: bool) -> bool {
    &&& is_function_tool(t, "smart_write"@, "Edit existing source files through llm-code-sdk's SmartWrite structural operations. Prefer this for surgical function, symbol, insertion, deletion, or line-range edits."@)
    &&& parameters_of(t) matches JsonSchema::Object { properties, required, additional_properties }
        && smart_write_properties(properties@, env) && additional_properties == Some(false)
        && required_is(required, Some(seq!["path"@, "operation"@, "target"@, "content"@]))
}

pub fn create_smart_write_tool(options: SmartWriteToolOptions) -> (t: ToolSpec)
    ensures
        smart_write_tool_holds(t, options.include_environment_id),
{
    let mut properties: Vec<(String, JsonSchema)> = Vec::new();
    if options.include_environment_id {
        properties.push(property("after", string_schema("For insert_after, the symbol to insert after. Defaults to target.")));
        properties.push(property("content", string_schema("Replacement or inserted content. Use an empty string for delete.")));
        properties.push(property("dry_run", boolean_schema("Preview the edit without writing the file. Defaults to false.")));
        properties.push(property("environment_id", string_schema("Environment id from <environment_context>. Omit to use the primary environment.")));
        let mut values: Vec<String> = Vec::new();
        values.push(String::from_str("replace_function"));
        values.push(String::from_str("replace_symbol"));
        values.push(String::from_str("insert_after"));
        values.push(String::from_str("delete"));
        values.push(String::from_str("replace_lines"));
        assert(text::strings_view(values@) =~= seq!["replace_function"@, "replace_symbol"@, "insert_after"@, "delete"@, "replace_lines"@]);
        properties.push(property("operation", JsonSchema::StringEnum { values, description: Some(String::from_str("Structural edit operation to apply.")) }));
        properties.push(property("path", string_schema("Path to an existing source file inside the current project.")));
        properties.push(property("target", string_schema("Target symbol name, or a 1-based inclusive line range like `10:20` for replace_lines.")));
    } else {
        properties.push(property("after", string_schema("For insert_after, the symbol to insert after. Defaults to target.")));
        properties.push(property("content", string_schema("Replacement or inserted content. Use an empty string for delete.")));
        properties.push(property("dry_run", boolean_schema("Preview the edit without writing the file. Defaults to false.")));
        let mut values: Vec<String> = Vec::new();
        values.push(String::from_str("replace_function"));
        values.push(String::from_str("replace_symbol"));
        values.push(String::from_str("insert_after"));
        values.push(String::from_str("delete"));
        values.push(String::from_str("replace_lines"));
        assert(text::strings_view(values@) =~= seq!["replace_function"@, "replace_symbol"@, "insert_after"@, "delete"@, "replace_lines"@]);
        properties.push(property("operation", JsonSchema::StringEnum { values, description: Some(String::from_str("Structural edit operation to apply.")) }));
        properties.push(property("path", string_schema("Path to an existing source file inside the current project.")));
        properties.push(property("target", string_schema("Target symbol name, or a 1-based inclusive line range like `10:20` for replace_lines.")));
    }
    assert(smart_write_properties(properties@, options.include_environment_id));
    let required = {
            let mut r: Vec<String> = Vec::new();
            r.push(String::from_str("path"));
            r.push(String::from_str("operation"));
            r.push(String::from_str("target"));
            r.push(String::from_str("content"));
            assert(text::strings_view(r@) =~= seq!["path"@, "operation"@, "target"@, "content"@]);
            Some(r)
        };
    ToolSpec::Function(ResponsesApiTool {
        name: String::from_str("smart_write"),
        description: String::from_str("Edit existing source files through llm-code-sdk's SmartWrite structural operations. Prefer this for surgical function, symbol, insertion, deletion, or line-range edits."),
        strict: false,
        parameters: JsonSchema::Object { properties, required, additional_properties: Some(false) },
    })
}

/// What a `replace_lines` target such as `10:20` says: the lines around
/// the first `:`, each a number (a leading `+` allowed), positive, in
/// order; else the message saying what is wrong.
pub open spec fn line_range(target: Seq<char>) -> Result<(nat, nat), Seq<char>> {
    match text::find_char(target, ':') {
        None => Err("replace_lines target must be a 1-based inclusive range like `10:20`"@),
        Some(i) => {
            let start = target.take(i);
            let end = target.skip(i + 1);
            match text::parse_usize(start) {
                None => Err("replace_lines start line `"@ + start + "` is not a positive integer"@),
                Some(s) => match text::parse_usize(end) {
                    None => Err("replace_lines end line `"@ + end + "` is not a positive integer"@),
                    Some(e) => if s == 0 || e == 0 || s > e {
                        Err("replace_lines target `"@ + target + "` must use positive lines with start <= end"@)
                    } else {
                        Ok((s, e))
                    },
                },
            }
        },
    }
}

/// Reads a `replace_lines` target.
pub fn parse_line_range(target: &str) -> (r: Result<(usize, usize), FunctionCallError>)
    ensures
        match line_range(target@) {
            Ok((s, e)) => r matches Ok((a, b)) && a == s && b == e,
            Err(m) => r matches Err(x) && x.message() == m,
        },
{
    let v = text::chars_of(target);
    proof {
        text::lemma_find_char(v@, ':');
    }
    let colon = match text::find_char_from(v.as_slice(), ':', 0) {
        Some(i) => i,
        None => {
            return Err(error::respond("replace_lines target must be a 1-based inclusive range like `10:20`"));
        },
    };
    proof {
        text::lemma_find_char_unique(v@, ':', colon as int);
    }
    let start_chars = text::sub_chars(v.as_slice(), 0, colon);
    let end_chars = text::sub_chars(v.as_slice(), colon + 1, v.len());
    assert(start_chars@ =~= v@.take(colon as int));
    assert(end_chars@ =~= v@.skip(colon + 1));
    let start = match text::parse_usize_chars(start_chars.as_slice()) {
        Some(s) => s,
        None => {
            let mut m = text::chars_of("replace_lines start line `");
            text::extend_chars(&mut m, start_chars.as_slice());
            text::push_chars(&mut m, "` is not a positive integer");
            return Err(error::respond_with(text::string_of(m.as_slice())));
        },
    };
    let end = match text::parse_usize_chars(end_chars.as_slice()) {
        Some(e) => e,
        None => {
            let mut m = text::chars_of("replace_lines end line `");
            text::extend_chars(&mut m, end_chars.as_slice());
            text::push_chars(&mut m, "` is not a positive integer");
            return Err(error::respond_with(text::string_of(m.as_slice())));
        },
    };
    if start == 0 || end == 0 || start > end {
        let mut m = text::chars_of("replace_lines target `");
        text::push_chars(&mut m, target);
        text::push_chars(&mut m, "` must use positive lines with start <= end");
        return Err(error::respond_with(text::string_of(m.as_slice())));
    }
    Ok((start, end))
}

/// The edit an operation stands for: insert after `after` when given, else
/// after the target; line ranges are read from the target.
pub fn structural_edit(operation: SmartWriteOperation, target: &str, content: &str, after: Option<&str>) -> (r: Result<
    StructuralEdit,
    FunctionCallError,
>)
    ensures
        match operation {
            SmartWriteOperation::ReplaceFunction => r matches Ok(StructuralEdit::ReplaceFunction { name, content: c })
                && name@ == target@ && c@ == content@,
            SmartWriteOperation::ReplaceSymbol => r matches Ok(StructuralEdit::ReplaceSymbol { name, content: c })
                && name@ == target@ && c@ == content@,
            SmartWriteOperation::InsertAfter => r matches Ok(StructuralEdit::InsertAfter { anchor, content: c })
                && anchor@ == (match after {
                Some(a) => a@,
                None => target@,
            }) && c@ == content@,
            SmartWriteOperation::Delete => r matches Ok(StructuralEdit::DeleteSymbol { name }) && name@ == target@,
            SmartWriteOperation::ReplaceLines => match line_range(target@) {
                Ok((s, e)) => r matches Ok(StructuralEdit::ReplaceLines { start, end, content: c }) && start == s && end
                    == e && c@ == content@,
                Err(m) => r matches Err(x) && x.message() == m,
            },
        },
{
    match operation {
        SmartWriteOperation::ReplaceFunction => Ok(
            StructuralEdit::ReplaceFunction { name: target.to_owned(), content: content.to_owned() },
        ),
        SmartWriteOperation::ReplaceSymbol => Ok(
            StructuralEdit::ReplaceSymbol { name: target.to_owned(), content: content.to_owned() },
        ),
        SmartWriteOperation::InsertAfter => {
            let anchor = match after {
                Some(a) => a.to_owned(),
                None => target.to_owned(),
            };
            Ok(StructuralEdit::InsertAfter { anchor, content: content.to_owned() })
        },
        SmartWriteOperation::Delete => Ok(StructuralEdit::DeleteSymbol { name: target.to_owned() }),
        SmartWriteOperation::ReplaceLines => {
            let (start, end) = parse_line_range(target)?;
            Ok(StructuralEdit::ReplaceLines { start, end, content: content.to_owned() })
        },
    }
}

/// The preview of the edited file: all of it when it fits `limit` bytes,
/// else what fits (cut at a character) and a note of its size in bytes.
pub open spec fn preview(content: &str, limit: usize) -> Seq<char> {
    if content.len() <= limit {
        content@
    } else {
        read_file::truncate_utf8(content@, limit as int) + "...\n(truncated, "@ + text::decimal(content.len() as nat)
            + " total chars)"@
    }
}

pub fn truncate_preview(content: &str, limit: usize) -> (r: String)
    ensures
        r@ == preview(content, limit),
        content.len() <= limit ==> r@ == content@,
        content.len() > limit ==> exists|k: int|
            0 <= k <= content@.len() && r@ == content@.take(k) + "...\n(truncated, "@ + text::decimal(
                content.len() as nat,
            ) + " total chars)"@ && read_file::utf8_len(content@.take(k)) <= limit && (k < content@.len()
                ==> read_file::utf8_len(content@.take(k + 1)) > limit),
{
    proof {
        lemma_preview_fits(content, limit);
    }
    let n = content.len();
    if n <= limit {
        return content.to_owned();
    }
    let mut v = text::chars_of(read_file::truncate_to_bytes(content, limit).as_str());
    text::push_chars(&mut v, "...\n(truncated, ");
    text::push_decimal(&mut v, n);
    text::push_chars(&mut v, " total chars)");
    text::string_of(v.as_slice())
}

/// The preview is the whole file when it fits; otherwise it is the longest
/// prefix that fits `limit` bytes, never splitting a character, then the
/// note with the file's size.
pub proof fn lemma_preview_fits(content: &str, limit: usize)
    ensures
        content.len() <= limit ==> preview(content, limit) == content@,
        content.len() > limit ==> exists|k: int|
            0 <= k <= content@.len() && preview(content, limit) == content@.take(k) + "...\n(truncated, "@
                + text::decimal(content.len() as nat) + " total chars)"@ && read_file::utf8_len(content@.take(k))
                <= limit && (k < content@.len() ==> read_file::utf8_len(content@.take(k + 1)) > limit),
{
    read_file::lemma_truncate_utf8_longest_fit(content@, limit as int);
    if content.len() > limit {
        let k = read_file::truncate_utf8(content@, limit as int).len() as int;
        assert(preview(content, limit) == content@.take(k) + "...\n(truncated, "@ + text::decimal(content.len() as nat)
            + " total chars)"@);
    }
}

/// A `replace_lines` target reads as lines `s` to `e` exactly when the
/// text before its first `:` is the number `s`, the text after it the
/// number `e`, and `1 <= s <= e`.
pub proof fn lemma_line_range_reads(target: Seq<char>, s: nat, e: nat)
    ensures
        (line_range(target) == Ok::<(nat, nat), Seq<char>>((s, e))) == (exists|i: int|
            0 <= i < target.len() && target[i] == ':' && !target.take(i).contains(':') && text::parse_usize(
                target.take(i),
            ) == Some(s) && text::parse_usize(target.skip(i + 1)) == Some(e) && 1 <= s <= e),
{
    text::lemma_find_char(target, ':');
    if exists|i: int|
        0 <= i < target.len() && target[i] == ':' && !target.take(i).contains(':') && text::parse_usize(target.take(i))
            == Some(s) && text::parse_usize(target.skip(i + 1)) == Some(e) && 1 <= s <= e {
        let i = choose|i: int|
            0 <= i < target.len() && target[i] == ':' && !target.take(i).contains(':') && text::parse_usize(
                target.take(i),
            ) == Some(s) && text::parse_usize(target.skip(i + 1)) == Some(e) && 1 <= s <= e;
        match text::find_char(target, ':') {
            Some(j) => {
                if j < i {
                    assert(target.take(i)[j] == ':');
                }
                if i < j {
                    assert(target[i] == ':');
                }
            },
            None => {
                assert(target[i] == ':');
            },
        }
    }
    match text::find_char(target, ':') {
        Some(j) => {
            assert forall|x: int| 0 <= x < target.take(j).len() implies target.take(j)[x] != ':' by {}
            assert(!target.take(j).contains(':'));
        },
        None => {},
    }
}

/// The tool's answer: whether the edit was previewed or applied, then the
/// preview of the file.
pub fn format_smart_write_output(new_content: &str, dry_run: bool) -> (r: String)
    ensures
        r@ == "Edit "@ + (if dry_run { "previewed"@ } else { "applied"@ }) + " successfully.\n\n"@ + preview(
            new_content,
            SMART_WRITE_PREVIEW_LIMIT,
        ),
{
    let mut s = String::from_str("Edit ");
    text::push_str(&mut s, if dry_run { "previewed" } else { "applied" });
    text::push_str(&mut s, " successfully.\n\n");
    let p = truncate_preview(new_content, SMART_WRITE_PREVIEW_LIMIT);
    text::push_str(&mut s, p.as_str());
    s
}

impl SmartWriteHandler {
    pub fn new(options: SmartWriteToolOptions) -> (h: SmartWriteHandler)
        ensures
            h.options.include_environment_id == options.include_environment_id,
    {
        SmartWriteHandler { options }
    }

    pub fn tool_name(&self) -> (s: &'static str)
        ensures
            s@ == "smart_write"@,
    {
        "smart_write"
    }

    pub fn spec(&self) -> (t: ToolSpec)
        ensures
            smart_write_tool_holds(t, self.options.include_environment_id),
    {
        create_smart_write_tool(self.options)
    }

    /// The error for a call that does not carry function arguments.
    pub fn unsupported_payload(&self) -> (e: FunctionCallError)
        ensures
            e.message() == "smart_write handler received unsupported payload"@,
    {
        error::respond("smart_write handler received unsupported payload")
    }

    /// The directory to edit in, or the error for a missing or remote
    /// environment.
    pub fn environment(&self, environment: &ToolEnvironment) -> (r: Result<String, FunctionCallError>)
        ensures
            match crate::smart_read::environment_error("smart_write"@, *environment) {
                None => r matches Ok(c) && (environment matches ToolEnvironment::Local { cwd } && c@ == cwd@),
                Some(m) => r matches Err(e) && e.message() == m,
            },
    {
        environment_check("smart_write", environment)
    }
}

} // verus!
