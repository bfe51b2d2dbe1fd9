//! The `smart_search` tool: git-history-aware project search.
use vstd::prelude::*;
use crate::error;
use crate::error::FunctionCallError;
use crate::paths;
use crate::text;
use crate::tool_spec::JsonSchema;
use crate::tool_spec::ResponsesApiTool;
use crate::tool_spec::ToolEnvironment;
use crate::tool_spec::ToolSpec;
use crate::tool_spec::boolean_schema;
use crate::tool_spec::integer_schema;
use crate::tool_spec::is_boolean;
use crate::tool_spec::is_function_tool;
use crate::tool_spec::is_integer;
use crate::tool_spec::is_string;
use crate::tool_spec::is_string_enum;
use crate::tool_spec::parameters_of;
use crate::tool_spec::property;
use crate::tool_spec::required_is;
use crate::tool_spec::string_schema;
use crate::smart_read::environment_check;

verus! {

/// Commits returned when the call names no limit.
pub const DEFAULT_SMART_SEARCH_LIMIT: usize = 20;
/// Days of recent activity looked at when the call names none.
pub const DEFAULT_SMART_SEARCH_DAYS: usize = 7;
/// Most commits returned.
pub const MAX_SMART_SEARCH_LIMIT: usize = 100;
/// Most days of recent activity looked at.
pub const MAX_SMART_SEARCH_DAYS: usize = 365;

/// Whether the tool takes an environment id.
#[derive(Clone, Copy, Debug)]
pub struct SmartSearchToolOptions {
    pub include_environment_id: bool,
}

/// The smart search tool.
pub struct SmartSearchHandler {
    pub options: SmartSearchToolOptions,
}

/// A smart search call's arguments.
pub struct SmartSearchArgs {
    pub query: Option<String>,
    pub limit: Option<usize>,
    pub days: Option<usize>,
    pub environment_id: Option<String>,
}

/// What the search is given: the query when it is not blank, the commits
/// wanted and the days looked at, each defaulted and capped.
pub struct SmartSearchInput {
    pub query: Option<String>,
    pub limit: usize,
    pub days: usize,
}

/// The properties of the `smart_search` tool's arguments, in key order.
pub open spec fn smart_search_properties(p: Seq<(String, JsonSchema)>, env: bool) -> bool {
    if env {
        p.len() == 4 &&
        p[0].0@ == "days"@ && is_integer(p[0].1, "For recent activity mode, how many days back to inspect. Defaults to 7 and is capped at 365."@) &&
        p[1].0@ == "environment_id"@ && is_string(p[1].1, "Environment id from <environment_context>. Omit to use the primary environment."@) &&
        p[2].0@ == "limit"@ && is_integer(p[2].1, "Maximum number of commits to return. Defaults to 20 and is capped at 100."@) &&
        p[3].0@ == "query"@ && is_string(p[3].1, "Git history query: issue number, phrase, commit message, or omit for recent activity."@)
    } else {
        p.len() == 3 &&
        p[0].0@ == "days"@ && is_integer(p[0].1, "For recent activity mode, how many days back to inspect. Defaults to 7 and is capped at 365."@) &&
        p[1].0@ == "limit"@ && is_integer(p[1].1, "Maximum number of commits to return. Defaults to 20 and is capped at 100."@) &&
        p[2].0@ == "query"@ && is_string(p[2].1, "Git history query: issue number, phrase, commit message, or omit for recent activity."@)
    }
}

/// The `smart_search` tool: its name, its description, and a closed object of
/// its arguments.
pub open spec fn smart_search_tool_holds(t: ToolSpec, env: bool) -> bool {
    &&& is_function_tool(t, "smart_search"@, "Expose llm-code-sdk's MRSearchTool as SmartSearch for git-history-aware project search. Omit query for recent activity."@)
    &&& parameters_of(t) matches JsonSchema::Object { properties, required, additional_properties }
        && smart_search_properties(properties@, env) && additional_properties == Some(false)
        && required_is(required, None)
}

pub fn create_smart_search_tool(options: SmartSearchToolOptions) -> (t: ToolSpec)
    ensures
        smart_search_tool_holds(t, options.include_environment_id),
{
    let mut properties: Vec<(String, JsonSchema)> = Vec::new();
    if options.include_environment_id {
        properties.push(property("days", integer_schema("For recent activity mode, how many days back to inspect. Defaults to 7 and is capped at 365.")));
        properties.push(property("environment_id", string_schema("Environment id from <environment_context>. Omit to use the primary environment.")));
        properties.push(property("limit", integer_schema("Maximum number of commits to return. Defaults to 20 and is capped at 100.")));
        properties.push(property("query", string_schema("Git history query: issue number, phrase, commit message, or omit for recent activity.")));
    } else {
        properties.push(property("days", integer_schema("For recent activity mode, how many days back to inspect. Defaults to 7 and is capped at 365.")));
        properties.push(property("limit", integer_schema("Maximum number of commits to return. Defaults to 20 and is capped at 100.")));
        properties.push(property("query", string_schema("Git history query: issue number, phrase, commit message, or omit for recent activity.")));
    }
    assert(smart_search_properties(properties@, options.include_environment_id));
    let required = None;
    ToolSpec::Function(ResponsesApiTool {
        name: String::from_str("smart_search"),
        description: String::from_str("Expose llm-code-sdk's MRSearchTool as SmartSearch for git-history-aware project search. Omit query for recent activity."),
        strict: false,
        parameters: JsonSchema::Object { properties, required, additional_properties: Some(false) },
    })
}

/// `value` (or `default` when absent), at most `max`.
pub open spec fn capped(value: Option<usize>, default: usize, max: usize) -> usize {
    let v = match value {
        Some(v) => v,
        None => default,
    };
    if v <= max { v } else { max }
}

fn cap(value: Option<usize>, default: usize, max: usize) -> (r: usize)
    ensures
        r == capped(value, default, max),
{
    let v = match value {
        Some(v) => v,
        None => default,
    };
    if v <= max { v } else { max }
}

/// The search's input for a call.
pub fn smart_search_input(args: SmartSearchArgs) -> (r: SmartSearchInput)
    ensures
        match args.query {
            Some(q) if !text::is_blank(q@) => r.query matches Some(x) && x@ == q@,
            _ => r.query is None,
        },
        r.limit == capped(args.limit, DEFAULT_SMART_SEARCH_LIMIT, MAX_SMART_SEARCH_LIMIT),
        r.days == capped(args.days, DEFAULT_SMART_SEARCH_DAYS, MAX_SMART_SEARCH_DAYS),
{
    let query = match args.query {
        Some(q) => if text::is_blank_str(q.as_str()) { None } else { Some(q) },
        None => None,
    };
    SmartSearchInput {
        query,
        limit: cap(args.limit, DEFAULT_SMART_SEARCH_LIMIT, MAX_SMART_SEARCH_LIMIT),
        days: cap(args.days, DEFAULT_SMART_SEARCH_DAYS, MAX_SMART_SEARCH_DAYS),
    }
}

impl SmartSearchHandler {
    pub fn new(options: SmartSearchToolOptions) -> (h: SmartSearchHandler)
        ensures
            h.options.include_environment_id == options.include_environment_id,
    {
        SmartSearchHandler { options }
    }

    pub fn tool_name(&self) -> (s: &'static str)
        ensures
            s@ == "smart_search"@,
    {
        "smart_search"
    }

    pub fn spec(&self) -> (t: ToolSpec)
        ensures
            smart_search_tool_holds(t, self.options.include_environment_id),
    {
        create_smart_search_tool(self.options)
    }

    pub fn supports_parallel_tool_calls(&self) -> (b: bool)
        ensures
            b,
    {
        true
    }

    /// The error for a call that does not carry function arguments.
    pub fn unsupported_payload(&self) -> (e: FunctionCallError)
        ensures
            e.message() == "smart_search handler received unsupported payload"@,
    {
        error::respond("smart_search handler received unsupported payload")
    }

    /// The directory to search, or the error for a missing or remote
    /// environment.
    pub fn environment(&self, environment: &ToolEnvironment) -> (r: Result<String, FunctionCallError>)
        ensures
            match crate::smart_read::environment_error("smart_search"@, *environment) {
                None => r matches Ok(c) && (environment matches ToolEnvironment::Local { cwd } && c@ == cwd@),
                Some(m) => r matches Err(e) && e.message() == m,
            },
    {
        environment_check("smart_search", environment)
    }
}

} // verus!
