//! The `search` tool: ranked code search over the current project.
use vstd::prelude::*;
use crate::error;
use crate::error::FunctionCallError;
use crate::text;
use crate::tool_spec::JsonSchema;
use crate::tool_spec::ResponsesApiTool;
use crate::tool_spec::ToolEnvironment;
use crate::tool_spec::ToolSpec;
use crate::tool_spec::boolean_schema;
use crate::tool_spec::integer_schema;
use crate::tool_spec::is_boolean;
use crate::tool_spec::is_function_tool;
use crate::tool_spec::is_integer;
use crate::tool_spec::is_string;
use crate::tool_spec::is_string_enum;
use crate::tool_spec::parameters_of;
use crate::tool_spec::property;
use crate::tool_spec::required_is;
use crate::tool_spec::string_schema;

verus! {

/// Results a search returns when the call names no limit.
pub const DEFAULT_SEARCH_LIMIT: usize = 10;
/// Most results a search returns.
pub const MAX_SEARCH_LIMIT: usize = 50;

/// Whether the tool takes an environment id.
#[derive(Clone, Copy, Debug)]
pub struct SearchToolOptions {
    pub include_environment_id: bool,
}

/// The search tool.
pub struct SearchHandler {
    pub options: SearchToolOptions,
}

/// A search call's arguments.
pub struct SearchArgs {
    pub query: String,
    pub limit: Option<usize>,
    pub environment_id: Option<String>,
}

/// The properties of the `search` tool's arguments, in key order.
pub open spec fn search_properties(p: Seq<(String, JsonSchema)>, env: bool) -> bool {
    if env {
        p.len() == 3 &&
        p[0].0@ == "environment_id"@ && is_string(p[0].1, "Environment id from <environment_context>. Omit to use the primary environment."@) &&
        p[1].0@ == "limit"@ && is_integer(p[1].1, "Maximum number of results to return. Defaults to 10 and is capped at 50."@) &&
        p[2].0@ == "query"@ && is_string(p[2].1, "Code search query. Prefix matching is supported by the llm-code-sdk index."@)
    } else {
        p.len() == 2 &&
        p[0].0@ == "limit"@ && is_integer(p[0].1, "Maximum number of results to return. Defaults to 10 and is capped at 50."@) &&
        p[1].0@ == "query"@ && is_string(p[1].1, "Code search query. Prefix matching is supported by the llm-code-sdk index."@)
    }
}

/// The `search` tool: its name, its description, and a closed object of
/// its arguments.
pub open spec fn search_tool_holds(t: ToolSpec, env: bool) -> bool {
    &&& is_function_tool(t, "search"@, "Search the current project with llm-code-sdk's SearchTool and return file paths ranked by relevance."@)
    &&& parameters_of(t) matches JsonSchema::Object { properties, required, additional_properties }
        && search_properties(properties@, env) && additional_properties == Some(false)
        && required_is(required, Some(seq!["query"@]))
}

pub fn create_search_tool(options: SearchToolOptions) -> (t: ToolSpec)
    ensures
        search_tool_holds(t, options.include_environment_id),
{
    let mut properties: Vec<(String, JsonSchema)> = Vec::new();
    if options.include_environment_id {
        properties.push(property("environment_id", string_schema("Environment id from <environment_context>. Omit to use the primary environment.")));
        properties.push(property("limit", integer_schema("Maximum number of results to return. Defaults to 10 and is capped at 50.")));
        properties.push(property("query", string_schema("Code search query. Prefix matching is supported by the llm-code-sdk index.")));
    } else {
        properties.push(property("limit", integer_schema("Maximum number of results to return. Defaults to 10 and is capped at 50.")));
        properties.push(property("query", string_schema("Code search query. Prefix matching is supported by the llm-code-sdk index.")));
    }
    assert(search_properties(properties@, options.include_environment_id));
    let required = {
            let mut r: Vec<String> = Vec::new();
            r.push(String::from_str("query"));
            assert(text::strings_view(r@) =~= seq!["query"@]);
            Some(r)
        };
    ToolSpec::Function(ResponsesApiTool {
        name: String::from_str("search"),
        description: String::from_str("Search the current project with llm-code-sdk's SearchTool and return file paths ranked by relevance."),
        strict: false,
        parameters: JsonSchema::Object { properties, required, additional_properties: Some(false) },
    })
}

/// How many results a search returns: the limit asked for (ten when none),
/// at most fifty.
pub open spec fn limit_spec(limit: Option<usize>) -> usize {
    let l = match limit {
        Some(l) => l,
        None => DEFAULT_SEARCH_LIMIT,
    };
    if l <= MAX_SEARCH_LIMIT { l } else { MAX_SEARCH_LIMIT }
}

pub fn search_limit(limit: Option<usize>) -> (n: usize)
    ensures
        n == limit_spec(limit),
{
    let l = match limit {
        Some(l) => l,
        None => DEFAULT_SEARCH_LIMIT,
    };
    if l <= MAX_SEARCH_LIMIT { l } else { MAX_SEARCH_LIMIT }
}

impl SearchHandler {
    pub fn new(options: SearchToolOptions) -> (h: SearchHandler)
        ensures
            h.options.include_environment_id == options.include_environment_id,
    {
        SearchHandler { options }
    }

    pub fn tool_name(&self) -> (s: &'static str)
        ensures
            s@ == "search"@,
    {
        "search"
    }

    pub fn spec(&self) -> (t: ToolSpec)
        ensures
            search_tool_holds(t, self.options.include_environment_id),
    {
        create_search_tool(self.options)
    }

    pub fn supports_parallel_tool_calls(&self) -> (b: bool)
        ensures
            b,
    {
        true
    }

    /// The error for a call that does not carry function arguments.
    pub fn unsupported_payload(&self) -> (e: FunctionCallError)
        ensures
            e.message() == "search handler received unsupported payload"@,
    {
        error::respond("search handler received unsupported payload")
    }

    /// What a call asks for, checked: a query that is not blank, and a
    /// local environment; the query, the results wanted, and the directory to
    /// search.
    pub fn request(&self, args: &SearchArgs, environment: &ToolEnvironment) -> (r: Result<(String, usize, String), FunctionCallError>)
        ensures
            match r {
                Ok((q, n, cwd)) => !text::is_blank(args.query@) && q@ == args.query@ && n == limit_spec(args.limit)
                    && (environment matches ToolEnvironment::Local { cwd: c } && cwd@ == c@),
                Err(e) => if text::is_blank(args.query@) {
                    e.message() == "search query is required"@
                } else {
                    match environment {
                        ToolEnvironment::Unavailable => e.message() == "search is unavailable in this session"@,
                        ToolEnvironment::Remote => e.message() == "search currently supports local environments only"@,
                        ToolEnvironment::Local { .. } => false,
                    }
                },
            },
    {
        if text::is_blank_str(args.query.as_str()) {
            return Err(error::respond("search query is required"));
        }
        match environment {
            ToolEnvironment::Unavailable => Err(error::respond("search is unavailable in this session")),
            ToolEnvironment::Remote => Err(error::respond("search currently supports local environments only")),
            ToolEnvironment::Local { cwd } => Ok((args.query.clone(), search_limit(args.limit), cwd.clone())),
        }
    }
}

/// A ranked result: its path, its score as text, and the terms it matched.
pub struct SearchResult {
    pub path: String,
    pub score: String,
    pub terms: Vec<String>,
}

/// A result's line: the path, then the score and the matched terms.
pub open spec fn result_line(r: SearchResult) -> Seq<char> {
    let terms = if r.terms.len() == 0 {
        seq![]
    } else {
        "; terms: "@ + text::join(text::strings_view(r.terms@), ", "@)
    };
    r.path@ + " (score: "@ + r.score@ + terms + ")"@
}

fn format_result(r: &SearchResult) -> (s: String)
    ensures
        s@ == result_line(*r),
{
    let mut s = r.path.clone();
    text::push_str(&mut s, " (score: ");
    text::push_str(&mut s, r.score.as_str());
    if r.terms.len() > 0 {
        text::push_str(&mut s, "; terms: ");
        let joined = text::join_strings(r.terms.as_slice(), ", ");
        text::push_str(&mut s, joined.as_str());
    }
    text::push_str(&mut s, ")");
    s
}

/// The search's answer: an error when nothing was indexed, a note when
/// nothing matched, else one line per result.
pub fn format_search_results(indexed: usize, results: &Vec<SearchResult>) -> (r: Result<String, String>)
    ensures
        indexed == 0 ==> (r matches Err(m) && m@ == "No files to search"@),
        indexed > 0 && results.len() == 0 ==> (r matches Ok(m) && m@ == "No matches found"@),
        indexed > 0 && results.len() > 0 ==> (r matches Ok(m) && m@ == text::join(
            results@.map_values(|x: SearchResult| result_line(x)),
            "\n"@,
        )),
{
    if indexed == 0 {
        return Err(String::from_str("No files to search"));
    }
    if results.len() == 0 {
        return Ok(String::from_str("No matches found"));
    }
    let mut lines: Vec<String> = Vec::new();
    let mut i: usize = 0;
    while i < results.len()
        invariant
            i <= results.len(),
            text::strings_view(lines@) == results@.take(i as int).map_values(|x: SearchResult| result_line(x)),
        decreases results.len() - i,
    {
        let l = format_result(&results[i]);
        let ghost before = lines@;
        lines.push(l);
        assert(text::strings_view(lines@) =~= text::strings_view(before).push(l@));
        assert(results@.take(i + 1).map_values(|x: SearchResult| result_line(x)) =~= results@.take(i as int).map_values(
            |x: SearchResult| result_line(x),
        ).push(result_line(results@[i as int])));
        i += 1;
    }
    assert(results@.take(i as int) =~= results@);
    Ok(text::join_strings(lines.as_slice(), "\n"))
}

} // verus!
