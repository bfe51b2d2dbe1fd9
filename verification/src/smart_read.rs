//! The `smart_read` tool: reading source code through structural
//! analysis layers, inside the current project.
use vstd::prelude::*;
use crate::error;
use crate::error::FunctionCallError;
use crate::paths;
use crate::text;
use crate::tool_spec::JsonSchema;
use crate::tool_spec::ResponsesApiTool;
use crate::tool_spec::ToolEnvironment;
use crate::tool_spec::ToolSpec;
use crate::tool_spec::boolean_schema;
use crate::tool_spec::integer_schema;
use crate::tool_spec::is_boolean;
use crate::tool_spec::is_function_tool;
use crate::tool_spec::is_integer;
use crate::tool_spec::is_string;
use crate::tool_spec::is_string_enum;
use crate::tool_spec::parameters_of;
use crate::tool_spec::property;
use crate::tool_spec::required_is;
use crate::tool_spec::string_schema;

verus! {

/// Whether the tool takes an environment id.
#[derive(Clone, Copy, Debug)]
pub struct SmartReadToolOptions {
    pub include_environment_id: bool,
}

/// The smart read tool.
pub struct SmartReadHandler {
    pub options: SmartReadToolOptions,
}

/// An analysis layer of the code.
#[derive(Clone, Copy, PartialEq, Eq, Structural, Debug)]
pub enum CodeLayer {
    Raw,
    Ast,
    CallGraph,
    Cfg,
    Dfg,
    Pdg,
    TheoryGraph,
}

/// The layer a call asks for; `Smart` lets the analysis choose.
#[derive(Clone, Copy, PartialEq, Eq, Structural, Debug)]
pub enum SmartReadLayer {
    Smart,
    Raw,
    Ast,
    CallGraph,
    Cfg,
    Dfg,
    Pdg,
    TheoryGraph,
}

impl SmartReadLayer {
    /// The analysis layer asked for; none for `Smart`.
    pub fn code_layer(self) -> (r: Option<CodeLayer>)
        ensures
            r == match self {
                SmartReadLayer::Smart => None,
                SmartReadLayer::Raw => Some(CodeLayer::Raw),
                SmartReadLayer::Ast => Some(CodeLayer::Ast),
                SmartReadLayer::CallGraph => Some(CodeLayer::CallGraph),
                SmartReadLayer::Cfg => Some(CodeLayer::Cfg),
                SmartReadLayer::Dfg => Some(CodeLayer::Dfg),
                SmartReadLayer::Pdg => Some(CodeLayer::Pdg),
                SmartReadLayer::TheoryGraph => Some(CodeLayer::TheoryGraph),
            },
    {
        match self {
            SmartReadLayer::Smart => None,
            SmartReadLayer::Raw => Some(CodeLayer::Raw),
            SmartReadLayer::Ast => Some(CodeLayer::Ast),
            SmartReadLayer::CallGraph => Some(CodeLayer::CallGraph),
            SmartReadLayer::Cfg => Some(CodeLayer::Cfg),
            SmartReadLayer::Dfg => Some(CodeLayer::Dfg),
            SmartReadLayer::Pdg => Some(CodeLayer::Pdg),
            SmartReadLayer::TheoryGraph => Some(CodeLayer::TheoryGraph),
        }
    }
}

/// The properties of the `smart_read` tool's arguments, in key order.
pub open spec fn smart_read_properties(p: Seq<(String, JsonSchema)>, env: bool) -> bool {
    if env {
        p.len() == 3 &&
        p[0].0@ == "environment_id"@ && is_string(p[0].1, "Environment id from <environment_context>. Omit to use the primary environment."@) &&
        p[1].0@ == "layer"@ && is_string_enum(p[1].1, seq!["smart"@, "raw"@, "ast"@, "call_graph"@, "cfg"@, "dfg"@, "pdg"@, "theory_graph"@], "Analysis layer. Defaults to `smart`, which lets llm-code-sdk choose."@) &&
        p[2].0@ == "path"@ && is_string(p[2].1, "Path to a source file inside the current project."@)
    } else {
        p.len() == 2 &&
        p[0].0@ == "layer"@ && is_string_enum(p[0].1, seq!["smart"@, "raw"@, "ast"@, "call_graph"@, "cfg"@, "dfg"@, "pdg"@, "theory_graph"@], "Analysis layer. Defaults to `smart`, which lets llm-code-sdk choose."@) &&
        p[1].0@ == "path"@ && is_string(p[1].1, "Path to a source file inside the current project."@)
    }
}

/// The `smart_read` tool: its name, its description, and a closed object of
/// its arguments.
pub open spec fn smart_read_tool_holds(t: ToolSpec, env: bool) -> bool {
    &&& is_function_tool(t, "smart_read"@, "Read source code through llm-code-sdk's structural analysis layers. Use `smart` for automatic selection, or request AST, call graph, control-flow, data-flow, dependence, or Lean theory views."@)
    &&& parameters_of(t) matches JsonSchema::Object { properties, required, additional_properties }
        && smart_read_properties(properties@, env) && additional_properties == Some(false)
        && required_is(required, Some(seq!["path"@]))
}

pub fn create_smart_read_tool(options: SmartReadToolOptions) -> (t: ToolSpec)
    ensures
        smart_read_tool_holds(t, options.include_environment_id),
{
    let mut properties: Vec<(String, JsonSchema)> = Vec::new();
    if options.include_environment_id {
        properties.push(property("environment_id", string_schema("Environment id from <environment_context>. Omit to use the primary environment.")));
        let mut values: Vec<String> = Vec::new();
        values.push(String::from_str("smart"));
        values.push(String::from_str("raw"));
        values.push(String::from_str("ast"));
        values.push(String::from_str("call_graph"));
        values.push(String::from_str("cfg"));
        values.push(String::from_str("dfg"));
        values.push(String::from_str("pdg"));
        values.push(String::from_str("theory_graph"));
        assert(text::strings_view(values@) =~= seq!["smart"@, "raw"@, "ast"@, "call_graph"@, "cfg"@, "dfg"@, "pdg"@, "theory_graph"@]);
        properties.push(property("layer", JsonSchema::StringEnum { values, description: Some(String::from_str("Analysis layer. Defaults to `smart`, which lets llm-code-sdk choose.")) }));
        properties.push(property("path", string_schema("Path to a source file inside the current project.")));
    } else {
        let mut values: Vec<String> = Vec::new();
        values.push(String::from_str("smart"));
        values.push(String::from_str("raw"));
        values.push(String::from_str("ast"));
        values.push(String::from_str("call_graph"));
        values.push(String::from_str("cfg"));
        values.push(String::from_str("dfg"));
        values.push(String::from_str("pdg"));
        values.push(String::from_str("theory_graph"));
        assert(text::strings_view(values@) =~= seq!["smart"@, "raw"@, "ast"@, "call_graph"@, "cfg"@, "dfg"@, "pdg"@, "theory_graph"@]);
        properties.push(property("layer", JsonSchema::StringEnum { values, description: Some(String::from_str("Analysis layer. Defaults to `smart`, which lets llm-code-sdk choose.")) }));
        properties.push(property("path", string_schema("Path to a source file inside the current project.")));
    }
    assert(smart_read_properties(properties@, options.include_environment_id));
    let required = {
            let mut r: Vec<String> = Vec::new();
            r.push(String::from_str("path"));
            assert(text::strings_view(r@) =~= seq!["path"@]);
            Some(r)
        };
    ToolSpec::Function(ResponsesApiTool {
        name: String::from_str("smart_read"),
        description: String::from_str("Read source code through llm-code-sdk's structural analysis layers. Use `smart` for automatic selection, or request AST, call graph, control-flow, data-flow, dependence, or Lean theory views."),
        strict: false,
        parameters: JsonSchema::Object { properties, required, additional_properties: Some(false) },
    })
}

/// The working directory of a local environment, or the error for a
/// missing or remote one, for tool `tool`.
pub open spec fn environment_error(tool: Seq<char>, environment: ToolEnvironment) -> Option<Seq<char>> {
    match environment {
        ToolEnvironment::Unavailable => Some(tool + " is unavailable in this session"@),
        ToolEnvironment::Remote => Some(tool + " currently supports local environments only"@),
        ToolEnvironment::Local { .. } => None,
    }
}

/// Why a resolved path cannot be read by tool `tool`: it lies outside the
/// project root, or it is not a file.
pub open spec fn file_error(tool: Seq<char>, root: Seq<char>, path: Seq<char>, is_file: bool) -> Option<Seq<char>> {
    if !paths::path_has_prefix(path, root) {
        Some(tool + " path `"@ + path + "` is outside project root `"@ + root + "`"@)
    } else if !is_file {
        Some(tool + " path `"@ + path + "` is not a file"@)
    } else {
        None
    }
}

/// Checks that `path` is a file inside `project_root`; `is_file` says
/// whether it is a file on disk.
pub fn validate_file_inside_root(project_root: &str, path: &str, is_file: bool, tool_name: &str) -> (r: Result<
    (),
    FunctionCallError,
>)
    ensures
        match file_error(tool_name@, project_root@, path@, is_file) {
            None => r is Ok,
            Some(m) => r matches Err(e) && e.message() == m,
        },
{
    if !paths::path_starts_with(path, project_root) {
        let mut s = tool_name.to_owned();
        text::push_str(&mut s, " path `");
        text::push_str(&mut s, path);
        text::push_str(&mut s, "` is outside project root `");
        text::push_str(&mut s, project_root);
        text::push_str(&mut s, "`");
        return Err(error::respond_with(s));
    }
    if !is_file {
        let mut s = tool_name.to_owned();
        text::push_str(&mut s, " path `");
        text::push_str(&mut s, path);
        text::push_str(&mut s, "` is not a file");
        return Err(error::respond_with(s));
    }
    Ok(())
}

/// The error for a missing or remote environment.
pub fn environment_check(tool_name: &str, environment: &ToolEnvironment) -> (r: Result<String, FunctionCallError>)
    ensures
        match environment_error(tool_name@, *environment) {
            None => r matches Ok(c) && (environment matches ToolEnvironment::Local { cwd } && c@ == cwd@),
            Some(m) => r matches Err(e) && e.message() == m,
        },
{
    match environment {
        ToolEnvironment::Unavailable => {
            let mut s = tool_name.to_owned();
            text::push_str(&mut s, " is unavailable in this session");
            Err(error::respond_with(s))
        },
        ToolEnvironment::Remote => {
            let mut s = tool_name.to_owned();
            text::push_str(&mut s, " currently supports local environments only");
            Err(error::respond_with(s))
        },
        ToolEnvironment::Local { cwd } => Ok(cwd.clone()),
    }
}

/// The path of `path` under `project_root`, for the analysis.
pub fn project_relative(project_root: &str, path: &str) -> (r: Result<String, FunctionCallError>)
    ensures
        match paths::stripped_path(project_root@, path@) {
            Some(p) => r matches Ok(q) && q@ == p,
            None => r matches Err(e) && e.message() == "failed to resolve project-relative path: prefix not found"@,
        },
{
    match paths::strip_cwd(project_root, path) {
        Some(p) => Ok(p),
        None => Err(error::respond("failed to resolve project-relative path: prefix not found")),
    }
}

impl SmartReadHandler {
    pub fn new(options: SmartReadToolOptions) -> (h: SmartReadHandler)
        ensures
            h.options.include_environment_id == options.include_environment_id,
    {
        SmartReadHandler { options }
    }

    pub fn tool_name(&self) -> (s: &'static str)
        ensures
            s@ == "smart_read"@,
    {
        "smart_read"
    }

    pub fn spec(&self) -> (t: ToolSpec)
        ensures
            smart_read_tool_holds(t, self.options.include_environment_id),
    {
        create_smart_read_tool(self.options)
    }

    pub fn supports_parallel_tool_calls(&self) -> (b: bool)
        ensures
            b,
    {
        true
    }

    /// The error for a call that does not carry function arguments.
    pub fn unsupported_payload(&self) -> (e: FunctionCallError)
        ensures
            e.message() == "smart_read handler received unsupported payload"@,
    {
        error::respond("smart_read handler received unsupported payload")
    }
}

} // verus!
