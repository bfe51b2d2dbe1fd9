//! The `declare_phase` tool: the model names the cognitive phase of its
//! turn, which the Auto-mode climber reads. The tool's schema offers `slow`
//! (loading context) and `fast` (executing); the climber's finer phases
//! explore, reason and execute are accepted as well.
use vstd::prelude::*;
use crate::error;
use crate::error::FunctionCallError;
use crate::text;
use crate::tool_spec::JsonSchema;
use crate::tool_spec::ResponsesApiTool;
use crate::tool_spec::ToolSpec;
use crate::tool_spec::is_function_tool;
use crate::tool_spec::is_string;
use crate::tool_spec::is_string_enum;
use crate::tool_spec::parameters_of;
use crate::tool_spec::property;
use crate::tool_spec::required_is;
use crate::tool_spec::string_schema;

verus! {

/// The cognitive phases of the agentic loop: gathering context,
/// synthesizing a plan or decision, acting on it; and the two the tool's
/// schema names, loading context (`Slow`) and executing (`Fast`).
#[derive(Clone, Copy, PartialEq, Eq, Structural, Debug)]
pub enum Phase {
    Explore,
    Reason,
    Execute,
    Slow,
    Fast,
}

impl Phase {
    /// The phase's name in lower case.
    pub open spec fn name_spec(self) -> Seq<char> {
        match self {
            Phase::Explore => "explore"@,
            Phase::Reason => "reason"@,
            Phase::Execute => "execute"@,
            Phase::Slow => "slow"@,
            Phase::Fast => "fast"@,
        }
    }

    pub fn name(self) -> (s: &'static str)
        ensures
            s@ == self.name_spec(),
    {
        match self {
            Phase::Explore => "explore",
            Phase::Reason => "reason",
            Phase::Execute => "execute",
            Phase::Slow => "slow",
            Phase::Fast => "fast",
        }
    }

    /// The phase named `name` in lower case, as the tool's arguments give it.
    pub fn from_name(name: &str) -> (r: Option<Phase>)
        ensures
            r == if name@ == "explore"@ {
                Some(Phase::Explore)
            } else if name@ == "reason"@ {
                Some(Phase::Reason)
            } else if name@ == "execute"@ {
                Some(Phase::Execute)
            } else if name@ == "slow"@ {
                Some(Phase::Slow)
            } else if name@ == "fast"@ {
                Some(Phase::Fast)
            } else {
                None
            },
    {
        if text::str_equal(name, "explore") {
            Some(Phase::Explore)
        } else if text::str_equal(name, "reason") {
            Some(Phase::Reason)
        } else if text::str_equal(name, "execute") {
            Some(Phase::Execute)
        } else if text::str_equal(name, "slow") {
            Some(Phase::Slow)
        } else if text::str_equal(name, "fast") {
            Some(Phase::Fast)
        } else {
            None
        }
    }
}

/// The tool's arguments: the phase the turn enters, and what the move is
/// for.
#[derive(Clone, Debug)]
pub struct DeclarePhaseArgs {
    pub phase: Phase,
    pub intent: Option<String>,
}

/// The tool's output: the declared phase's name.
pub struct PhaseToolOutput {
    pub phase: String,
}

/// The answer to one function call: its id, its text and whether it
/// succeeded.
pub struct FunctionCallOutput {
    pub call_id: String,
    pub content: String,
    pub success: Option<bool>,
}

impl PhaseToolOutput {
    /// The output for the declared phase.
    pub fn new(phase: Phase) -> (o: PhaseToolOutput)
        ensures
            o.phase@ == phase.name_spec(),
    {
        PhaseToolOutput { phase: String::from_str(phase.name()) }
    }

    /// What the log shows: `Phase declared: ` and the phase.
    pub fn log_preview(&self) -> (s: String)
        ensures
            s@ == "Phase declared: "@ + self.phase@,
    {
        let mut s = String::from_str("Phase declared: ");
        text::push_str(&mut s, self.phase.as_str());
        s
    }

    /// Declaring a phase always succeeds.
    pub fn success_for_logging(&self) -> (b: bool)
        ensures
            b,
    {
        true
    }

    /// The answer to call `call_id`: a successful `Phase declared`.
    pub fn to_response_item(&self, call_id: &str) -> (r: FunctionCallOutput)
        ensures
            r.call_id@ == call_id@,
            r.content@ == "Phase declared"@,
            r.success == Some(true),
    {
        FunctionCallOutput {
            call_id: call_id.to_owned(),
            content: String::from_str("Phase declared"),
            success: Some(true),
        }
    }
}

/// The `declare_phase` tool.
pub struct PhaseHandler;

impl PhaseHandler {
    pub fn tool_name(&self) -> (s: &'static str)
        ensures
            s@ == "declare_phase"@,
    {
        "declare_phase"
    }

    /// The error for a call that does not carry function arguments.
    pub fn unsupported_payload(&self) -> (e: FunctionCallError)
        ensures
            e.message() == "declare_phase handler received unsupported payload"@,
    {
        error::respond("declare_phase handler received unsupported payload")
    }

    /// Handles a declared phase: the phase to record, and the output.
    pub fn handle_args(&self, args: &DeclarePhaseArgs) -> (r: (Phase, PhaseToolOutput))
        ensures
            r.0 == args.phase,
            r.1.phase@ == args.phase.name_spec(),
    {
        (args.phase, PhaseToolOutput::new(args.phase))
    }
}

/// The error for arguments that do not parse, with the parser's message.
pub fn parse_error(detail: &str) -> (e: FunctionCallError)
    ensures
        e.message() == "failed to parse function arguments: "@ + detail@,
{
    let mut s = String::from_str("failed to parse function arguments: ");
    text::push_str(&mut s, detail);
    error::respond_with(s)
}

/// The properties of the `declare_phase` tool's arguments, in key order.
pub open spec fn declare_phase_properties(p: Seq<(String, JsonSchema)>) -> bool {
    p.len() == 2 &&
    p[0].0@ == "intent"@ && is_string(p[0].1, "Optional one-line intent for this phase move (e.g. 'loading auth refactor context')."@) &&
    p[1].0@ == "phase"@ && is_string_enum(p[1].1, seq!["slow"@, "fast"@], "The cognitive phase this turn is in: slow (loading context) or fast (executing)."@)
}

/// The `declare_phase` tool: its name, its description, and a closed object of
/// its arguments.
pub open spec fn declare_phase_tool_holds(t: ToolSpec) -> bool {
    &&& is_function_tool(t, "declare_phase"@, "Declare the cognitive phase of the current turn (slow = context loading, fast = execution). Call this at the start of each turn so the Auto-mode climber can distinguish genuine slow-phase loading from a stuck loop."@)
    &&& parameters_of(t) matches JsonSchema::Object { properties, required, additional_properties }
        && declare_phase_properties(properties@) && additional_properties == Some(false)
        && required_is(required, Some(seq!["phase"@]))
}

pub fn create_declare_phase_tool() -> (t: ToolSpec)
    ensures
        declare_phase_tool_holds(t),
{
    let mut properties: Vec<(String, JsonSchema)> = Vec::new();
    properties.push(property("intent", string_schema("Optional one-line intent for this phase move (e.g. 'loading auth refactor context').")));
    let mut values: Vec<String> = Vec::new();
    values.push(String::from_str("slow"));
    values.push(String::from_str("fast"));
    assert(text::strings_view(values@) =~= seq!["slow"@, "fast"@]);
    properties.push(property("phase", JsonSchema::StringEnum { values, description: Some(String::from_str("The cognitive phase this turn is in: slow (loading context) or fast (executing).")) }));
    assert(declare_phase_properties(properties@));
    let required = {
            let mut r: Vec<String> = Vec::new();
            r.push(String::from_str("phase"));
            assert(text::strings_view(r@) =~= seq!["phase"@]);
            Some(r)
        };
    ToolSpec::Function(ResponsesApiTool {
        name: String::from_str("declare_phase"),
        description: String::from_str("Declare the cognitive phase of the current turn (slow = context loading, fast = execution). Call this at the start of each turn so the Auto-mode climber can distinguish genuine slow-phase loading from a stuck loop."),
        strict: false,
        parameters: JsonSchema::Object { properties, required, additional_properties: Some(false) },
    })
}

impl PhaseHandler {
    /// The tool's description for the model.
    pub fn spec(&self) -> (t: ToolSpec)
        ensures
            declare_phase_tool_holds(t),
    {
        create_declare_phase_tool()
    }
}

} // verus!
