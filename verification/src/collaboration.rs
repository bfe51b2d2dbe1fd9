//! The developer instructions a collaboration mode adds to the context.
use vstd::prelude::*;
use crate::paths;

verus! {

/// How the agent collaborates: the autonomous Auto mode, or another mode.
#[derive(Clone, Copy, PartialEq, Eq, Structural, Debug)]
pub enum ModeKind {
    Auto,
    Other,
}

/// A collaboration mode and the developer instructions configured for it.
pub struct CollaborationMode {
    pub mode: ModeKind,
    pub developer_instructions: Option<String>,
}

/// The instructions a collaboration mode contributes.
pub struct CollaborationModeInstructions {
    pub instructions: String,
}

/// The Auto mode's instructions when none are configured: the climb
/// contract the guard enforces.
pub open spec fn default_auto_instructions() -> Seq<char> {
    "You are in Auto mode: an autonomous loop. Each turn you MUST:\n1. Call `declare_phase` with your current phase — `explore` (loading context),\n`reason` (synthesizing a plan/decision), or `execute` (acting) — and a short intent.\n2. Produce net-new state: either advance the plan via `update_plan`, or make a\ntool call you have not already made in this session.\nThe loop halts and returns to the user if a turn declares no phase, or produces\nno plan change and only repeated tool calls. Do not re-call the same tool with\nthe same arguments as a previous turn unless you have a concrete reason."@
}

impl CollaborationModeInstructions {
    /// The configured instructions when there are some; else the default
    /// ones in Auto mode; else none.
    pub fn from_collaboration_mode(collaboration_mode: &CollaborationMode) -> (r: Option<CollaborationModeInstructions>)
        ensures
            match paths::opt_string_view(collaboration_mode.developer_instructions) {
                Some(i) if i.len() > 0 => r matches Some(c) && c.instructions@ == i,
                _ => if collaboration_mode.mode == ModeKind::Auto {
                    r matches Some(c) && c.instructions@ == default_auto_instructions()
                } else {
                    r is None
                },
            },
    {
        match &collaboration_mode.developer_instructions {
            Some(i) => {
                if i.as_str().unicode_len() > 0 {
                    return Some(CollaborationModeInstructions { instructions: i.clone() });
                }
            },
            None => {},
        }
        match collaboration_mode.mode {
            ModeKind::Auto => Some(
                CollaborationModeInstructions {
                    instructions: String::from_str(
                        "You are in Auto mode: an autonomous loop. Each turn you MUST:\n1. Call `declare_phase` with your current phase — `explore` (loading context),\n`reason` (synthesizing a plan/decision), or `execute` (acting) — and a short intent.\n2. Produce net-new state: either advance the plan via `update_plan`, or make a\ntool call you have not already made in this session.\nThe loop halts and returns to the user if a turn declares no phase, or produces\nno plan change and only repeated tool calls. Do not re-call the same tool with\nthe same arguments as a previous turn unless you have a concrete reason.",
                    ),
                },
            ),
            ModeKind::Other => None,
        }
    }

    /// The instructions are given as the developer.
    pub fn role(&self) -> (s: &'static str)
        ensures
            s@ == "developer"@,
    {
        "developer"
    }

    pub fn body(&self) -> (s: String)
        ensures
            s@ == self.instructions@,
    {
        self.instructions.clone()
    }
}

} // verus!
