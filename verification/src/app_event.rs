//! What the popups ask the application to do.
use vstd::prelude::*;
use crate::project_navigation::AttentionMode;
use crate::project_navigation::NewTabPlacement;
use crate::split_pane::SplitAxis;

verus! {

/// Where a project opens: a new tab beside the current one, or a new pane
/// split off pane `pane_id`.
#[derive(Clone, Copy, PartialEq, Eq, Structural, Debug)]
pub enum ProjectOpenTarget {
    Tab(NewTabPlacement),
    SplitPane { pane_id: u64, axis: SplitAxis },
}

/// A request from a popup to the application.
#[derive(Clone, PartialEq, Eq, Debug)]
pub enum ViewEvent {
    SelectAgentThread(u64),
    ResumeProjectAtTarget { cwd: String, target: ProjectOpenTarget },
    OpenNewProjectSessionAtTarget { cwd: String, target: ProjectOpenTarget },
    FocusOrOpenProjectAtTarget { cwd: String, target: ProjectOpenTarget },
    CloseProjectTab { thread_id: u64 },
    OpenProjectDirectoryBrowser { root: String },
    OpenProjectFavoritesManager { initial_path: Option<String> },
    OpenRenameCurrentTabPrompt,
    SetAttentionMode { mode: AttentionMode },
    SaveWorkspaceAndExit,
    ToggleFavoriteProject { cwd: String },
    FocusOrOpenProject { cwd: String },
}

/// A request as the contracts speak of it, paths as character sequences.
pub enum EventSpec {
    SelectAgentThread(u64),
    ResumeProjectAtTarget { cwd: Seq<char>, target: ProjectOpenTarget },
    OpenNewProjectSessionAtTarget { cwd: Seq<char>, target: ProjectOpenTarget },
    FocusOrOpenProjectAtTarget { cwd: Seq<char>, target: ProjectOpenTarget },
    CloseProjectTab { thread_id: u64 },
    OpenProjectDirectoryBrowser { root: Seq<char> },
    OpenProjectFavoritesManager { initial_path: Option<Seq<char>> },
    OpenRenameCurrentTabPrompt,
    SetAttentionMode { mode: AttentionMode },
    SaveWorkspaceAndExit,
    ToggleFavoriteProject { cwd: Seq<char> },
    FocusOrOpenProject { cwd: Seq<char> },
}

pub open spec fn event_view(e: ViewEvent) -> EventSpec {
    match e {
        ViewEvent::SelectAgentThread(t) => EventSpec::SelectAgentThread(t),
        ViewEvent::ResumeProjectAtTarget { cwd, target } => EventSpec::ResumeProjectAtTarget { cwd: cwd@, target },
        ViewEvent::OpenNewProjectSessionAtTarget { cwd, target } =>
            EventSpec::OpenNewProjectSessionAtTarget { cwd: cwd@, target },
        ViewEvent::FocusOrOpenProjectAtTarget { cwd, target } =>
            EventSpec::FocusOrOpenProjectAtTarget { cwd: cwd@, target },
        ViewEvent::CloseProjectTab { thread_id } => EventSpec::CloseProjectTab { thread_id },
        ViewEvent::OpenProjectDirectoryBrowser { root } => EventSpec::OpenProjectDirectoryBrowser { root: root@ },
        ViewEvent::OpenProjectFavoritesManager { initial_path } => EventSpec::OpenProjectFavoritesManager {
            initial_path: match initial_path {
                Some(p) => Some(p@),
                None => None,
            },
        },
        ViewEvent::OpenRenameCurrentTabPrompt => EventSpec::OpenRenameCurrentTabPrompt,
        ViewEvent::SetAttentionMode { mode } => EventSpec::SetAttentionMode { mode },
        ViewEvent::SaveWorkspaceAndExit => EventSpec::SaveWorkspaceAndExit,
        ViewEvent::ToggleFavoriteProject { cwd } => EventSpec::ToggleFavoriteProject { cwd: cwd@ },
        ViewEvent::FocusOrOpenProject { cwd } => EventSpec::FocusOrOpenProject { cwd: cwd@ },
    }
}

pub open spec fn opt_event_view(e: Option<ViewEvent>) -> Option<EventSpec> {
    match e {
        Some(e) => Some(event_view(e)),
        None => None,
    }
}

} // verus!
