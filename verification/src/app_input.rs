//! Global input routing: which application action a key press, a gamepad
//! button or the push-to-talk button stands for, given what is on screen.
use vstd::prelude::*;
use crate::project_navigation::ProjectTabDirection;
use crate::project_navigation::ProjectWorkspaceDirection;
use crate::project_navigation::NewTabPlacement;
use crate::split_pane::SplitAxis;

verus! {

/// A key of the keyboard.
#[derive(Clone, Copy, PartialEq, Eq, Structural, Debug)]
pub enum KeyCode {
    Up,
    Down,
    Left,
    Right,
    PageUp,
    PageDown,
    Tab,
    Enter,
    Esc,
    Backspace,
    Char(char),
    Other,
}

/// Whether a key went down, repeats, or went up.
#[derive(Clone, Copy, PartialEq, Eq, Structural, Debug)]
pub enum KeyKind {
    Press,
    Repeat,
    Release,
}

/// Modifier keys held with a key.
#[derive(Clone, Copy, PartialEq, Eq, Structural, Debug)]
pub struct Modifiers {
    pub control: bool,
    pub alt: bool,
    pub shift: bool,
    pub other: bool,
}

impl Modifiers {
    pub open spec fn is_none(self) -> bool {
        !self.control && !self.alt && !self.shift && !self.other
    }

    pub open spec fn is_alt_only(self) -> bool {
        !self.control && self.alt && !self.shift && !self.other
    }
}

/// A key event.
#[derive(Clone, Copy, PartialEq, Eq, Structural, Debug)]
pub struct KeyInput {
    pub code: KeyCode,
    pub modifiers: Modifiers,
    pub kind: KeyKind,
}

/// Alt+PageUp and Alt+PageDown switch project tabs.
pub fn project_tab_shortcut_direction(key: KeyInput) -> (r: Option<ProjectTabDirection>)
    ensures
        r == if key.kind == KeyKind::Press && key.modifiers.is_alt_only() {
            match key.code {
                KeyCode::PageUp => Some(ProjectTabDirection::Previous),
                KeyCode::PageDown => Some(ProjectTabDirection::Next),
                _ => None,
            }
        } else {
            None
        },
{
    let alt_only = !key.modifiers.control && key.modifiers.alt && !key.modifiers.shift && !key.modifiers.other;
    let press = match key.kind {
        KeyKind::Press => true,
        _ => false,
    };
    if !press || !alt_only {
        return None;
    }
    match key.code {
        KeyCode::PageUp => Some(ProjectTabDirection::Previous),
        KeyCode::PageDown => Some(ProjectTabDirection::Next),
        _ => None,
    }
}

/// Alt+O opens the project navigator.
pub fn open_project_navigator_shortcut_matches(key: KeyInput) -> (b: bool)
    ensures
        b == (key.kind == KeyKind::Press && key.modifiers.is_alt_only() && (key.code == KeyCode::Char('o')
            || key.code == KeyCode::Char('O'))),
{
    let alt_only = !key.modifiers.control && key.modifiers.alt && !key.modifiers.shift && !key.modifiers.other;
    let press = match key.kind {
        KeyKind::Press => true,
        _ => false,
    };
    let o = match key.code {
        KeyCode::Char(c) => c == 'o' || c == 'O',
        _ => false,
    };
    press && alt_only && o
}

/// A gamepad button.
#[derive(Clone, Copy, PartialEq, Eq, Structural, Debug)]
pub enum GamepadAction {
    Up,
    Down,
    Left,
    Right,
    OpenProjectNavigator,
    Confirm,
    Submit,
    Cancel,
    Context,
    Alternate,
    ProjectTabPrevious,
    ProjectTabNext,
    ProjectWorkspacePrevious,
    ProjectWorkspaceNext,
    PreviousPage,
    ScrollTranscriptUp,
    NextPage,
    ScrollTranscriptDown,
    FocusNext,
    ProjectNewTabLeft,
    ProjectNewTabRight,
    PushToTalkStart,
    PushToTalkStop,
    SplitPaneFocusPrevious,
    SplitPaneFocusNext,
    SplitPaneCreateHorizontal,
    SplitPaneCreateVertical,
}

/// What a gamepad button does: stand for a key, or act on the application.
#[derive(Clone, Copy, PartialEq, Eq, Structural, Debug)]
pub enum GamepadDispatch {
    Key(KeyCode),
    Nothing,
    OpenProjectNavigator,
    SwitchProjectTab(ProjectTabDirection),
    SwitchProjectWorkspace(ProjectWorkspaceDirection),
    OpenProjectChooser(NewTabPlacement),
    PushToTalk(bool),
    FocusSplitPane(bool),
    OpenSplitPaneChooser(SplitAxis),
}

/// What a gamepad button does, given the key the active view maps it to.
pub open spec fn gamepad_dispatch_spec(action: GamepadAction, view_key: Option<KeyCode>) -> GamepadDispatch {
    let key_or_nothing = |k: Option<KeyCode>|
        match k {
            Some(c) => GamepadDispatch::Key(c),
            None => GamepadDispatch::Nothing,
        };
    match action {
        GamepadAction::Up => GamepadDispatch::Key(KeyCode::Up),
        GamepadAction::Down => GamepadDispatch::Key(KeyCode::Down),
        GamepadAction::Left => GamepadDispatch::Key(KeyCode::Left),
        GamepadAction::Right => GamepadDispatch::Key(KeyCode::Right),
        GamepadAction::OpenProjectNavigator => GamepadDispatch::OpenProjectNavigator,
        GamepadAction::Confirm => match view_key {
            Some(c) => GamepadDispatch::Key(c),
            None => GamepadDispatch::Key(KeyCode::Enter),
        },
        GamepadAction::Submit => GamepadDispatch::Key(KeyCode::Enter),
        GamepadAction::Cancel => GamepadDispatch::Key(KeyCode::Esc),
        GamepadAction::Context => key_or_nothing(view_key),
        GamepadAction::Alternate => GamepadDispatch::Key(KeyCode::Char('x')),
        GamepadAction::ProjectTabPrevious => GamepadDispatch::SwitchProjectTab(ProjectTabDirection::Previous),
        GamepadAction::ProjectTabNext => GamepadDispatch::SwitchProjectTab(ProjectTabDirection::Next),
        GamepadAction::ProjectWorkspacePrevious => GamepadDispatch::SwitchProjectWorkspace(
            ProjectWorkspaceDirection::Previous,
        ),
        GamepadAction::ProjectWorkspaceNext => GamepadDispatch::SwitchProjectWorkspace(
            ProjectWorkspaceDirection::Next,
        ),
        GamepadAction::PreviousPage | GamepadAction::ScrollTranscriptUp => GamepadDispatch::Key(KeyCode::PageUp),
        GamepadAction::NextPage | GamepadAction::ScrollTranscriptDown => GamepadDispatch::Key(KeyCode::PageDown),
        GamepadAction::FocusNext => GamepadDispatch::Key(KeyCode::Tab),
        GamepadAction::ProjectNewTabLeft => GamepadDispatch::OpenProjectChooser(NewTabPlacement::Left),
        GamepadAction::ProjectNewTabRight => GamepadDispatch::OpenProjectChooser(NewTabPlacement::Right),
        GamepadAction::PushToTalkStart => GamepadDispatch::PushToTalk(true),
        GamepadAction::PushToTalkStop => GamepadDispatch::PushToTalk(false),
        GamepadAction::SplitPaneFocusPrevious => GamepadDispatch::FocusSplitPane(false),
        GamepadAction::SplitPaneFocusNext => GamepadDispatch::FocusSplitPane(true),
        GamepadAction::SplitPaneCreateHorizontal => GamepadDispatch::OpenSplitPaneChooser(SplitAxis::Horizontal),
        GamepadAction::SplitPaneCreateVertical => GamepadDispatch::OpenSplitPaneChooser(SplitAxis::Vertical),
    }
}

/// What a gamepad button does: directions, confirm, submit, cancel, paging
/// and focus stand for keys (confirm and context take the key the active
/// view maps them to); the other buttons act on projects, tabs, split panes
/// and push-to-talk.
pub fn handle_gamepad_action(action: GamepadAction, view_key: Option<KeyCode>) -> (d: GamepadDispatch)
    ensures
        d == gamepad_dispatch_spec(action, view_key),
{
    match action {
        GamepadAction::Up => GamepadDispatch::Key(KeyCode::Up),
        GamepadAction::Down => GamepadDispatch::Key(KeyCode::Down),
        GamepadAction::Left => GamepadDispatch::Key(KeyCode::Left),
        GamepadAction::Right => GamepadDispatch::Key(KeyCode::Right),
        GamepadAction::OpenProjectNavigator => GamepadDispatch::OpenProjectNavigator,
        GamepadAction::Confirm => match view_key {
            Some(c) => GamepadDispatch::Key(c),
            None => GamepadDispatch::Key(KeyCode::Enter),
        },
        GamepadAction::Submit => GamepadDispatch::Key(KeyCode::Enter),
        GamepadAction::Cancel => GamepadDispatch::Key(KeyCode::Esc),
        GamepadAction::Context => match view_key {
            Some(c) => GamepadDispatch::Key(c),
            None => GamepadDispatch::Nothing,
        },
        GamepadAction::Alternate => GamepadDispatch::Key(KeyCode::Char('x')),
        GamepadAction::ProjectTabPrevious => GamepadDispatch::SwitchProjectTab(ProjectTabDirection::Previous),
        GamepadAction::ProjectTabNext => GamepadDispatch::SwitchProjectTab(ProjectTabDirection::Next),
        GamepadAction::ProjectWorkspacePrevious => GamepadDispatch::SwitchProjectWorkspace(
            ProjectWorkspaceDirection::Previous,
        ),
        GamepadAction::ProjectWorkspaceNext => GamepadDispatch::SwitchProjectWorkspace(
            ProjectWorkspaceDirection::Next,
        ),
        GamepadAction::PreviousPage | GamepadAction::ScrollTranscriptUp => GamepadDispatch::Key(KeyCode::PageUp),
        GamepadAction::NextPage | GamepadAction::ScrollTranscriptDown => GamepadDispatch::Key(KeyCode::PageDown),
        GamepadAction::FocusNext => GamepadDispatch::Key(KeyCode::Tab),
        GamepadAction::ProjectNewTabLeft => GamepadDispatch::OpenProjectChooser(NewTabPlacement::Left),
        GamepadAction::ProjectNewTabRight => GamepadDispatch::OpenProjectChooser(NewTabPlacement::Right),
        GamepadAction::PushToTalkStart => GamepadDispatch::PushToTalk(true),
        GamepadAction::PushToTalkStop => GamepadDispatch::PushToTalk(false),
        GamepadAction::SplitPaneFocusPrevious => GamepadDispatch::FocusSplitPane(false),
        GamepadAction::SplitPaneFocusNext => GamepadDispatch::FocusSplitPane(true),
        GamepadAction::SplitPaneCreateHorizontal => GamepadDispatch::OpenSplitPaneChooser(SplitAxis::Horizontal),
        GamepadAction::SplitPaneCreateVertical => GamepadDispatch::OpenSplitPaneChooser(SplitAxis::Vertical),
    }
}

/// Longest gap between a release and a press of the push-to-talk button
/// that counts as a double tap, in milliseconds.
pub const DOUBLE_TAP_WINDOW_MS: u64 = 350;

/// What the push-to-talk button does.
#[derive(Clone, Copy, PartialEq, Eq, Structural, Debug)]
pub enum PushToTalkAction {
    Nothing,
    ToggleContinuousMode,
    StartRecording,
    StopRecording,
}

/// The push-to-talk state: whether recording is continuous, and whether the
/// button was released and not pressed since.
#[derive(Clone, Copy, PartialEq, Eq, Structural, Debug)]
pub struct PushToTalkState {
    pub continuous_mode: bool,
    pub released: bool,
}

/// What pressing (or releasing) the push-to-talk button does:
/// `since_release_ms` is the time since the last release. A press soon after
/// a release toggles continuous recording; other presses start recording
/// unless it is continuous; a release records its time and stops recording
/// unless it is continuous.
pub fn handle_handy_push_to_talk(state: &mut PushToTalkState, pressed: bool, since_release_ms: u64) -> (a: PushToTalkAction)
    ensures
        pressed && old(state).released && since_release_ms <= DOUBLE_TAP_WINDOW_MS ==> a
            == PushToTalkAction::ToggleContinuousMode && !final(state).released && final(state).continuous_mode
            == old(state).continuous_mode,
        pressed && !(old(state).released && since_release_ms <= DOUBLE_TAP_WINDOW_MS) ==> *final(state) == *old(state)
            && a == if old(state).continuous_mode {
            PushToTalkAction::Nothing
        } else {
            PushToTalkAction::StartRecording
        },
        !pressed ==> final(state).released && final(state).continuous_mode == old(state).continuous_mode && a == if old(
            state,
        ).continuous_mode {
            PushToTalkAction::Nothing
        } else {
            PushToTalkAction::StopRecording
        },
{
    if pressed {
        if state.released && since_release_ms <= DOUBLE_TAP_WINDOW_MS {
            state.released = false;
            return PushToTalkAction::ToggleContinuousMode;
        }
        if !state.continuous_mode {
            return PushToTalkAction::StartRecording;
        }
        return PushToTalkAction::Nothing;
    }
    state.released = true;
    if !state.continuous_mode {
        PushToTalkAction::StopRecording
    } else {
        PushToTalkAction::Nothing
    }
}

/// Toggles continuous recording: turning it on starts recording (after a
/// chime), turning it off stops it.
pub fn toggle_handy_continuous_mode(state: &mut PushToTalkState) -> (a: PushToTalkAction)
    ensures
        final(state).continuous_mode == !old(state).continuous_mode,
        final(state).released == old(state).released,
        a == if final(state).continuous_mode {
            PushToTalkAction::StartRecording
        } else {
            PushToTalkAction::StopRecording
        },
{
    state.continuous_mode = !state.continuous_mode;
    if state.continuous_mode {
        PushToTalkAction::StartRecording
    } else {
        PushToTalkAction::StopRecording
    }
}

/// What an Esc press meets in the chat widget: a side conversation, the
/// normal backtrack mode, an empty composer, and whether Vim insert mode
/// takes the Esc.
#[derive(Clone, Copy, PartialEq, Eq, Structural, Debug)]
pub struct BacktrackContext {
    pub side_conversation_active: bool,
    pub normal_backtrack_mode: bool,
    pub composer_empty: bool,
    pub vim_insert_escape: bool,
}

/// Esc starts backtracking: outside side conversations, in normal
/// backtrack mode, with an empty composer, unless Vim insert mode takes it.
pub fn should_handle_backtrack_esc(ctx: BacktrackContext) -> (b: bool)
    ensures
        b == (!ctx.side_conversation_active && ctx.normal_backtrack_mode && ctx.composer_empty
            && !ctx.vim_insert_escape),
{
    !ctx.side_conversation_active && ctx.normal_backtrack_mode && ctx.composer_empty && !ctx.vim_insert_escape
}

/// Esc would backtrack, but a side conversation is active: it is refused.
pub fn should_reject_side_backtrack_esc(ctx: BacktrackContext) -> (b: bool)
    ensures
        b == (ctx.side_conversation_active && ctx.normal_backtrack_mode && ctx.composer_empty
            && !ctx.vim_insert_escape),
{
    ctx.side_conversation_active && ctx.normal_backtrack_mode && ctx.composer_empty && !ctx.vim_insert_escape
}

/// The error shown when backtracking is refused in a side conversation.
pub fn reject_side_backtrack_esc() -> (m: &'static str)
    ensures
        m@ == "Editing previous prompts is unavailable in side conversations."@,
{
    "Editing previous prompts is unavailable in side conversations."
}

/// What the application sees when a key arrives: whether an overlay or a
/// popup is up, the composer's state, the shortcuts the key matches (as the
/// keymap and the agent shortcuts decide), and the backtrack state.
#[derive(Clone, Copy, PartialEq, Eq, Structural, Debug)]
pub struct KeyContext {
    pub overlay_open: bool,
    pub modal_or_popup_active: bool,
    pub composer_empty_with_pending: bool,
    pub composer_empty: bool,
    pub enhanced_keys_supported: bool,
    pub previous_agent_shortcut: bool,
    pub next_agent_shortcut: bool,
    pub previous_agent_shortcut_with_fallback: bool,
    pub next_agent_shortcut_with_fallback: bool,
    pub side_return_shortcut: bool,
    pub side_return_declined: bool,
    pub toggle_vim_mode: bool,
    pub toggle_fast_mode: bool,
    pub can_toggle_fast_mode: bool,
    pub toggle_raw_output: bool,
    pub open_transcript: bool,
    pub open_external_editor: bool,
    pub can_launch_external_editor: bool,
    pub external_editor_closed: bool,
    pub clear_terminal: bool,
    pub can_clear_now: bool,
    pub side_conversation_active: bool,
    pub normal_backtrack_mode: bool,
    pub vim_insert_escape: bool,
    pub backtrack_primed: bool,
    pub backtrack_has_target: bool,
}

/// What the application does with a key.
#[derive(Clone, Copy, PartialEq, Eq, Structural, Debug)]
pub enum AppKeyAction {
    SwitchProjectTab(ProjectTabDirection),
    OpenProjectNavigator,
    PreviousAgent,
    NextAgent,
    TryReturnFromSide,
    ToggleVimMode,
    ToggleFastMode,
    ToggleRawOutput,
    OpenTranscript,
    RequestExternalEditor,
    Ignore,
    BacktrackEsc,
    RejectSideBacktrackEsc,
    ForwardToChat,
    ClearTerminal,
    ConfirmBacktrack,
    CancelBacktrackAndForward,
}

/// The action a key stands for, checked in order: project-tab and
/// navigator shortcuts, agent switching (only with an empty composer),
/// returning from a side conversation (unless that was just declined), the
/// keymap's toggles, Esc for backtracking, clearing the terminal, confirming
/// a primed backtrack, and otherwise the chat widget gets the key.
pub open spec fn app_key_action_spec(ctx: KeyContext, key: KeyInput) -> AppKeyAction {
    let calm = !ctx.overlay_open && !ctx.modal_or_popup_active;
    let fallback = !ctx.enhanced_keys_supported && ctx.composer_empty_with_pending;
    let tab = if key.kind == KeyKind::Press && key.modifiers.is_alt_only() {
        match key.code {
            KeyCode::PageUp => Some(ProjectTabDirection::Previous),
            KeyCode::PageDown => Some(ProjectTabDirection::Next),
            _ => None,
        }
    } else {
        None
    };
    let navigator = key.kind == KeyKind::Press && key.modifiers.is_alt_only() && (key.code == KeyCode::Char('o')
        || key.code == KeyCode::Char('O'));
    let prev = if fallback {
        ctx.previous_agent_shortcut_with_fallback
    } else {
        ctx.previous_agent_shortcut
    };
    let next = if fallback {
        ctx.next_agent_shortcut_with_fallback
    } else {
        ctx.next_agent_shortcut
    };
    if calm && tab is Some {
        AppKeyAction::SwitchProjectTab(tab->0)
    } else if calm && navigator {
        AppKeyAction::OpenProjectNavigator
    } else if calm && ctx.composer_empty_with_pending && prev {
        AppKeyAction::PreviousAgent
    } else if calm && ctx.composer_empty_with_pending && next {
        AppKeyAction::NextAgent
    } else if ctx.side_return_shortcut && !ctx.side_return_declined {
        AppKeyAction::TryReturnFromSide
    } else if calm && ctx.toggle_vim_mode {
        AppKeyAction::ToggleVimMode
    } else if calm && ctx.toggle_fast_mode && ctx.can_toggle_fast_mode {
        AppKeyAction::ToggleFastMode
    } else if calm && ctx.toggle_raw_output {
        AppKeyAction::ToggleRawOutput
    } else if calm && ctx.open_transcript {
        AppKeyAction::OpenTranscript
    } else if calm && ctx.open_external_editor {
        if !ctx.overlay_open && ctx.can_launch_external_editor && ctx.external_editor_closed {
            AppKeyAction::RequestExternalEditor
        } else {
            AppKeyAction::Ignore
        }
    } else if key.code == KeyCode::Esc && (key.kind == KeyKind::Press || key.kind == KeyKind::Repeat) {
        let backtrackable = ctx.normal_backtrack_mode && ctx.composer_empty && !ctx.vim_insert_escape;
        if !ctx.side_conversation_active && backtrackable {
            AppKeyAction::BacktrackEsc
        } else if ctx.side_conversation_active && backtrackable {
            AppKeyAction::RejectSideBacktrackEsc
        } else {
            AppKeyAction::ForwardToChat
        }
    } else if calm && ctx.clear_terminal {
        if ctx.can_clear_now {
            AppKeyAction::ClearTerminal
        } else {
            AppKeyAction::Ignore
        }
    } else if key.code == KeyCode::Enter && key.kind == KeyKind::Press && ctx.backtrack_primed
        && ctx.backtrack_has_target && ctx.composer_empty {
        AppKeyAction::ConfirmBacktrack
    } else if (key.kind == KeyKind::Press || key.kind == KeyKind::Repeat) && ctx.backtrack_primed {
        AppKeyAction::CancelBacktrackAndForward
    } else {
        AppKeyAction::ForwardToChat
    }
}

/// The action a key stands for; see `app_key_action_spec`.
pub fn handle_key_event(ctx: KeyContext, key: KeyInput) -> (a: AppKeyAction)
    ensures
        a == app_key_action_spec(ctx, key),
{
    let calm = !ctx.overlay_open && !ctx.modal_or_popup_active;
    if calm {
        match project_tab_shortcut_direction(key) {
            Some(d) => return AppKeyAction::SwitchProjectTab(d),
            None => {},
        }
        if open_project_navigator_shortcut_matches(key) {
            return AppKeyAction::OpenProjectNavigator;
        }
    }
    let fallback = !ctx.enhanced_keys_supported && ctx.composer_empty_with_pending;
    let prev = if fallback {
        ctx.previous_agent_shortcut_with_fallback
    } else {
        ctx.previous_agent_shortcut
    };
    let next = if fallback {
        ctx.next_agent_shortcut_with_fallback
    } else {
        ctx.next_agent_shortcut
    };
    if calm && ctx.composer_empty_with_pending && prev {
        return AppKeyAction::PreviousAgent;
    }
    if calm && ctx.composer_empty_with_pending && next {
        return AppKeyAction::NextAgent;
    }
    if ctx.side_return_shortcut && !ctx.side_return_declined {
        return AppKeyAction::TryReturnFromSide;
    }
    if calm && ctx.toggle_vim_mode {
        return AppKeyAction::ToggleVimMode;
    }
    if calm && ctx.toggle_fast_mode && ctx.can_toggle_fast_mode {
        return AppKeyAction::ToggleFastMode;
    }
    if calm && ctx.toggle_raw_output {
        return AppKeyAction::ToggleRawOutput;
    }
    if calm && ctx.open_transcript {
        return AppKeyAction::OpenTranscript;
    }
    if calm && ctx.open_external_editor {
        if !ctx.overlay_open && ctx.can_launch_external_editor && ctx.external_editor_closed {
            return AppKeyAction::RequestExternalEditor;
        }
        return AppKeyAction::Ignore;
    }
    let press = match key.kind {
        KeyKind::Press => true,
        _ => false,
    };
    let repeat = match key.kind {
        KeyKind::Repeat => true,
        _ => false,
    };
    let esc = match key.code {
        KeyCode::Esc => true,
        _ => false,
    };
    let enter = match key.code {
        KeyCode::Enter => true,
        _ => false,
    };
    if esc && (press || repeat) {
        let backtrackable = ctx.normal_backtrack_mode && ctx.composer_empty && !ctx.vim_insert_escape;
        if !ctx.side_conversation_active && backtrackable {
            return AppKeyAction::BacktrackEsc;
        } else if ctx.side_conversation_active && backtrackable {
            return AppKeyAction::RejectSideBacktrackEsc;
        }
        return AppKeyAction::ForwardToChat;
    }
    if calm && ctx.clear_terminal {
        if ctx.can_clear_now {
            return AppKeyAction::ClearTerminal;
        }
        return AppKeyAction::Ignore;
    }
    if enter && press && ctx.backtrack_primed && ctx.backtrack_has_target && ctx.composer_empty {
        return AppKeyAction::ConfirmBacktrack;
    }
    if (press || repeat) && ctx.backtrack_primed {
        return AppKeyAction::CancelBacktrackAndForward;
    }
    AppKeyAction::ForwardToChat
}

/// Whether global shortcuts apply: no overlay and no popup is up.
pub fn app_keymap_shortcuts_available(overlay_open: bool, modal_or_popup_active: bool) -> (b: bool)
    ensures
        b == (!overlay_open && !modal_or_popup_active),
{
    !overlay_open && !modal_or_popup_active
}

} // verus!
