use rolodex_core::project_navigation::{
    AttentionMode, NewTabPlacement, ProjectNavigationState, ProjectWorkspaceDirection, RestoredWorkspace,
    default_attention_idle_delay_seconds,
};
use rolodex_core::project_runtime::{
    apply_attention_mode, cycle_attention_mode, forget_recent_project, save_workspace_session, toggle_project_favorite,
};

fn fresh() -> ProjectNavigationState {
    ProjectNavigationState::with_persisted(ProjectNavigationState::default_persisted())
}

fn s(p: &str) -> String {
    p.to_string()
}

#[test]
fn recents_are_deduped_and_most_recent_first() {
    let mut state = fresh();
    state.record_recent(s("/work/a"));
    state.record_recent(s("/work/b"));
    state.record_recent(s("/work/a"));

    assert_eq!(state.recents(), &vec![s("/work/a"), s("/work/b")]);
}

#[test]
fn inserts_new_tabs_adjacent_to_anchor() {
    let mut state = fresh();
    let (first, second, third) = (1u64, 2u64, 3u64);

    state.remember_project_thread(first, s("/work/first"));
    state.insert_project_thread(second, s("/work/second"), Some(first), NewTabPlacement::Right);
    state.insert_project_thread(third, s("/work/third"), Some(first), NewTabPlacement::Left);

    assert_eq!(
        state.active_workspace_tabs(),
        vec![(third, s("/work/third")), (first, s("/work/first")), (second, s("/work/second"))]
    );
}

#[test]
fn next_workspace_creates_a_new_empty_workspace() {
    let mut state = fresh();
    state.remember_project_thread(1, s("/work/first"));

    let switched = state.switch_workspace(ProjectWorkspaceDirection::Next);

    assert_eq!(switched, None);
    assert_eq!(state.active_workspace_index(), 1);
    assert_eq!(state.workspace_count(), 2);
    assert_eq!(state.active_workspace_is_empty(), true);
}

#[test]
fn remove_recent_forgets_matching_path() {
    let mut state = fresh();
    state.record_recent(s("/work/a"));
    state.record_recent(s("/work/b"));

    state.remove_recent("/work/a");

    assert_eq!(state.recents(), &vec![s("/work/b")]);
}

#[test]
fn save_current_workspace_session_round_trips() {
    let (first, second, third) = (1u64, 2u64, 3u64);
    let mut state = fresh();

    state.remember_project_thread(first, s("/work/first"));
    state.insert_project_thread(second, s("/work/second"), Some(first), NewTabPlacement::Right);
    state.switch_workspace(ProjectWorkspaceDirection::Next);
    state.remember_project_thread(third, s("/work/third"));
    state.switch_workspace(ProjectWorkspaceDirection::Previous);

    assert!(state.save_current_workspace_session());
    let restored = state.saved_workspace_session().as_ref().expect("workspace session should exist");

    assert_eq!(restored.active_workspace, 0);
    assert_eq!(restored.workspaces.len(), 2);
    let tabs0: Vec<(u64, String)> =
        restored.workspaces[0].tabs.iter().map(|t| (t.thread_id, t.cwd.clone())).collect();
    assert_eq!(tabs0, vec![(first, s("/work/first")), (second, s("/work/second"))]);
    let tabs1: Vec<(u64, String)> =
        restored.workspaces[1].tabs.iter().map(|t| (t.thread_id, t.cwd.clone())).collect();
    assert_eq!(tabs1, vec![(third, s("/work/third"))]);
}

#[test]
fn apply_restored_workspace_session_replaces_open_tabs() {
    let (first, second) = (1u64, 2u64);
    let mut state = fresh();
    state.remember_project_thread(99, s("/stale"));

    state.apply_restored_workspace_session(
        vec![
            RestoredWorkspace { tabs: vec![(first, s("/work/first"))], active_tab: Some(0) },
            RestoredWorkspace { tabs: vec![(second, s("/work/second"))], active_tab: Some(0) },
        ],
        1,
    );

    assert_eq!(state.active_workspace_index(), 1);
    assert_eq!(state.workspace_tabs(0), vec![(first, s("/work/first"))]);
    assert_eq!(state.workspace_tabs(1), vec![(second, s("/work/second"))]);
}

#[test]
fn favorites_toggle_with_notes() {
    let mut state = fresh();
    assert_eq!(toggle_project_favorite(&mut state, s("/p")), "Added favorite project /p.");
    assert_eq!(state.favorites(), &vec![s("/p")]);
    assert_eq!(toggle_project_favorite(&mut state, s("/p")), "Removed favorite project /p.");
    assert!(state.favorites().is_empty());
}

#[test]
fn attention_mode_cycles_with_notes() {
    let mut state = fresh();
    let first = state.attention_mode();
    let note = cycle_attention_mode(&mut state);
    assert_eq!(state.attention_mode(), first.next());
    assert!(note.starts_with("Project attention mode: "));
    assert_eq!(apply_attention_mode(&mut state, AttentionMode::Off), "Project attention mode: off.");
    assert_eq!(state.attention_mode(), AttentionMode::Off);
    assert_eq!(default_attention_idle_delay_seconds(), 5);
}

#[test]
fn saving_a_session_needs_an_open_tab() {
    let mut state = fresh();
    assert_eq!(save_workspace_session(&mut state), Err(s("No project tabs are open to save.")));
    state.remember_project_thread(7, s("/w"));
    assert_eq!(save_workspace_session(&mut state), Ok(()));
    state.record_recent(s("/w"));
    forget_recent_project(&mut state, "/w");
    assert!(state.recents().is_empty());
}
