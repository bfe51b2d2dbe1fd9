use rolodex_core::app_input::{
    BacktrackContext, PushToTalkAction, PushToTalkState, handle_handy_push_to_talk, reject_side_backtrack_esc,
    should_handle_backtrack_esc, should_reject_side_backtrack_esc, toggle_handy_continuous_mode,
};
use rolodex_core::read_pipeline::map_root;

#[test]
fn push_to_talk_double_tap_toggles_continuous_mode() {
    let mut state = PushToTalkState { continuous_mode: false, released: false };
    assert_eq!(handle_handy_push_to_talk(&mut state, true, 0), PushToTalkAction::StartRecording);
    assert_eq!(handle_handy_push_to_talk(&mut state, false, 0), PushToTalkAction::StopRecording);
    assert_eq!(handle_handy_push_to_talk(&mut state, true, 100), PushToTalkAction::ToggleContinuousMode);
    assert_eq!(toggle_handy_continuous_mode(&mut state), PushToTalkAction::StartRecording);
    assert!(state.continuous_mode);
    assert_eq!(handle_handy_push_to_talk(&mut state, false, 0), PushToTalkAction::Nothing);
    assert_eq!(toggle_handy_continuous_mode(&mut state), PushToTalkAction::StopRecording);
}

#[test]
fn backtrack_esc_depends_on_side_conversation() {
    let ctx = BacktrackContext {
        side_conversation_active: false,
        normal_backtrack_mode: true,
        composer_empty: true,
        vim_insert_escape: false,
    };
    assert!(should_handle_backtrack_esc(ctx));
    assert!(!should_reject_side_backtrack_esc(ctx));
    let side = BacktrackContext { side_conversation_active: true, ..ctx };
    assert!(!should_handle_backtrack_esc(side));
    assert!(should_reject_side_backtrack_esc(side));
    let typing = BacktrackContext { composer_empty: false, ..ctx };
    assert!(!should_handle_backtrack_esc(typing));
    assert_eq!(reject_side_backtrack_esc(), "Editing previous prompts is unavailable in side conversations.");
}

#[test]
fn map_root_uses_the_directory() {
    assert_eq!(map_root("/repo/src", true), "/repo/src");
    assert_eq!(map_root("/repo/src/main.rs", false), "/repo/src");
    assert_eq!(map_root("/", false), "/");
}

#[test]
fn directory_paths_sort_by_component() {
    let sorted = rolodex_core::paths::sort_paths(vec![
        "/b".to_string(),
        "/a/c".to_string(),
        "/a-b".to_string(),
        "/a".to_string(),
    ]);
    assert_eq!(sorted, vec!["/a".to_string(), "/a/c".to_string(), "/a-b".to_string(), "/b".to_string()]);
}
