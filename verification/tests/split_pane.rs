use rolodex_core::split_pane::{MIN_PANE_HEIGHT, MIN_PANE_WIDTH, PaneRect, SplitAxis, SplitPaneState};

fn rect(x: u16, y: u16, width: u16, height: u16) -> PaneRect {
    PaneRect { x, y, width, height }
}

#[test]
fn desired_height_expands_to_fill_viewport() {
    assert_eq!(SplitPaneState::desired_height(), u16::MAX);
}

#[test]
fn focus_cycles_in_render_order() {
    let mut state = SplitPaneState::new(1);
    state.split_active(2, SplitAxis::Vertical);
    assert_eq!(state.focus_previous(), Some(1));
    assert_eq!(state.focus_next(), Some(2));
}

#[test]
fn remove_thread_collapses_tree() {
    let mut state = SplitPaneState::new(1);
    state.split_active(2, SplitAxis::Vertical);
    state.focus_previous();
    state.split_active(3, SplitAxis::Horizontal);

    let state = state.without_thread(3).expect("tree should remain");
    assert_eq!(state.leaf_count(), 2);
    assert_eq!(state.leaves(), vec![(0, 1), (1, 2)]);
}

#[test]
fn split_refusal_uses_active_pane_size() {
    let mut state = SplitPaneState::new(1);
    state.split_active(2, SplitAxis::Vertical);
    let left_pane_id = state.focus_previous().map(|_| state.active_pane_id()).expect("left pane");
    state.focus_pane(left_pane_id);
    let narrow_area = rect(0, 0, (MIN_PANE_WIDTH * 2).saturating_sub(1), MIN_PANE_HEIGHT);
    assert_eq!(state.can_split_active(narrow_area, SplitAxis::Vertical), false);
}

#[test]
fn active_pane_area_tracks_nested_focus() {
    let mut state = SplitPaneState::new(1);
    let right_pane_id = state.split_active(2, SplitAxis::Vertical);
    assert_eq!(right_pane_id, 1);
    state.focus_previous();
    let bottom_pane_id = state.split_active(3, SplitAxis::Horizontal);
    assert_eq!(bottom_pane_id, 2);
    assert_eq!(state.active_pane_id(), 2);
    assert_eq!(state.active_pane_area(rect(0, 0, 80, 24)), Some(rect(0, 13, 40, 11)));
}

#[test]
fn splitting_and_removing_keeps_other_threads() {
    let mut state = SplitPaneState::new(10);
    state.split_active(20, SplitAxis::Horizontal);
    state.split_active(30, SplitAxis::Vertical);
    assert_eq!(state.leaf_count(), 3);
    assert!(state.contains_thread(20));
    let state = state.without_thread(20).expect("tree should remain");
    assert!(!state.contains_thread(20));
    assert!(state.contains_thread(10) && state.contains_thread(30));
    let single = SplitPaneState::new(5).without_thread(5);
    assert!(single.is_none());
}
