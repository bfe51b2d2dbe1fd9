use rolodex_core::scroll_state::ScrollState;

#[test]
fn wrap_navigation_and_visibility() {
    let mut s = ScrollState::new();
    let len = 10;
    let vis = 5;

    s.clamp_selection(len);
    assert_eq!(s.selected_idx, Some(0));
    s.ensure_visible(len, vis);
    assert_eq!(s.scroll_top, 0);

    s.move_up_wrap(len);
    s.ensure_visible(len, vis);
    assert_eq!(s.selected_idx, Some(len - 1));
    match s.selected_idx {
        Some(sel) => assert!(s.scroll_top <= sel),
        None => panic!("expected Some(selected_idx) after wrap"),
    }

    s.move_down_wrap(len);
    s.ensure_visible(len, vis);
    assert_eq!(s.selected_idx, Some(0));
    assert_eq!(s.scroll_top, 0);
}

#[test]
fn page_navigation_clamps_to_bounds() {
    let mut s = ScrollState::new();
    let len = 10;
    let vis = 5;

    s.clamp_selection(len);
    s.move_down_page(len, vis);
    s.ensure_visible(len, vis);
    assert_eq!(s.selected_idx, Some(5));
    assert_eq!(s.scroll_top, 1);

    s.move_down_page(len, vis);
    s.ensure_visible(len, vis);
    assert_eq!(s.selected_idx, Some(9));
    assert_eq!(s.scroll_top, 5);

    s.move_up_page(len, vis);
    s.ensure_visible(len, vis);
    assert_eq!(s.selected_idx, Some(4));
    assert_eq!(s.scroll_top, 4);

    s.move_up_page(len, vis);
    s.ensure_visible(len, vis);
    assert_eq!(s.selected_idx, Some(0));
    assert_eq!(s.scroll_top, 0);
}

#[test]
fn reset_clears_selection_and_scroll() {
    let mut s = ScrollState::new();
    s.clamp_selection(3);
    s.move_down_wrap(3);
    s.reset();
    assert_eq!(s.selected_idx, None);
    assert_eq!(s.scroll_top, 0);
}

#[test]
fn clamp_selection_of_empty_list_clears_it() {
    let mut s = ScrollState::new();
    s.clamp_selection(4);
    s.move_up_wrap(4);
    assert_eq!(s.selected_idx, Some(3));
    s.clamp_selection(2);
    assert_eq!(s.selected_idx, Some(1));
    s.clamp_selection(0);
    assert_eq!(s.selected_idx, None);
}

#[test]
fn down_wrap_then_up_wrap_returns_to_start() {
    let mut s = ScrollState::new();
    s.clamp_selection(7);
    for _ in 0..3 {
        s.move_down_wrap(7);
    }
    let here = s.selected_idx;
    s.move_down_wrap(7);
    s.move_up_wrap(7);
    assert_eq!(s.selected_idx, here);
}
