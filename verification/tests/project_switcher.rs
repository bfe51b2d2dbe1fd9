use rolodex_core::app_event::ProjectOpenTarget;
use rolodex_core::app_event::ViewEvent;
use rolodex_core::app_input::KeyCode;
use rolodex_core::app_input::Modifiers;
use rolodex_core::project_chooser::BrowserItemKind;
use rolodex_core::project_chooser::BrowserPane;
use rolodex_core::project_chooser::DirectoryListing;
use rolodex_core::project_chooser::PaneKeyResult;
use rolodex_core::project_chooser::ProjectChooserView;
use rolodex_core::project_chooser::list_scroll_top;
use rolodex_core::project_chooser::preferred_browser_root;
use rolodex_core::project_chooser::scroll_selection;
use rolodex_core::project_navigation::AttentionMode;
use rolodex_core::project_navigation::NewTabPlacement;
use rolodex_core::project_switcher::FavoriteProjectTile;
use rolodex_core::project_switcher::FavoritesEditorView;
use rolodex_core::project_switcher::ProjectSwitcherAction;
use rolodex_core::project_switcher::ProjectSwitcherTabTile;
use rolodex_core::project_switcher::ProjectSwitcherView;
use rolodex_core::project_switcher::SwitcherSection;
use rolodex_core::project_switcher::TileGridLayout;
use rolodex_core::split_pane::PaneRect;
use rolodex_core::split_pane::SplitAxis;

fn none() -> Modifiers {
    Modifiers { control: false, alt: false, shift: false, other: false }
}

fn favorite(cwd: &str, label: &str, is_open: bool) -> FavoriteProjectTile {
    FavoriteProjectTile { cwd: cwd.to_string(), label: label.to_string(), description: None, is_open }
}

fn tab(thread_id: u64, label: &str, is_active: bool) -> ProjectSwitcherTabTile {
    ProjectSwitcherTabTile {
        thread_id,
        label: label.to_string(),
        cwd: format!("/workspace/{label}"),
        summary: None,
        is_active,
        attention: None,
    }
}

fn make_view() -> ProjectSwitcherView {
    ProjectSwitcherView::new(
        "Workspace 1".to_string(),
        0,
        1,
        AttentionMode::Soft,
        Vec::new(),
        vec![favorite("/workspace/flagship", "flagship", false)],
        "/workspace/codex".to_string(),
    )
}

#[test]
fn tile_grid_layout_uses_exact_fit_columns() {
    assert_eq!(
        ProjectSwitcherView::tile_grid_layout(4, 55),
        TileGridLayout { columns: 2, rows: 2, tile_width: 27 }
    );
}

#[test]
fn tile_grid_layout_shrinks_single_column_tiles() {
    assert_eq!(
        ProjectSwitcherView::tile_grid_layout(3, 20),
        TileGridLayout { columns: 1, rows: 3, tile_width: 20 }
    );
}

#[test]
fn action_grid_layout_wraps_when_width_is_narrow() {
    let view = make_view();
    assert_eq!(view.action_grid_layout(58), TileGridLayout { columns: 4, rows: 2, tile_width: 13 });
}

#[test]
fn confirm_on_favorite_opens_resume_picker_for_project() {
    let mut view = make_view();
    view.handle_key_event(KeyCode::Down, none());
    let event = view.handle_key_event(KeyCode::Enter, none());
    assert!(matches!(
        event.expect("expected switcher event"),
        ViewEvent::ResumeProjectAtTarget { cwd, target }
            if cwd == "/workspace/flagship"
                && target == ProjectOpenTarget::Tab(NewTabPlacement::Right)
    ));
}

#[test]
fn context_on_favorite_opens_fresh_session_for_project() {
    let mut view = make_view();
    view.handle_key_event(KeyCode::Down, none());
    let event = view.handle_key_event(KeyCode::Char('x'), none());
    assert!(matches!(
        event.expect("expected switcher event"),
        ViewEvent::OpenNewProjectSessionAtTarget { cwd, target }
            if cwd == "/workspace/flagship"
                && target == ProjectOpenTarget::Tab(NewTabPlacement::Right)
    ));
}

#[test]
fn switcher_starts_on_the_active_tab() {
    let view = ProjectSwitcherView::new(
        "W".to_string(),
        0,
        1,
        AttentionMode::Off,
        vec![tab(1, "a", false), tab(2, "b", true), tab(3, "c", true)],
        Vec::new(),
        "/".to_string(),
    );
    assert_eq!(view.selected_tab_idx, 1);
    assert_eq!(view.selected_section, SwitcherSection::Tabs);
}

#[test]
fn up_from_top_row_focuses_previous_section_and_down_wraps_to_tabs() {
    let mut view = make_view();
    view.handle_key_event(KeyCode::Up, none());
    assert_eq!(view.selected_section, SwitcherSection::Actions);
    view.handle_key_event(KeyCode::Char('j'), none());
    assert_eq!(view.selected_action_idx, 1);
    view.selected_action_idx = 6;
    view.handle_key_event(KeyCode::Char('j'), none());
    assert_eq!(view.selected_section, SwitcherSection::Tabs);
    view.handle_key_event(KeyCode::Char('j'), none());
    assert_eq!(view.selected_section, SwitcherSection::Favorites);
}

#[test]
fn down_steps_by_the_recorded_columns() {
    let mut view = ProjectSwitcherView::new(
        "W".to_string(),
        0,
        1,
        AttentionMode::Off,
        (0..5).map(|i| tab(i, "t", false)).collect(),
        Vec::new(),
        "/".to_string(),
    );
    view.tab_columns = 2;
    view.handle_key_event(KeyCode::Down, none());
    assert_eq!(view.selected_tab_idx, 2);
    view.handle_key_event(KeyCode::Down, none());
    assert_eq!(view.selected_tab_idx, 4);
    view.handle_key_event(KeyCode::Down, none());
    assert_eq!(view.selected_section, SwitcherSection::Favorites);
}

#[test]
fn confirm_on_tab_selects_its_thread_and_closes() {
    let mut view = ProjectSwitcherView::new(
        "W".to_string(),
        0,
        1,
        AttentionMode::Off,
        vec![tab(7, "a", true)],
        Vec::new(),
        "/".to_string(),
    );
    let event = view.handle_key_event(KeyCode::Enter, none());
    assert_eq!(event, Some(ViewEvent::SelectAgentThread(7)));
    assert!(view.is_complete());
}

#[test]
fn actions_run_and_close_the_switcher() {
    let mut view = make_view();
    view.selected_section = SwitcherSection::Actions;
    view.selected_action_idx = 1;
    let browse = view.run_action_with_home(None);
    assert_eq!(browse, Some(ViewEvent::OpenProjectDirectoryBrowser { root: "/".to_string() }));
    assert!(view.is_complete());

    let mut view = make_view();
    view.selected_section = SwitcherSection::Actions;
    view.selected_action_idx = 0;
    let projects = view.run_action_with_home(Some("/home/me".to_string()));
    assert_eq!(projects, Some(ViewEvent::OpenProjectDirectoryBrowser { root: "/home/me/projects".to_string() }));

    let mut view = make_view();
    view.selected_section = SwitcherSection::Actions;
    view.selected_action_idx = 4;
    assert_eq!(view.run_action_with_home(None), Some(ViewEvent::SetAttentionMode { mode: AttentionMode::On }));

    let mut view = make_view();
    view.selected_section = SwitcherSection::Actions;
    view.selected_action_idx = 5;
    assert_eq!(view.run_action_with_home(None), None);
    assert!(view.is_complete());
}

#[test]
fn toggle_attention_label_names_next_mode() {
    assert_eq!(ProjectSwitcherAction::ToggleAttentionMode.label(AttentionMode::On), "Attention off");
    assert_eq!(ProjectSwitcherAction::SaveAndQuit.label(AttentionMode::On), "Save + quit");
}

#[test]
fn esc_closes_switcher() {
    let mut view = make_view();
    assert_eq!(view.handle_key_event(KeyCode::Esc, none()), None);
    assert!(view.is_complete());
}

#[test]
fn desired_height_sums_sections() {
    let view = make_view();
    // header 2 + tabs 12 + favorites 8 + actions (2 rows of 3) 6 + footer 1
    assert_eq!(view.desired_height(58), 29);
}

#[test]
fn render_records_grid_columns() {
    let mut view = ProjectSwitcherView::new(
        "W".to_string(),
        0,
        2,
        AttentionMode::Soft,
        (0..4).map(|i| tab(i, "t", i == 0)).collect(),
        vec![favorite("/a", "a", true)],
        "/".to_string(),
    );
    let area = PaneRect { x: 0, y: 0, width: 80, height: 40 };
    let (panels, footer) = view.render(area);
    assert!(footer.is_some());
    assert_eq!(view.tab_columns, 2);
    assert_eq!(view.action_columns, 5);
    assert!(panels[0].clear);
    let header = &panels[1].lines[0];
    assert_eq!(header.spans[0].text, "Project Switcher");
    assert_eq!(header.spans[2].text, "W (1/2)");
    // four tab tiles, one favorite, seven actions after the four fixed panels
    assert_eq!(panels.len(), 4 + 4 + 1 + 7);
}

#[test]
fn list_scroll_top_keeps_selection_visible() {
    assert_eq!(list_scroll_top(0, 10, 4), 0);
    assert_eq!(list_scroll_top(5, 10, 4), 2);
    assert_eq!(list_scroll_top(9, 10, 4), 6);
    assert_eq!(list_scroll_top(9, 3, 4), 0);
    assert_eq!(list_scroll_top(3, 10, 0), 0);
}

#[test]
fn scroll_selection_clamps() {
    let mut i = 2usize;
    scroll_selection(&mut i, 5, 10);
    assert_eq!(i, 4);
    scroll_selection(&mut i, 5, -3);
    assert_eq!(i, 1);
    scroll_selection(&mut i, 5, -3);
    assert_eq!(i, 0);
    scroll_selection(&mut i, 0, 1);
    assert_eq!(i, 0);
}

fn chooser(target: ProjectOpenTarget) -> ProjectChooserView {
    ProjectChooserView::new(
        vec![favorite("/workspace/codex", "codex", true)],
        vec!["/workspace/dragonfly".to_string()],
        DirectoryListing {
            root: "/workspace".to_string(),
            recent_is_dir: vec![true],
            children: Some(vec!["/workspace/a".to_string()]),
        },
        target,
    )
}

#[test]
fn project_chooser_confirm_focuses_or_opens_selected_favorite_with_placement() {
    let mut view = chooser(ProjectOpenTarget::Tab(NewTabPlacement::Right));
    let r = view.handle_key_event(KeyCode::Enter, none());
    assert!(matches!(
        r,
        PaneKeyResult::Handled(Some(ViewEvent::FocusOrOpenProjectAtTarget { cwd, target }))
            if cwd == "/workspace/codex"
                && target == ProjectOpenTarget::Tab(NewTabPlacement::Right)
    ));
    assert!(view.is_complete());
}

#[test]
fn project_chooser_context_opens_fresh_session_for_selected_favorite() {
    let mut view = chooser(ProjectOpenTarget::Tab(NewTabPlacement::Right));
    let r = view.handle_key_event(KeyCode::Char('x'), none());
    assert!(matches!(
        r,
        PaneKeyResult::Handled(Some(ViewEvent::OpenNewProjectSessionAtTarget { cwd, target }))
            if cwd == "/workspace/codex"
                && target == ProjectOpenTarget::Tab(NewTabPlacement::Right)
    ));
    assert!(view.is_complete());
}

#[test]
fn chooser_lists_recents_parent_and_children() {
    let view = chooser(ProjectOpenTarget::Tab(NewTabPlacement::Left));
    let items: Vec<(BrowserItemKind, &str)> =
        view.browser_items.iter().map(|i| (i.kind, i.path.as_str())).collect();
    assert_eq!(
        items,
        vec![
            (BrowserItemKind::Recent, "/workspace/dragonfly"),
            (BrowserItemKind::Parent, "/"),
            (BrowserItemKind::Child, "/workspace/a"),
        ]
    );
    assert_eq!(view.target_title(), "Open Project In LEFT Tab");
}

#[test]
fn chooser_right_in_browser_asks_to_browse_selected_path() {
    let mut view = chooser(ProjectOpenTarget::SplitPane { pane_id: 7, axis: SplitAxis::Horizontal });
    assert!(matches!(view.handle_key_event(KeyCode::Right, none()), PaneKeyResult::Handled(None)));
    assert_eq!(view.focused_pane, BrowserPane::Browser);
    view.handle_key_event(KeyCode::Down, none());
    let r = view.handle_key_event(KeyCode::Char('l'), none());
    assert!(matches!(r, PaneKeyResult::BrowseIfDirectory(p) if p == "/"));
    assert_eq!(view.desired_height(80), 34);
    assert_eq!(view.target_title(), "Open Project In New Horizontal Pane");
}

#[test]
fn chooser_drops_recents_that_are_not_directories() {
    let view = ProjectChooserView::new(
        Vec::new(),
        vec!["/gone".to_string(), "/here".to_string()],
        DirectoryListing { root: "/".to_string(), recent_is_dir: vec![false, true], children: None },
        ProjectOpenTarget::Tab(NewTabPlacement::Right),
    );
    let items: Vec<(BrowserItemKind, &str)> =
        view.browser_items.iter().map(|i| (i.kind, i.path.as_str())).collect();
    assert_eq!(items, vec![(BrowserItemKind::Recent, "/here")]);
}

#[test]
fn preferred_root_falls_back_in_order() {
    assert_eq!(preferred_browser_root(Some("/x".to_string()), Some("/h".to_string()), true), "/x");
    assert_eq!(preferred_browser_root(None, Some("/h".to_string()), true), "/h/projects");
    assert_eq!(preferred_browser_root(None, Some("/h".to_string()), false), "/h");
    assert_eq!(preferred_browser_root(None, None, true), "/");
}

#[test]
fn chooser_render_lists_favorites_and_browser() {
    let view = chooser(ProjectOpenTarget::Tab(NewTabPlacement::Right));
    let panels = view.render(PaneRect { x: 0, y: 0, width: 80, height: 26 });
    assert_eq!(panels.len(), 7);
    let favorites = &panels[3].lines[0];
    let texts: Vec<&str> = favorites.spans.iter().map(|s| s.text.as_str()).collect();
    assert_eq!(texts, vec!["> ", "● ", "codex"]);
    let browser = &panels[5].lines[0];
    assert_eq!(browser.spans[1].text, "Recent: /workspace/dragonfly");
    assert_eq!(panels[4].frame.as_ref().unwrap().title.as_deref(), Some("Browser: /workspace"));
}

#[test]
fn favorites_editor_enter_in_browser_asks_to_browse_or_open() {
    let mut view = FavoritesEditorView::new(
        vec![favorite("/a", "a", false)],
        vec!["/r".to_string()],
        None,
        DirectoryListing { root: "/w".to_string(), recent_is_dir: vec![false], children: None },
    );
    // the editor keeps every recent project
    assert_eq!(view.browser_items.len(), 2);
    let r = view.handle_key_event(KeyCode::Char('x'), none());
    assert!(matches!(r, PaneKeyResult::Handled(Some(ViewEvent::ToggleFavoriteProject { cwd })) if cwd == "/a"));
    let mut view = FavoritesEditorView::new(
        Vec::new(),
        vec!["/r".to_string()],
        None,
        DirectoryListing { root: "/w".to_string(), recent_is_dir: vec![false], children: None },
    );
    view.handle_key_event(KeyCode::Right, none());
    let r = view.handle_key_event(KeyCode::Enter, none());
    assert!(matches!(r, PaneKeyResult::BrowseOrOpen(p) if p == "/r"));
    let opened = view.open_current_project();
    assert_eq!(opened, Some(ViewEvent::FocusOrOpenProject { cwd: "/r".to_string() }));
    assert!(view.is_complete());
}
