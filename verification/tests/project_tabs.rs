use rolodex_core::project_navigation::AttentionMode;
use rolodex_core::project_tabs::ProjectAttentionLevel;
use rolodex_core::project_tabs::ProjectTabChromeEntry;
use rolodex_core::project_tabs::ProjectTabsBar;
use rolodex_core::project_tabs::ProjectTabsChromeState;

fn render_tabs_bar(state: ProjectTabsChromeState, width: u16) -> String {
    let mut bar = ProjectTabsBar::default();
    bar.set_state(Some(state));
    if bar.desired_height(width) == 0 {
        return String::new();
    }
    let line = bar.render_line_for_width(width).expect("relevant state");
    let text: String = line.spans.iter().map(|s| s.text.as_str()).collect();
    text.trim_end().to_string()
}

fn entry(label: &str, attention: Option<ProjectAttentionLevel>, is_active: bool) -> ProjectTabChromeEntry {
    ProjectTabChromeEntry { label: label.to_string(), attention, is_active }
}

fn sample_state() -> ProjectTabsChromeState {
    ProjectTabsChromeState {
        workspace_custom_name: Some("Riff Labs".to_string()),
        workspace_index: 0,
        workspace_count: 3,
        attention_mode: AttentionMode::On,
        tabs: vec![
            entry("obsidian", None, false),
            entry("riff-connect", Some(ProjectAttentionLevel::UserInput), true),
            entry("riff-environment", Some(ProjectAttentionLevel::Approval), false),
            entry("codex", None, false),
        ],
    }
}

#[test]
fn project_tabs_bar_collapses_attention_delimiter_when_attention_is_off() {
    let mut state = sample_state();
    state.attention_mode = AttentionMode::Off;
    assert_eq!(
        render_tabs_bar(state, 84),
        "obsidian│riff-connect│riff-environment│codex // workspace 1/3 (Riff Labs)"
    );
}

#[test]
fn project_tabs_bar_hides_when_not_relevant() {
    let state = ProjectTabsChromeState {
        workspace_custom_name: None,
        workspace_index: 0,
        workspace_count: 1,
        attention_mode: AttentionMode::Off,
        tabs: vec![entry("codex", None, true)],
    };
    let mut bar = ProjectTabsBar::default();
    bar.set_state(Some(state));
    assert_eq!(bar.desired_height(80), 0);
}

#[test]
fn project_tabs_bar_hides_markers_when_attention_is_off() {
    let rendered = render_tabs_bar(
        ProjectTabsChromeState {
            workspace_custom_name: None,
            workspace_index: 0,
            workspace_count: 1,
            attention_mode: AttentionMode::Off,
            tabs: vec![
                entry("obsidian", Some(ProjectAttentionLevel::UserInput), true),
                entry("codex", Some(ProjectAttentionLevel::Approval), false),
            ],
        },
        80,
    );
    assert_eq!(rendered.contains('?'), false);
    assert_eq!(rendered.contains('!'), false);
    assert_eq!(rendered.contains('A'), false);
}

#[test]
fn tabs_bar_shows_markers_and_attention_mode_when_on() {
    assert_eq!(
        render_tabs_bar(sample_state(), 84),
        "obsidian│? riff-connect│! riff-environment│codex /A/ workspace 1/3 (Riff Labs)"
    );
}

#[test]
fn tabs_bar_cuts_tabs_before_the_summary() {
    // the summary takes 29 cells, so the tabs get 48 - 30 = 18 cells
    let rendered = render_tabs_bar(sample_state(), 48);
    assert_eq!(rendered, "obsidian│? riff-c… /A/ workspace 1/3 (Riff Labs)");
}

#[test]
fn tabs_bar_cuts_the_summary_when_it_takes_the_whole_width() {
    let rendered = render_tabs_bar(sample_state(), 10);
    assert_eq!(rendered, "/A/ works…");
    assert_eq!(rendered.chars().count(), 10);
}
