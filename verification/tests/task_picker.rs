use rolodex_core::task_picker::{
    ProjectPickerItem, TaskItem, TaskKind, TaskPickerEntry, TaskPickerPayload, TaskPickerView, TaskSource, TaskState,
    task_state_from_plane_state,
};
use rolodex_core::task_session::{TaskActionOutcome, TaskPickerLoadTarget, TaskPickerSession};

fn task(id: &str, title: &str, plane: Option<&str>) -> TaskItem {
    TaskItem {
        id: id.to_string(),
        title: title.to_string(),
        summary: format!("{title} summary"),
        details: vec!["d".to_string()],
        prompt: "p".to_string(),
        source: TaskSource::Plane,
        state: TaskState::Ready,
        branch: None,
        ci_status: None,
        plane_issue_id: plane.map(str::to_string),
        kind: TaskKind::RealIssue,
    }
}

fn task_list(tasks: Vec<TaskItem>) -> TaskPickerPayload {
    TaskPickerPayload::TaskList {
        workspace: "ws".to_string(),
        project_slug: "proj".to_string(),
        project_name: "Project".to_string(),
        tasks,
    }
}

#[test]
fn maps_plane_states_to_task_state() {
    assert_eq!(task_state_from_plane_state(Some("In Progress")), TaskState::InProgress);
    assert_eq!(task_state_from_plane_state(Some("Blocked")), TaskState::Blocked);
    assert_eq!(task_state_from_plane_state(Some("Done")), TaskState::Done);
    assert_eq!(task_state_from_plane_state(Some("Todo")), TaskState::Ready);
    assert_eq!(task_state_from_plane_state(None), TaskState::Ready);
}

#[test]
fn picker_entries_describe_themselves() {
    let project = TaskPickerEntry::Project(ProjectPickerItem {
        workspace: "ws".to_string(),
        project_slug: "slug".to_string(),
        name: "Name".to_string(),
        description: None,
    });
    assert_eq!(project.title(), "Name");
    assert_eq!(project.summary(), "");
    assert_eq!(project.source_label(), "Plane Project");
    assert_eq!(project.project_slug(), Some("slug"));
    assert!(project.task().is_none());
    assert!(project.project().is_some());

    let entry = TaskPickerEntry::Task(task("t1", "Fix it", Some("ISS-1")));
    assert_eq!(entry.title(), "Fix it");
    assert_eq!(entry.summary(), "Fix it summary");
    assert_eq!(entry.source_label(), "Plane");
    assert_eq!(entry.project_slug(), None);
    assert_eq!(entry.task().map(|t| t.id.as_str()), Some("t1"));
}

#[test]
fn focused_task_follows_the_selection() {
    let view = TaskPickerView::from_payload(task_list(vec![task("a", "A", Some("1")), task("b", "B", Some("2"))]));
    assert_eq!(view.focused_task().map(|t| t.id.as_str()), Some("a"));
    assert!(view.focused_project().is_none());
}

#[test]
fn session_ignores_stale_payloads_and_caches_issues() {
    let mut session = TaskPickerSession::new();
    let load = session.open_task_picker();
    assert_eq!(load.request_id, 1);
    assert_eq!(load.message, "Loading Palace Plane tasks...");
    assert!(matches!(load.target, TaskPickerLoadTarget::Auto));

    let stale = session.apply_task_picker_payload(0, task_list(vec![task("x", "X", Some("9"))]));
    assert!(stale.is_none());
    assert!(session.action_cache.is_empty());

    let shown = session.apply_task_picker_payload(1, task_list(vec![task("a", "A", Some("1")), task("b", "B", None)]));
    assert!(shown.is_some());
    assert_eq!(session.action_cache.len(), 1);
    assert_eq!(session.action_cache[0].id, "a");

    match session.open_task_action_menu(&vec!["a".to_string()]) {
        TaskActionOutcome::Menu(m) => assert_eq!(m.title, "Actions for A"),
        TaskActionOutcome::Info(_) => panic!("expected the action menu"),
    }
    match session.open_task_action_menu(&vec!["zzz".to_string()]) {
        TaskActionOutcome::Info(m) => assert_eq!(m, "No task actions are available for that selection."),
        TaskActionOutcome::Menu(_) => panic!("expected the notice"),
    }
}

#[test]
fn project_load_names_the_project() {
    let mut session = TaskPickerSession::new();
    session.request_id = u64::MAX;
    let load = session.load_task_picker_project("ws".to_string(), "slug".to_string(), "Name".to_string());
    assert_eq!(load.request_id, 0);
    assert_eq!(load.message, "Loading ws/slug...");
    assert!(matches!(
        load.target,
        TaskPickerLoadTarget::Project { workspace, project_slug, project_name: Some(n) }
            if workspace == "ws" && project_slug == "slug" && n == "Name"
    ));
}

fn texts(lines: &[rolodex_core::ui::StyledLine]) -> Vec<String> {
    lines.iter().map(|l| l.spans.iter().map(|s| s.text.as_str()).collect::<String>()).collect()
}

#[test]
fn picker_panes_describe_loading_and_tasks() {
    let loading = TaskPickerView::loading("Fetching Plane issues".to_string());
    assert_eq!(texts(&loading.details_lines()), vec!["Loading tasks", "", "Fetching Plane issues"]);
    assert_eq!(texts(&loading.header_lines()), vec!["Palace Task Picker", "Opening live tasks...", "filter: none"]);

    let view = TaskPickerView::from_payload(task_list(vec![task("1", "Fix login", Some("ENG-1")), task("2", "Docs", None)]));
    assert_eq!(
        texts(&view.header_lines()),
        vec![
            "Palace Task Picker",
            "Project (ws/proj) · Space select · X menu · Enter stage",
            "2 rows · 0 selected · filter: none",
        ]
    );
    assert_eq!(texts(&view.rows()), vec!["› [ ] Fix login Plane · Ready ENG-1", "  [ ] Docs Plane · Ready"]);
    assert_eq!(
        texts(&view.details_lines()),
        vec![
            "Fix login",
            "Plane · Ready",
            "Plane: ENG-1",
            "",
            "Fix login summary",
            "",
            "Default staged action",
            "Plan and implement",
            "",
            "Notes",
            "• d",
        ]
    );
}
