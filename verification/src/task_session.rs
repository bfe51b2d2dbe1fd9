//! The chat widget's side of the task picker: which load is current, and
//! the tasks that actions may be asked for.
use vstd::prelude::*;
use crate::task_picker::{
    ActionItem, ActionMenu, TaskItem, TaskKind, TaskPickerPayload, TaskSource, TaskState, item_view,
    menu_items, menu_tasks, task_action_menu_params,
};
use crate::text::{decimal, push_str, strings_view};

verus! {

/// A task as the contracts speak of it.
#[verifier::ext_equal]
pub struct TaskItemView {
    pub id: Seq<char>,
    pub title: Seq<char>,
    pub summary: Seq<char>,
    pub details: Seq<Seq<char>>,
    pub prompt: Seq<char>,
    pub source: TaskSource,
    pub state: TaskState,
    pub branch: Option<Seq<char>>,
    pub ci_status: Option<Seq<char>>,
    pub plane_issue_id: Option<Seq<char>>,
    pub kind: TaskKind,
}

pub open spec fn opt_chars(o: Option<String>) -> Option<Seq<char>> {
    match o {
        Some(s) => Some(s@),
        None => None,
    }
}

pub open spec fn task_item_view(t: TaskItem) -> TaskItemView {
    TaskItemView {
        id: t.id@,
        title: t.title@,
        summary: t.summary@,
        details: strings_view(t.details@),
        prompt: t.prompt@,
        source: t.source,
        state: t.state,
        branch: opt_chars(t.branch),
        ci_status: opt_chars(t.ci_status),
        plane_issue_id: opt_chars(t.plane_issue_id),
        kind: t.kind,
    }
}

pub open spec fn tasks_view(s: Seq<TaskItem>) -> Seq<TaskItemView> {
    s.map_values(|t: TaskItem| task_item_view(t))
}

fn clone_opt(o: &Option<String>) -> (r: Option<String>)
    ensures
        opt_chars(r) == opt_chars(*o),
{
    match o {
        Some(s) => Some(s.clone()),
        None => None,
    }
}

/// A copy of a task.
pub fn clone_task(t: &TaskItem) -> (r: TaskItem)
    ensures
        task_item_view(r) == task_item_view(*t),
{
    let mut details: Vec<String> = Vec::new();
    let mut i: usize = 0;
    while i < t.details.len()
        invariant
            i <= t.details@.len(),
            strings_view(details@) == strings_view(t.details@.take(i as int)),
        decreases t.details@.len() - i,
    {
        let ghost before = details@;
        let c = t.details[i].clone();
        details.push(c);
        assert(t.details@.take(i + 1) =~= t.details@.take(i as int).push(t.details@[i as int]));
        assert(strings_view(details@) =~= strings_view(before).push(c@));
        assert(strings_view(t.details@.take(i + 1)) =~= strings_view(t.details@.take(i as int)).push(
            t.details@[i as int]@,
        ));
        i += 1;
    }
    assert(t.details@.take(t.details@.len() as int) =~= t.details@);
    let r = TaskItem {
        id: t.id.clone(),
        title: t.title.clone(),
        summary: t.summary.clone(),
        details,
        prompt: t.prompt.clone(),
        source: t.source,
        state: t.state,
        branch: clone_opt(&t.branch),
        ci_status: clone_opt(&t.ci_status),
        plane_issue_id: clone_opt(&t.plane_issue_id),
        kind: t.kind,
    };
    assert(task_item_view(r) =~~= task_item_view(*t));
    r
}

/// What to load into the picker.
pub enum TaskPickerLoadTarget {
    /// The project of the working directory, or the workspace's projects.
    Auto,
    /// The tasks of one project.
    Project { workspace: String, project_slug: String, project_name: Option<String> },
}

/// A load the picker starts: shown as loading with `message` until the
/// payload of `request_id` arrives.
pub struct TaskPickerLoad {
    pub request_id: u64,
    pub message: String,
    pub target: TaskPickerLoadTarget,
}

/// What asking for task actions leads to: the action menu, or a notice.
pub enum TaskActionOutcome {
    Menu(ActionMenu),
    Info(String),
}

/// The widget's picker state: the id of the current load, and the tasks of
/// the last task list that have a Plane issue.
pub struct TaskPickerSession {
    pub request_id: u64,
    pub action_cache: Vec<TaskItem>,
}

/// The next request id, wrapping.
pub open spec fn next_request_id(id: u64) -> u64 {
    if id == u64::MAX {
        0
    } else {
        (id + 1) as u64
    }
}

/// The tasks that have a Plane issue.
pub open spec fn issue_tasks(tasks: Seq<TaskItem>) -> Seq<TaskItem> {
    tasks.filter(|t: TaskItem| t.plane_issue_id is Some)
}

/// The tasks an action cache keeps from a payload: those of a task list
/// that have a Plane issue; none for any other payload.
pub open spec fn cached_from(payload: TaskPickerPayload) -> Seq<TaskItemView> {
    match payload {
        TaskPickerPayload::TaskList { tasks, .. } => tasks_view(issue_tasks(tasks@)),
        _ => Seq::empty(),
    }
}

impl TaskPickerSession {
    /// A session that has loaded nothing.
    pub fn new() -> (s: TaskPickerSession)
        ensures
            s.request_id == 0,
            s.action_cache@.len() == 0,
    {
        TaskPickerSession { request_id: 0, action_cache: Vec::new() }
    }

    /// Opens the picker: a new load, of the working directory's tasks, with
    /// the cache cleared.
    pub fn open_task_picker(&mut self) -> (r: TaskPickerLoad)
        ensures
            final(self).request_id == next_request_id(old(self).request_id),
            final(self).action_cache@.len() == 0,
            r.request_id == final(self).request_id,
            r.message@ == "Loading Palace Plane tasks..."@,
            r.target is Auto,
    {
        self.request_id = self.request_id.wrapping_add(1);
        self.action_cache = Vec::new();
        TaskPickerLoad {
            request_id: self.request_id,
            message: String::from_str("Loading Palace Plane tasks..."),
            target: TaskPickerLoadTarget::Auto,
        }
    }

    /// Loads one project's tasks into the picker: a new load, with the cache
    /// cleared, shown as loading `workspace/project_slug`.
    pub fn load_task_picker_project(&mut self, workspace: String, project_slug: String, project_name: String) -> (r:
        TaskPickerLoad)
        ensures
            final(self).request_id == next_request_id(old(self).request_id),
            final(self).action_cache@.len() == 0,
            r.request_id == final(self).request_id,
            r.message@ == "Loading "@ + workspace@ + "/"@ + project_slug@ + "..."@,
            r.target matches TaskPickerLoadTarget::Project { workspace: w, project_slug: p, project_name: n } && w@
                == workspace@ && p@ == project_slug@ && n == Some(project_name),
    {
        self.request_id = self.request_id.wrapping_add(1);
        self.action_cache = Vec::new();
        let mut message = String::from_str("Loading ");
        push_str(&mut message, workspace.as_str());
        push_str(&mut message, "/");
        push_str(&mut message, project_slug.as_str());
        push_str(&mut message, "...");
        TaskPickerLoad {
            request_id: self.request_id,
            message,
            target: TaskPickerLoadTarget::Project { workspace, project_slug, project_name: Some(project_name) },
        }
    }

    /// A payload arrived: one of an earlier load is dropped; one of the
    /// current load refills the cache with the tasks that have a Plane issue
    /// and is handed back for the picker to show.
    pub fn apply_task_picker_payload(&mut self, request_id: u64, payload: TaskPickerPayload) -> (r: Option<
        TaskPickerPayload,
    >)
        ensures
            request_id != old(self).request_id ==> r is None && final(self).request_id == old(self).request_id
                && tasks_view(final(self).action_cache@) == tasks_view(old(self).action_cache@),
            request_id == old(self).request_id ==> r == Some(payload) && final(self).request_id
                == old(self).request_id && tasks_view(final(self).action_cache@) == cached_from(payload),
    {
        if request_id != self.request_id {
            return None;
        }
        let mut cache: Vec<TaskItem> = Vec::new();
        match &payload {
            TaskPickerPayload::TaskList { tasks, .. } => {
                proof {
                    reveal_with_fuel(Seq::filter, 1);
                    assert(issue_tasks(tasks@.take(0)) =~= Seq::<TaskItem>::empty());
                    assert(tasks_view(cache@) =~= Seq::<TaskItemView>::empty());
                }
                let mut i: usize = 0;
                while i < tasks.len()
                    invariant
                        i <= tasks@.len(),
                        tasks_view(cache@) == tasks_view(issue_tasks(tasks@.take(i as int))),
                    decreases tasks@.len() - i,
                {
                    assert(tasks@.take(i + 1).drop_last() =~= tasks@.take(i as int));
                    assert(tasks@.take(i + 1).last() == tasks@[i as int]);
                    let ghost before = cache@;
                    proof {
                        reveal_with_fuel(Seq::filter, 1);
                    }
                    if tasks[i].plane_issue_id.is_some() {
                        cache.push(clone_task(&tasks[i]));
                        assert(tasks_view(cache@) =~= tasks_view(before).push(task_item_view(tasks@[i as int])));
                        assert(tasks_view(issue_tasks(tasks@.take(i + 1))) =~= tasks_view(
                            issue_tasks(tasks@.take(i as int)),
                        ).push(task_item_view(tasks@[i as int])));
                    }
                    i += 1;
                }
                assert(tasks@.take(tasks@.len() as int) =~= tasks@);
            },
            _ => {
                assert(tasks_view(cache@) =~= Seq::<TaskItemView>::empty());
            },
        }
        self.action_cache = cache;
        Some(payload)
    }

    /// Task actions were asked for: the menu for the cached tasks among
    /// `task_ids`, or a notice that none applies.
    pub fn open_task_action_menu(&self, task_ids: &Vec<String>) -> (r: TaskActionOutcome)
        ensures
            ({
                let tasks = menu_tasks(self.action_cache@, task_ids@);
                match r {
                    TaskActionOutcome::Info(m) => tasks.len() == 0 && m@
                        == "No task actions are available for that selection."@,
                    TaskActionOutcome::Menu(m) => {
                        &&& tasks.len() > 0
                        &&& m.title@ == if tasks.len() == 1 {
                            "Actions for "@ + tasks[0].title@
                        } else {
                            "Actions for "@ + decimal(tasks.len()) + " selected tasks"@
                        }
                        &&& m.subtitle@ == "Choose the next staged action"@
                        &&& m.items@.map_values(|i: ActionItem| item_view(i)) == menu_items(tasks)
                    },
                }
            }),
    {
        match task_action_menu_params(&self.action_cache, task_ids) {
            Some(m) => TaskActionOutcome::Menu(m),
            None => TaskActionOutcome::Info(String::from_str("No task actions are available for that selection.")),
        }
    }
}

} // verus!
