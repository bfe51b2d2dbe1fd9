//! The task picker: Plane projects and issues as tasks, filtered by a typed
//! query, selected for batch actions, and turned into prompts.
use vstd::prelude::*;
use crate::text;
use crate::order;
use crate::scroll_state::ScrollState;
use crate::ui;
use crate::project_chooser;
use crate::layout;
use crate::split_pane::PaneRect;

verus! {

broadcast use vstd::slice::group_slice_axioms;

pub const TASKS_SELECTION_VIEW_ID: &'static str = "palace-task-picker";

/// Workspace browsed when no project is configured.
pub const DEFAULT_WORKSPACE: &'static str = "riffcc";

/// Most rows a popup list shows.
pub const MAX_POPUP_ROWS: usize = 8;

/// Longest issue summary, in characters.
pub const SUMMARY_MAX_CHARS: usize = 180;

#[derive(Clone, Copy, PartialEq, Eq, Structural, Debug)]
pub enum TaskSource {
    Plane,
}

impl TaskSource {
    pub fn label(self) -> (s: &'static str)
        ensures
            s@ == "Plane"@,
    {
        "Plane"
    }
}

#[derive(Clone, Copy, PartialEq, Eq, Structural, Debug)]
pub enum TaskKind {
    RealIssue,
}

#[derive(Clone, Copy, PartialEq, Eq, Structural, Debug)]
pub enum TaskState {
    Ready,
    InProgress,
    Done,
    Blocked,
}

impl TaskState {
    pub open spec fn label_spec(self) -> Seq<char> {
        match self {
            TaskState::Ready => "Ready"@,
            TaskState::InProgress => "In Progress"@,
            TaskState::Done => "Done"@,
            TaskState::Blocked => "Blocked"@,
        }
    }

    pub fn label(self) -> (s: &'static str)
        ensures
            s@ == self.label_spec(),
    {
        match self {
            TaskState::Ready => "Ready",
            TaskState::InProgress => "In Progress",
            TaskState::Done => "Done",
            TaskState::Blocked => "Blocked",
        }
    }

    /// Work on the task is under way or stuck, so it can be continued.
    pub fn can_continue(self) -> (b: bool)
        ensures
            b == (self == TaskState::InProgress || self == TaskState::Blocked),
    {
        match self {
            TaskState::InProgress | TaskState::Blocked => true,
            _ => false,
        }
    }

    pub fn is_done(self) -> (b: bool)
        ensures
            b == (self == TaskState::Done),
    {
        match self {
            TaskState::Done => true,
            _ => false,
        }
    }
}

/// A task of the picker.
pub struct TaskItem {
    pub id: String,
    pub title: String,
    pub summary: String,
    pub details: Vec<String>,
    pub prompt: String,
    pub source: TaskSource,
    pub state: TaskState,
    pub branch: Option<String>,
    pub ci_status: Option<String>,
    pub plane_issue_id: Option<String>,
    pub kind: TaskKind,
}

impl TaskItem {
    pub fn is_real_issue(&self) -> (b: bool)
        ensures
            b == (self.kind == TaskKind::RealIssue),
    {
        match self.kind {
            TaskKind::RealIssue => true,
        }
    }
}

/// An issue as Plane lists it.
pub struct PlaneIssue {
    pub id: String,
    pub sequence_id: u64,
    pub name: String,
    pub description_html: Option<String>,
    pub state: Option<String>,
    pub priority: Option<String>,
}

/// The Plane project a directory is configured for.
pub struct ProjectConfig {
    pub workspace: String,
    pub project_slug: String,
    pub name: Option<String>,
}

/// `s` with its HTML tags removed, a space where each tag closed.
pub open spec fn strip_tags(s: Seq<char>) -> Seq<char> {
    strip_tags_from(s, false)
}

/// `s` with its tags removed, starting inside a tag when `in_tag`.
pub open spec fn strip_tags_from(s: Seq<char>, in_tag: bool) -> Seq<char>
    decreases s.len(),
{
    if s.len() == 0 {
        seq![]
    } else if s[0] == '<' {
        strip_tags_from(s.drop_first(), true)
    } else if s[0] == '>' {
        seq![' '] + strip_tags_from(s.drop_first(), false)
    } else if !in_tag {
        seq![s[0]] + strip_tags_from(s.drop_first(), false)
    } else {
        strip_tags_from(s.drop_first(), true)
    }
}

/// `input` with its HTML tags removed.
pub fn strip_html_tags(input: &str) -> (r: String)
    ensures
        r@ == strip_tags(input@),
{
    let v = text::chars_of(input);
    let mut out: Vec<char> = Vec::new();
    let mut in_tag = false;
    let mut i: usize = 0;
    assert(v@.skip(0) =~= v@);
    while i < v.len()
        invariant
            i <= v@.len(),
            out@ + strip_tags_from(v@.skip(i as int), in_tag) == strip_tags(v@),
        decreases v.len() - i,
    {
        let ch = v[i];
        assert(v@.skip(i as int).drop_first() =~= v@.skip(i + 1));
        assert(v@.skip(i as int)[0] == ch);
        let ghost before = out@;
        if ch == '<' {
            in_tag = true;
        } else if ch == '>' {
            in_tag = false;
            out.push(' ');
        } else if !in_tag {
            out.push(ch);
        }
        assert(out@ + strip_tags_from(v@.skip(i + 1), in_tag) =~= strip_tags(v@));
        i = i + 1;
    }
    assert(v@.skip(i as int) =~= seq![]);
    assert(out@ =~= strip_tags(v@));
    text::string_of(out.as_slice())
}

/// A one-line summary of an issue description: its text without tags,
/// words joined by single spaces, cut to `SUMMARY_MAX_CHARS` characters;
/// `None` when no word is left.
pub open spec fn issue_summary(description_html: Option<Seq<char>>) -> Option<Seq<char>> {
    match description_html {
        None => None,
        Some(h) => {
            let compact = text::join(text::words(strip_tags(h)), seq![' ']);
            if text::trim(compact).len() == 0 {
                None
            } else {
                Some(text::truncated_chars(text::trim(compact), 180))
            }
        },
    }
}

/// The summary of an issue description.
pub fn summarize_issue_description(description_html: Option<&str>) -> (r: Option<String>)
    ensures
        crate::paths::opt_string_view(r) == issue_summary(
            match description_html {
                Some(h) => Some(h@),
                None => None,
            },
        ),
{
    match description_html {
        None => None,
        Some(h) => {
            let stripped = strip_html_tags(h);
            let compact = text::compact_whitespace(stripped.as_str());
            let trimmed = text::trim_string(compact.as_str());
            if trimmed.as_str().is_empty() {
                None
            } else {
                Some(text::truncate_chars(trimmed.as_str(), SUMMARY_MAX_CHARS))
            }
        },
    }
}

/// The state a Plane state name maps to (matched case-insensitively):
/// blocked, in progress (or active), done (or complete), else ready.
pub open spec fn plane_task_state(state: Option<Seq<char>>) -> TaskState {
    match state {
        None => TaskState::Ready,
        Some(s) => {
            let n = text::ascii_lower(s);
            if text::contains_seq(n, "block"@) {
                TaskState::Blocked
            } else if text::contains_seq(n, "progress"@) || text::contains_seq(n, "active"@) {
                TaskState::InProgress
            } else if text::contains_seq(n, "done"@) || text::contains_seq(n, "complete"@) {
                TaskState::Done
            } else {
                TaskState::Ready
            }
        },
    }
}

/// The task state of a Plane state name.
pub fn task_state_from_plane_state(state: Option<&str>) -> (r: TaskState)
    ensures
        r == plane_task_state(
            match state {
                Some(s) => Some(s@),
                None => None,
            },
        ),
{
    match state {
        None => TaskState::Ready,
        Some(s) => {
            let n = text::ascii_lower_string(s);
            if text::str_contains(n.as_str(), "block") {
                TaskState::Blocked
            } else if text::str_contains(n.as_str(), "progress") || text::str_contains(n.as_str(), "active") {
                TaskState::InProgress
            } else if text::str_contains(n.as_str(), "done") || text::str_contains(n.as_str(), "complete") {
                TaskState::Done
            } else {
                TaskState::Ready
            }
        },
    }
}

/// How a task is named in a list: its title, and its Plane issue in brackets.
pub open spec fn task_ref(t: TaskItem) -> Seq<char> {
    match t.plane_issue_id {
        Some(issue) => t.title@ + " ("@ + issue@ + ")"@,
        None => t.title@,
    }
}

/// The tasks named in a comma-separated list.
pub open spec fn task_list(tasks: Seq<TaskItem>) -> Seq<char> {
    text::join(tasks.map_values(|t: TaskItem| task_ref(t)), ", "@)
}

/// The tasks named in a comma-separated list.
pub fn format_task_list(tasks: &Vec<&TaskItem>) -> (r: String)
    ensures
        r@ == task_list(tasks@.map_values(|t: &TaskItem| *t)),
{
    let ghost all = tasks@.map_values(|t: &TaskItem| *t);
    let ghost refs = all.map_values(|t: TaskItem| task_ref(t));
    let mut names: Vec<String> = Vec::new();
    let mut i: usize = 0;
    while i < tasks.len()
        invariant
            i <= tasks@.len(),
            all == tasks@.map_values(|t: &TaskItem| *t),
            refs == all.map_values(|t: TaskItem| task_ref(t)),
            names@.len() == i,
            forall|j: int| 0 <= j < i ==> #[trigger] names@[j]@ == refs[j],
        decreases tasks.len() - i,
    {
        let t = tasks[i];
        let mut v = text::chars_of(t.title.as_str());
        match &t.plane_issue_id {
            Some(issue) => {
                text::push_chars(&mut v, " (");
                text::push_chars(&mut v, issue.as_str());
                text::push_chars(&mut v, ")");
            },
            None => {},
        }
        let n = text::string_of(v.as_slice());
        names.push(n);
        proof {
            assert(all[i as int] == *t);
            assert(n@ =~= task_ref(*t));
        }
        i = i + 1;
    }
    assert(text::strings_view(names@) =~= refs);
    text::join_strings(names.as_slice(), ", ")
}

/// A prompt about the listed tasks: `lead`, the list, then `tail`.
pub open spec fn tasks_prompt(lead: Seq<char>, tasks: Seq<TaskItem>, tail: Seq<char>) -> Seq<char> {
    lead + task_list(tasks) + tail
}

fn prompt_about(lead: &str, tasks: &Vec<&TaskItem>, tail: &str) -> (r: String)
    ensures
        r@ == tasks_prompt(lead@, tasks@.map_values(|t: &TaskItem| *t), tail@),
{
    let mut v = text::chars_of(lead);
    let list = format_task_list(tasks);
    text::push_chars(&mut v, list.as_str());
    text::push_chars(&mut v, tail);
    text::string_of(v.as_slice())
}

pub fn check_status_prompt(tasks: &Vec<&TaskItem>) -> (r: String)
    ensures
        r@ == tasks_prompt(
            "Check the current status of these tasks: "@,
            tasks@.map_values(|t: &TaskItem| *t),
            ". Summarize progress, blockers, CI/CD state, and what changed most recently."@,
        ),
{
    prompt_about(
        "Check the current status of these tasks: ",
        tasks,
        ". Summarize progress, blockers, CI/CD state, and what changed most recently.",
    )
}

pub fn run_tests_prompt(tasks: &Vec<&TaskItem>) -> (r: String)
    ensures
        r@ == tasks_prompt(
            "Work from these tasks: "@,
            tasks@.map_values(|t: &TaskItem| *t),
            ". Figure out the most relevant tests or validation steps, run or plan them, and summarize failures or missing coverage before any deeper implementation."@,
        ),
{
    prompt_about(
        "Work from these tasks: ",
        tasks,
        ". Figure out the most relevant tests or validation steps, run or plan them, and summarize failures or missing coverage before any deeper implementation.",
    )
}

pub fn plan_and_implement_prompt(tasks: &Vec<&TaskItem>) -> (r: String)
    ensures
        r@ == tasks_prompt(
            "Plan and implement the work for these tasks: "@,
            tasks@.map_values(|t: &TaskItem| *t),
            ". Start with the highest-leverage slice, keep the tasks explicitly mapped to the work, and report what is done vs still open."@,
        ),
{
    prompt_about(
        "Plan and implement the work for these tasks: ",
        tasks,
        ". Start with the highest-leverage slice, keep the tasks explicitly mapped to the work, and report what is done vs still open.",
    )
}

pub fn continue_implementation_prompt(tasks: &Vec<&TaskItem>) -> (r: String)
    ensures
        r@ == tasks_prompt(
            "Continue implementation for these active tasks: "@,
            tasks@.map_values(|t: &TaskItem| *t),
            ". Pick up from the current state, preserve existing progress, and focus on unblocking the next deliverable step."@,
        ),
{
    prompt_about(
        "Continue implementation for these active tasks: ",
        tasks,
        ". Pick up from the current state, preserve existing progress, and focus on unblocking the next deliverable step.",
    )
}

pub fn configure_task_prompt(tasks: &Vec<&TaskItem>) -> (r: String)
    ensures
        r@ == tasks_prompt(
            "Configure the execution strategy for these tasks: "@,
            tasks@.map_values(|t: &TaskItem| *t),
            ". Decide the best order, relevant tools, dependencies, and any constraints or approvals that should be attached to each task."@,
        ),
{
    prompt_about(
        "Configure the execution strategy for these tasks: ",
        tasks,
        ". Decide the best order, relevant tools, dependencies, and any constraints or approvals that should be attached to each task.",
    )
}

pub fn verify_implementation_prompt(tasks: &Vec<&TaskItem>) -> (r: String)
    ensures
        r@ == tasks_prompt(
            "Verify implementation quality for these done tasks: "@,
            tasks@.map_values(|t: &TaskItem| *t),
            ". Check the code against the intended outcome, identify regressions or missing tests, and confirm whether each task is actually complete."@,
        ),
{
    prompt_about(
        "Verify implementation quality for these done tasks: ",
        tasks,
        ". Check the code against the intended outcome, identify regressions or missing tests, and confirm whether each task is actually complete.",
    )
}

/// The notes of the task an issue becomes: its priority when set, its
/// workspace and its project.
pub open spec fn issue_details(config: ProjectConfig, issue: PlaneIssue) -> Seq<Seq<char>> {
    let priority = match issue.priority {
        Some(p) => if p@.len() > 0 {
            seq!["Priority: "@ + p@]
        } else {
            seq![]
        },
        None => seq![],
    };
    priority + seq!["Workspace: "@ + config.workspace@, "Project: "@ + config.project_slug@]
}

/// The task a Plane issue becomes.
pub fn issue_to_task_item(config: &ProjectConfig, issue: &PlaneIssue, branch: Option<String>) -> (t: TaskItem)
    ensures
        ({
            let issue_ref = config.project_slug@ + "-"@ + text::decimal(issue.sequence_id as nat);
            &&& t.id@ == "issue:"@ + issue.id@
            &&& t.title@ == issue.name@
            &&& t.summary@ == match issue_summary(crate::paths::opt_string_view(issue.description_html)) {
                Some(s) => s,
                None => "Plane issue "@ + issue_ref,
            }
            &&& t.prompt@ == "Plan and implement Plane issue "@ + issue_ref + " ("@ + issue.name@
                + "). Keep the work aligned with the issue intent, call out blockers, and summarize done vs open items."@
            &&& t.state == plane_task_state(crate::paths::opt_string_view(issue.state))
            &&& t.source == TaskSource::Plane
            &&& t.kind == TaskKind::RealIssue
            &&& t.branch == branch
            &&& t.ci_status is None
            &&& t.plane_issue_id matches Some(r) && r@ == issue_ref
            &&& text::strings_view(t.details@) == issue_details(*config, *issue)
        }),
{
    let mut r = text::chars_of(config.project_slug.as_str());
    text::push_chars(&mut r, "-");
    text::push_decimal_wide(&mut r, issue.sequence_id as u128);
    let issue_ref = text::string_of(r.as_slice());
    let summary = match summarize_issue_description(
        match &issue.description_html {
            Some(h) => Some(h.as_str()),
            None => None,
        },
    ) {
        Some(s) => s,
        None => {
            let mut v = text::chars_of("Plane issue ");
            text::push_chars(&mut v, issue_ref.as_str());
            text::string_of(v.as_slice())
        },
    };
    let state = task_state_from_plane_state(
        match &issue.state {
            Some(s) => Some(s.as_str()),
            None => None,
        },
    );
    let mut details: Vec<String> = Vec::new();
    match &issue.priority {
        Some(p) => {
            if !p.as_str().is_empty() {
                let mut v = text::chars_of("Priority: ");
                text::push_chars(&mut v, p.as_str());
                details.push(text::string_of(v.as_slice()));
            }
        },
        None => {},
    }
    let mut w = text::chars_of("Workspace: ");
    text::push_chars(&mut w, config.workspace.as_str());
    details.push(text::string_of(w.as_slice()));
    let mut pj = text::chars_of("Project: ");
    text::push_chars(&mut pj, config.project_slug.as_str());
    details.push(text::string_of(pj.as_slice()));
    let mut id = text::chars_of("issue:");
    text::push_chars(&mut id, issue.id.as_str());
    let mut prompt = text::chars_of("Plan and implement Plane issue ");
    text::push_chars(&mut prompt, issue_ref.as_str());
    text::push_chars(&mut prompt, " (");
    text::push_chars(&mut prompt, issue.name.as_str());
    text::push_chars(
        &mut prompt,
        "). Keep the work aligned with the issue intent, call out blockers, and summarize done vs open items.",
    );
    let t = TaskItem {
        id: text::string_of(id.as_slice()),
        title: issue.name.clone(),
        summary,
        details,
        prompt: text::string_of(prompt.as_slice()),
        source: TaskSource::Plane,
        state,
        branch,
        ci_status: None,
        plane_issue_id: Some(issue_ref),
        kind: TaskKind::RealIssue,
    };
    assert(text::strings_view(t.details@) =~= issue_details(*config, *issue));
    t
}

/// An action of the task action menu: its name, description, and the
/// prompt it stages.
pub struct ActionItem {
    pub name: String,
    pub description: Option<String>,
    pub prompt: String,
}

/// The task action menu.
pub struct ActionMenu {
    pub title: String,
    pub subtitle: String,
    pub items: Vec<ActionItem>,
}

/// `id` is one of `ids`.
pub open spec fn has_id(ids: Seq<String>, id: Seq<char>) -> bool {
    exists|i: int| 0 <= i < ids.len() && (#[trigger] ids[i])@ == id
}

/// The real issues of `cache` whose ids are listed, in cache order.
pub open spec fn menu_tasks(cache: Seq<TaskItem>, ids: Seq<String>) -> Seq<TaskItem> {
    cache.filter(|t: TaskItem| t.kind == TaskKind::RealIssue && has_id(ids, t.id@))
}

/// The done tasks among `tasks`.
pub open spec fn done_tasks(tasks: Seq<TaskItem>) -> Seq<TaskItem> {
    tasks.filter(|t: TaskItem| t.state == TaskState::Done)
}

/// Some task of `tasks` is in progress or blocked.
pub open spec fn any_continues(tasks: Seq<TaskItem>) -> bool {
    exists|i: int| 0 <= i < tasks.len() && (#[trigger] tasks[i]).state.is_continuable()
}

impl TaskState {
    pub open spec fn is_continuable(self) -> bool {
        self == TaskState::InProgress || self == TaskState::Blocked
    }
}

/// The actions offered for `tasks`, as (name, description, prompt).
pub open spec fn menu_items(tasks: Seq<TaskItem>) -> Seq<(Seq<char>, Option<Seq<char>>, Seq<char>)> {
    let head = seq![
        ("Check status"@, Some("Stage a status pass for the selected tasks."@), tasks_prompt(
            "Check the current status of these tasks: "@,
            tasks,
            ". Summarize progress, blockers, CI/CD state, and what changed most recently."@,
        )),
        ("Run tests"@, Some("Stage a test run scoped to the selected tasks."@), tasks_prompt(
            "Work from these tasks: "@,
            tasks,
            ". Figure out the most relevant tests or validation steps, run or plan them, and summarize failures or missing coverage before any deeper implementation."@,
        )),
        ("Plan and implement"@, Some("Stage a plan/execution prompt for the selected tasks."@), tasks_prompt(
            "Plan and implement the work for these tasks: "@,
            tasks,
            ". Start with the highest-leverage slice, keep the tasks explicitly mapped to the work, and report what is done vs still open."@,
        )),
    ];
    let cont = if any_continues(tasks) {
        seq![
            ("Continue implementation"@, Some("Stage a continuation prompt for the active tasks."@), tasks_prompt(
                "Continue implementation for these active tasks: "@,
                tasks,
                ". Pick up from the current state, preserve existing progress, and focus on unblocking the next deliverable step."@,
            )),
        ]
    } else {
        seq![]
    };
    let configure = seq![
        ("Configure task"@, Some("Stage a task-configuration prompt for the selected scope."@), tasks_prompt(
            "Configure the execution strategy for these tasks: "@,
            tasks,
            ". Decide the best order, relevant tools, dependencies, and any constraints or approvals that should be attached to each task."@,
        )),
    ];
    let done = done_tasks(tasks);
    let verify = if done.len() > 0 {
        seq![
            ("Verify implementation"@, Some(
                if done.len() == tasks.len() {
                    "Stage verification for the selected completed tasks."@
                } else {
                    "Stage verification for "@ + text::decimal(done.len()) + " done task(s); incomplete tasks will be skipped."@
                },
            ), tasks_prompt(
                "Verify implementation quality for these done tasks: "@,
                done,
                ". Check the code against the intended outcome, identify regressions or missing tests, and confirm whether each task is actually complete."@,
            )),
        ]
    } else {
        seq![]
    };
    head + cont + configure + verify
}

pub open spec fn item_view(i: ActionItem) -> (Seq<char>, Option<Seq<char>>, Seq<char>) {
    (i.name@, crate::paths::opt_string_view(i.description), i.prompt@)
}

fn ids_contain(ids: &Vec<String>, id: &str) -> (b: bool)
    ensures
        b == has_id(ids@, id@),
{
    let mut i: usize = 0;
    while i < ids.len()
        invariant
            i <= ids@.len(),
            forall|j: int| 0 <= j < i ==> (#[trigger] ids@[j])@ != id@,
        decreases ids.len() - i,
    {
        if text::str_equal(ids[i].as_str(), id) {
            return true;
        }
        i = i + 1;
    }
    false
}

fn action_item(name: &str, description: &str, prompt: String) -> (r: ActionItem)
    ensures
        item_view(r) == (name@, Some(description@), prompt@),
{
    ActionItem { name: String::from_str(name), description: Some(String::from_str(description)), prompt }
}

/// The action menu for the listed tasks; `None` when none of them is a
/// real issue of the cache.
pub fn task_action_menu_params(task_cache: &Vec<TaskItem>, task_ids: &Vec<String>) -> (r: Option<ActionMenu>)
    ensures
        ({
            let tasks = menu_tasks(task_cache@, task_ids@);
            match r {
                None => tasks.len() == 0,
                Some(m) => {
                    &&& tasks.len() > 0
                    &&& m.title@ == if tasks.len() == 1 {
                        "Actions for "@ + tasks[0].title@
                    } else {
                        "Actions for "@ + text::decimal(tasks.len()) + " selected tasks"@
                    }
                    &&& m.subtitle@ == "Choose the next staged action"@
                    &&& m.items@.map_values(|i: ActionItem| item_view(i)) == menu_items(tasks)
                },
            }
        }),
{
    let ghost pred = |t: TaskItem| t.kind == TaskKind::RealIssue && has_id(task_ids@, t.id@);
    let ghost dpred = |t: TaskItem| t.state == TaskState::Done;
    let mut tasks: Vec<&TaskItem> = Vec::new();
    let mut done: Vec<&TaskItem> = Vec::new();
    let mut has_continue = false;
    let mut i: usize = 0;
    assert(task_cache@.take(0).filter(pred) =~= seq![]);
    while i < task_cache.len()
        invariant
            i <= task_cache@.len(),
            pred == (|t: TaskItem| t.kind == TaskKind::RealIssue && has_id(task_ids@, t.id@)),
            dpred == (|t: TaskItem| t.state == TaskState::Done),
            tasks@.map_values(|t: &TaskItem| *t) == task_cache@.take(i as int).filter(pred),
            done@.map_values(|t: &TaskItem| *t) == task_cache@.take(i as int).filter(pred).filter(dpred),
            has_continue == any_continues(task_cache@.take(i as int).filter(pred)),
        decreases task_cache.len() - i,
    {
        let t = &task_cache[i];
        let ghost tb = tasks@;
        let ghost db = done@;
        proof {
            let tk = task_cache@.take(i + 1);
            assert(tk.drop_last() =~= task_cache@.take(i as int));
            assert(tk.last() == *t);
            reveal_with_fuel(Seq::filter, 1);
        }
        if t.is_real_issue() && ids_contain(task_ids, t.id.as_str()) {
            tasks.push(t);
            if t.state.can_continue() {
                has_continue = true;
            }
            if t.state.is_done() {
                done.push(t);
            }
            proof {
                assert(tasks@.map_values(|t: &TaskItem| *t) =~= tb.map_values(|t: &TaskItem| *t).push(*t));
                reveal_with_fuel(Seq::filter, 1);
                let f = task_cache@.take(i + 1).filter(pred);
                assert(f == task_cache@.take(i as int).filter(pred).push(*t));
                assert(f.drop_last() =~= task_cache@.take(i as int).filter(pred));
                assert(f[f.len() - 1] == *t);
                if t.state == TaskState::Done {
                    assert(done@.map_values(|t: &TaskItem| *t) =~= db.map_values(|t: &TaskItem| *t).push(*t));
                } else {
                    assert(done@.map_values(|t: &TaskItem| *t) =~= db.map_values(|t: &TaskItem| *t));
                }
                let fb = task_cache@.take(i as int).filter(pred);
                if any_continues(fb) {
                    let j = choose|j: int| 0 <= j < fb.len() && (#[trigger] fb[j]).state.is_continuable();
                    assert(f[j] == fb[j]);
                }
                if any_continues(f) {
                    let j = choose|j: int| 0 <= j < f.len() && (#[trigger] f[j]).state.is_continuable();
                    if j < fb.len() {
                        assert(f[j] == fb[j]);
                    }
                }
            }
        } else {
            proof {
                reveal_with_fuel(Seq::filter, 1);
                assert(task_cache@.take(i + 1).filter(pred) == task_cache@.take(i as int).filter(pred));
            }
        }
        i = i + 1;
    }
    assert(task_cache@.take(task_cache@.len() as int) =~= task_cache@);
    if tasks.len() == 0 {
        return None;
    }
    let ghost tv = tasks@.map_values(|t: &TaskItem| *t);
    assert(tv[0] == *tasks@[0]);
    let title = if tasks.len() == 1 {
        let mut v = text::chars_of("Actions for ");
        text::push_chars(&mut v, tasks[0].title.as_str());
        text::string_of(v.as_slice())
    } else {
        let mut v = text::chars_of("Actions for ");
        text::push_decimal(&mut v, tasks.len());
        text::push_chars(&mut v, " selected tasks");
        text::string_of(v.as_slice())
    };
    let mut items: Vec<ActionItem> = Vec::new();
    items.push(action_item("Check status", "Stage a status pass for the selected tasks.", check_status_prompt(&tasks)));
    items.push(action_item("Run tests", "Stage a test run scoped to the selected tasks.", run_tests_prompt(&tasks)));
    items.push(
        action_item(
            "Plan and implement",
            "Stage a plan/execution prompt for the selected tasks.",
            plan_and_implement_prompt(&tasks),
        ),
    );
    if has_continue {
        items.push(
            action_item(
                "Continue implementation",
                "Stage a continuation prompt for the active tasks.",
                continue_implementation_prompt(&tasks),
            ),
        );
    }
    items.push(
        action_item(
            "Configure task",
            "Stage a task-configuration prompt for the selected scope.",
            configure_task_prompt(&tasks),
        ),
    );
    if done.len() > 0 {
        let description = if done.len() == tasks.len() {
            String::from_str("Stage verification for the selected completed tasks.")
        } else {
            let mut v = text::chars_of("Stage verification for ");
            text::push_decimal(&mut v, done.len());
            text::push_chars(&mut v, " done task(s); incomplete tasks will be skipped.");
            text::string_of(v.as_slice())
        };
        items.push(
            ActionItem {
                name: String::from_str("Verify implementation"),
                description: Some(description),
                prompt: verify_implementation_prompt(&done),
            },
        );
    }
    assert(items@.map_values(|i: ActionItem| item_view(i)) =~= menu_items(tv));
    Some(ActionMenu { title, subtitle: String::from_str("Choose the next staged action"), items })
}

/// A Plane project offered in the picker.
pub struct ProjectPickerItem {
    pub workspace: String,
    pub project_slug: String,
    pub name: String,
    pub description: Option<String>,
}

/// A row of the picker: a project to browse, or a task.
pub enum TaskPickerEntry {
    Project(ProjectPickerItem),
    Task(TaskItem),
}

impl TaskPickerEntry {
    /// The entry's title: the project's name or the task's title.
    pub fn title(&self) -> (r: &str)
        ensures
            r@ == match *self {
                TaskPickerEntry::Project(p) => p.name@,
                TaskPickerEntry::Task(t) => t.title@,
            },
    {
        match self {
            TaskPickerEntry::Project(p) => p.name.as_str(),
            TaskPickerEntry::Task(t) => t.title.as_str(),
        }
    }

    /// The entry's summary: the project's description (empty where it has
    /// none) or the task's summary.
    pub fn summary(&self) -> (r: &str)
        ensures
            r@ == match *self {
                TaskPickerEntry::Project(p) => match p.description {
                    Some(d) => d@,
                    None => Seq::empty(),
                },
                TaskPickerEntry::Task(t) => t.summary@,
            },
    {
        proof {
            reveal_strlit("");
        }
        match self {
            TaskPickerEntry::Project(p) => match &p.description {
                Some(d) => d.as_str(),
                None => "",
            },
            TaskPickerEntry::Task(t) => t.summary.as_str(),
        }
    }

    /// Where the entry comes from.
    pub fn source_label(&self) -> (r: &'static str)
        ensures
            r@ == match *self {
                TaskPickerEntry::Project(_) => "Plane Project"@,
                TaskPickerEntry::Task(_) => "Plane"@,
            },
    {
        match self {
            TaskPickerEntry::Project(_) => "Plane Project",
            TaskPickerEntry::Task(t) => t.source.label(),
        }
    }

    /// The project's slug, for a project entry.
    pub fn project_slug(&self) -> (r: Option<&str>)
        ensures
            match *self {
                TaskPickerEntry::Project(p) => r matches Some(s) && s@ == p.project_slug@,
                TaskPickerEntry::Task(_) => r is None,
            },
    {
        match self {
            TaskPickerEntry::Project(p) => Some(p.project_slug.as_str()),
            TaskPickerEntry::Task(_) => None,
        }
    }

    /// The task, for a task entry.
    pub fn task(&self) -> (r: Option<&TaskItem>)
        ensures
            match *self {
                TaskPickerEntry::Project(_) => r is None,
                TaskPickerEntry::Task(t) => r matches Some(x) && *x == t,
            },
    {
        match self {
            TaskPickerEntry::Project(_) => None,
            TaskPickerEntry::Task(t) => Some(t),
        }
    }

    /// The project, for a project entry.
    pub fn project(&self) -> (r: Option<&ProjectPickerItem>)
        ensures
            match *self {
                TaskPickerEntry::Project(p) => r matches Some(x) && *x == p,
                TaskPickerEntry::Task(_) => r is None,
            },
    {
        match self {
            TaskPickerEntry::Project(p) => Some(p),
            TaskPickerEntry::Task(_) => None,
        }
    }
}

/// The texts a filter is matched against: title, summary, source, and the
/// project slug or Plane issue when there is one.
pub open spec fn entry_texts(e: TaskPickerEntry) -> Seq<Seq<char>> {
    match e {
        TaskPickerEntry::Project(p) => seq![
            p.name@,
            match p.description {
                Some(d) => d@,
                None => seq![],
            },
            "Plane Project"@,
            p.project_slug@,
        ],
        TaskPickerEntry::Task(t) => seq![t.title@, t.summary@, "Plane"@] + match t.plane_issue_id {
            Some(i) => seq![i@],
            None => seq![],
        },
    }
}

/// The entry shows under `filter` (already trimmed and lowercased): the
/// filter is empty, or some text contains it, compared in ASCII lowercase.
pub open spec fn entry_matches(e: TaskPickerEntry, filter: Seq<char>) -> bool {
    filter.len() == 0 || exists|i: int|
        0 <= i < entry_texts(e).len() && text::contains_seq(text::ascii_lower(#[trigger] entry_texts(e)[i]), filter)
}

/// Indices of the first `k` entries that show under `filter`.
pub open spec fn matching_indices(entries: Seq<TaskPickerEntry>, filter: Seq<char>, k: int) -> Seq<usize>
    decreases k,
{
    if k <= 0 {
        seq![]
    } else {
        let rest = matching_indices(entries, filter, k - 1);
        if entry_matches(entries[k - 1], filter) {
            rest.push((k - 1) as usize)
        } else {
            rest
        }
    }
}

/// Whether the entry shows under `filter`.
pub fn entry_matches_filter(e: &TaskPickerEntry, filter: &str) -> (b: bool)
    ensures
        b == entry_matches(*e, filter@),
{
    if filter.unicode_len() == 0 {
        return true;
    }
    let mut texts: Vec<String> = Vec::new();
    match e {
        TaskPickerEntry::Project(p) => {
            texts.push(p.name.clone());
            texts.push(
                match &p.description {
                    Some(d) => d.clone(),
                    None => String::new(),
                },
            );
            texts.push(String::from_str("Plane Project"));
            texts.push(p.project_slug.clone());
        },
        TaskPickerEntry::Task(t) => {
            texts.push(t.title.clone());
            texts.push(t.summary.clone());
            texts.push(String::from_str("Plane"));
            match &t.plane_issue_id {
                Some(i) => texts.push(i.clone()),
                None => {},
            }
        },
    }
    assert(text::strings_view(texts@) =~= entry_texts(*e));
    let mut k: usize = 0;
    while k < texts.len()
        invariant
            k <= texts@.len(),
            text::strings_view(texts@) == entry_texts(*e),
            filter@.len() > 0,
            forall|j: int| 0 <= j < k ==> !text::contains_seq(text::ascii_lower(#[trigger] entry_texts(*e)[j]), filter@),
        decreases texts.len() - k,
    {
        let lower = text::ascii_lower_string(texts[k].as_str());
        assert(texts@[k as int]@ == entry_texts(*e)[k as int]);
        if text::str_contains(lower.as_str(), filter) {
            return true;
        }
        k = k + 1;
    }
    false
}

/// What the picker shows.
pub enum TaskPickerMode {
    Loading { message: String },
    ProjectList { workspace: String },
    TaskList { workspace: String, project_slug: String, project_name: String },
    Error { message: String },
}

/// A project of a Plane workspace.
pub struct TaskPickerProject {
    pub workspace: String,
    pub project_slug: String,
    pub name: String,
    pub description: Option<String>,
}

/// What loading the picker gave.
pub enum TaskPickerPayload {
    ProjectList { workspace: String, projects: Vec<TaskPickerProject> },
    TaskList { workspace: String, project_slug: String, project_name: String, tasks: Vec<TaskItem> },
    Error { message: String },
}

/// What the picker asks the application to do.
pub enum TaskPickerCommand {
    OpenTaskActionMenu { task_ids: Vec<String> },
    LoadTaskPickerProject { workspace: String, project_slug: String, project_name: String },
    SetComposerText { text: String },
}

/// A key the picker reacts to.
#[derive(Clone, Copy, PartialEq, Eq, Structural, Debug)]
pub enum PickerKey {
    Up,
    Down,
    Backspace,
    Enter,
    Esc,
    Char { ch: char, control: bool, alt: bool },
    Other,
}

/// Position of the first `a` in `s`.
pub open spec fn first_index(s: Seq<usize>, a: usize) -> Option<int>
    decreases s.len(),
{
    if s.len() == 0 {
        None
    } else if s[0] == a {
        Some(0)
    } else {
        match first_index(s.drop_first(), a) {
            Some(i) => Some(i + 1),
            None => None,
        }
    }
}

proof fn lemma_first_index(s: Seq<usize>, a: usize, j: int)
    requires
        0 <= j < s.len(),
        s[j] == a,
        forall|t: int| 0 <= t < j ==> s[t] != a,
    ensures
        first_index(s, a) == Some(j),
    decreases j,
{
    if j > 0 {
        let d = s.drop_first();
        assert forall|t: int| 0 <= t < j - 1 implies d[t] != a by {
            assert(d[t] == s[t + 1]);
        }
        lemma_first_index(d, a, j - 1);
    }
}

proof fn lemma_first_index_none(s: Seq<usize>, a: usize)
    ensures
        first_index(s, a) is None <==> !s.contains(a),
        first_index(s, a) matches Some(i) ==> 0 <= i < s.len(),
    decreases s.len(),
{
    if s.len() > 0 {
        lemma_first_index_none(s.drop_first(), a);
        if s.contains(a) && s[0] != a {
            let t = choose|t: int| 0 <= t < s.len() && s[t] == a;
            assert(s.drop_first()[t - 1] == a);
        }
        if s.drop_first().contains(a) {
            let t = choose|t: int| 0 <= t < s.drop_first().len() && s.drop_first()[t] == a;
            assert(s[t + 1] == a);
        }
    }
}

/// The task picker.
pub struct TaskPickerView {
    mode: TaskPickerMode,
    entries: Vec<TaskPickerEntry>,
    state: ScrollState,
    filtered_indices: Vec<usize>,
    search_query: String,
    selected_ids: Vec<String>,
    complete: bool,
}

/// No id is listed twice.
pub open spec fn distinct_ids(ids: Seq<String>) -> bool {
    forall|i: int, j: int| #![trigger ids[i], ids[j]] 0 <= i < j < ids.len() ==> ids[i]@ != ids[j]@
}

impl TaskPickerView {
    pub closed spec fn entries_view(self) -> Seq<TaskPickerEntry> {
        self.entries@
    }

    pub closed spec fn filtered(self) -> Seq<usize> {
        self.filtered_indices@
    }

    pub closed spec fn scroll(self) -> ScrollState {
        self.state
    }

    pub closed spec fn query(self) -> Seq<char> {
        self.search_query@
    }

    pub closed spec fn selected_ids_view(self) -> Seq<String> {
        self.selected_ids@
    }

    pub closed spec fn completed(self) -> bool {
        self.complete
    }

    /// What the picker shows: loading, projects, tasks, or an error.
    pub closed spec fn mode_spec(self) -> TaskPickerMode {
        self.mode
    }

    /// Shown rows point at entries, the selection at a shown row, the
    /// scroll offset within the rows, and no task is selected twice.
    pub open spec fn wf(self) -> bool {
        &&& forall|i: int| 0 <= i < self.filtered().len() ==> (#[trigger] self.filtered()[i]) < self.entries_view().len()
        &&& self.filtered().len() <= self.entries_view().len()
        &&& self.entries_view().len() + MAX_POPUP_ROWS <= usize::MAX
        &&& (self.scroll().selected_idx matches Some(s) ==> s < self.filtered().len())
        &&& self.scroll().scroll_top <= self.filtered().len()
        &&& distinct_ids(self.selected_ids_view())
    }

    /// A picker waiting for its data.
    pub fn loading(message: String) -> (v: Self)
        ensures
            v.wf(),
            v.entries_view().len() == 0,
            v.filtered().len() == 0,
            v.scroll().selected_idx is None,
            v.query().len() == 0,
            v.selected_ids_view().len() == 0,
            !v.completed(),
            v.mode_spec() == (TaskPickerMode::Loading { message: message }),
    {
        TaskPickerView {
            mode: TaskPickerMode::Loading { message },
            entries: Vec::new(),
            state: ScrollState::new(),
            filtered_indices: Vec::new(),
            search_query: String::new(),
            selected_ids: Vec::new(),
            complete: false,
        }
    }

    /// A picker over what loading gave: projects to browse, tasks, or an
    /// error; the first row selected.
    pub fn from_payload(payload: TaskPickerPayload) -> (v: Self)
        requires
            match payload {
                TaskPickerPayload::ProjectList { projects, .. } => projects@.len() + MAX_POPUP_ROWS <= usize::MAX,
                TaskPickerPayload::TaskList { tasks, .. } => tasks@.len() + MAX_POPUP_ROWS <= usize::MAX,
                TaskPickerPayload::Error { .. } => true,
            },
        ensures
            v.wf(),
            v.entries_view().len() == match payload {
                TaskPickerPayload::ProjectList { projects, .. } => projects@.len(),
                TaskPickerPayload::TaskList { tasks, .. } => tasks@.len(),
                TaskPickerPayload::Error { .. } => 0,
            },
            v.filtered() == Seq::new(v.entries_view().len(), |i: int| i as usize),
            v.scroll().selected_idx == if v.entries_view().len() > 0 {
                Some(0usize)
            } else {
                None
            },
            v.scroll().scroll_top == 0,
            v.query().len() == 0,
            v.selected_ids_view().len() == 0,
            !v.completed(),
    {
        let (mode, entries) = match payload {
            TaskPickerPayload::ProjectList { workspace, projects } => {
                let mut entries: Vec<TaskPickerEntry> = Vec::new();
                let mut projects = projects;
                let n = projects.len();
                let mut k: usize = 0;
                let ghost all = projects@;
                while k < n
                    invariant
                        k <= n == all.len(),
                        entries@.len() == k,
                        projects@ == all.skip(k as int),
                    decreases n - k,
                {
                    let p = projects.remove(0);
                    assert(projects@ =~= all.skip(k + 1));
                    entries.push(
                        TaskPickerEntry::Project(
                            ProjectPickerItem {
                                workspace: p.workspace,
                                project_slug: p.project_slug,
                                name: p.name,
                                description: p.description,
                            },
                        ),
                    );
                    k = k + 1;
                }
                (TaskPickerMode::ProjectList { workspace }, entries)
            },
            TaskPickerPayload::TaskList { workspace, project_slug, project_name, tasks } => {
                let mut entries: Vec<TaskPickerEntry> = Vec::new();
                let mut tasks = tasks;
                let n = tasks.len();
                let mut k: usize = 0;
                let ghost all = tasks@;
                while k < n
                    invariant
                        k <= n == all.len(),
                        entries@.len() == k,
                        tasks@ == all.skip(k as int),
                    decreases n - k,
                {
                    let t = tasks.remove(0);
                    assert(tasks@ =~= all.skip(k + 1));
                    entries.push(TaskPickerEntry::Task(t));
                    k = k + 1;
                }
                (TaskPickerMode::TaskList { workspace, project_slug, project_name }, entries)
            },
            TaskPickerPayload::Error { message } => (TaskPickerMode::Error { message }, Vec::new()),
        };
        let mut state = ScrollState::new();
        if entries.len() > 0 {
            state.selected_idx = Some(0);
        }
        let mut filtered: Vec<usize> = Vec::new();
        let mut i: usize = 0;
        while i < entries.len()
            invariant
                i <= entries@.len(),
                filtered@ == Seq::new(i as nat, |j: int| j as usize),
            decreases entries.len() - i,
        {
            filtered.push(i);
            i = i + 1;
            assert(filtered@ =~= Seq::new(i as nat, |j: int| j as usize));
        }
        TaskPickerView {
            mode,
            entries,
            state,
            filtered_indices: filtered,
            search_query: String::new(),
            selected_ids: Vec::new(),
            complete: false,
        }
    }

    /// Number of rows shown.
    pub fn visible_len(&self) -> (n: usize)
        ensures
            n == self.filtered().len(),
    {
        self.filtered_indices.len()
    }

    /// Height of the list window.
    pub fn visible_rows(&self) -> (n: usize)
        ensures
            n == vstd::math::min(MAX_POPUP_ROWS as int, vstd::math::max(self.filtered().len() as int, 1)),
    {
        let len = self.filtered_indices.len();
        let m = if len > 1 {
            len
        } else {
            1
        };
        if m < MAX_POPUP_ROWS {
            m
        } else {
            MAX_POPUP_ROWS
        }
    }

    /// Recomputes the shown rows for the query, keeping the selected entry
    /// selected when it still shows (else the first row), and scrolls it
    /// into view.
    pub fn apply_filter(&mut self)
        requires
            old(self).wf(),
        ensures
            final(self).wf(),
            final(self).filtered() == matching_indices(
                old(self).entries_view(),
                text::ascii_lower(text::trim(old(self).query())),
                old(self).entries_view().len() as int,
            ),
            final(self).entries_view() == old(self).entries_view(),
            final(self).query() == old(self).query(),
            final(self).selected_ids_view() == old(self).selected_ids_view(),
            final(self).completed() == old(self).completed(),
            ({
                let nf = final(self).filtered();
                let actual = match old(self).scroll().selected_idx {
                    Some(i) => Some(old(self).filtered()[i as int]),
                    None => None,
                };
                let pos = match actual {
                    Some(a) => if nf.contains(a) {
                        Some(first_index(nf, a)->0 as usize)
                    } else if nf.len() > 0 {
                        Some(0usize)
                    } else {
                        None
                    },
                    None => if nf.len() > 0 {
                        Some(0usize)
                    } else {
                        None
                    },
                };
                let sel = crate::scroll_state::clamped_selection(pos, nf.len());
                &&& final(self).scroll().selected_idx == sel
                &&& final(self).scroll().scroll_top == crate::scroll_state::visible_top(
                    sel,
                    if nf.len() == 0 {
                        0
                    } else {
                        old(self).scroll().scroll_top
                    },
                    nf.len(),
                    vstd::math::min(MAX_POPUP_ROWS as int, vstd::math::max(nf.len() as int, 1)) as nat,
                )
            }),
    {
        let actual = match self.state.selected_idx {
            Some(i) => Some(self.filtered_indices[i]),
            None => None,
        };
        let trimmed = text::trim_string(self.search_query.as_str());
        let filter = text::ascii_lower_string(trimmed.as_str());
        let mut nf: Vec<usize> = Vec::new();
        let mut k: usize = 0;
        while k < self.entries.len()
            invariant
                k <= self.entries@.len(),
                nf@ == matching_indices(self.entries@, filter@, k as int),
                forall|j: int| 0 <= j < nf@.len() ==> (#[trigger] nf@[j]) < k,
                nf@.len() <= k,
            decreases self.entries.len() - k,
        {
            if entry_matches_filter(&self.entries[k], filter.as_str()) {
                nf.push(k);
            }
            k = k + 1;
        }
        let mut pos: Option<usize> = None;
        match actual {
            Some(a) => {
                let mut j: usize = 0;
                while j < nf.len() && pos.is_none()
                    invariant
                        j <= nf@.len(),
                        forall|t: int| 0 <= t < j && pos is None ==> nf@[t] != a,
                        pos matches Some(p) ==> first_index(nf@, a) == Some(p as int),
                        pos is None ==> forall|t: int| 0 <= t < j ==> nf@[t] != a,
                    decreases nf.len() - j + (if pos is None { 1int } else { 0int }),
                {
                    if nf[j] == a {
                        proof {
                            lemma_first_index(nf@, a, j as int);
                        }
                        pos = Some(j);
                    } else {
                        j = j + 1;
                    }
                }
                proof {
                    lemma_first_index_none(nf@, a);
                }
            },
            None => {},
        }
        if pos.is_none() && nf.len() > 0 {
            pos = Some(0);
        }
        let len = nf.len();
        self.filtered_indices = nf;
        self.state.selected_idx = pos;
        self.state.clamp_selection(len);
        let rows = self.visible_rows();
        self.state.ensure_visible(len, rows);
    }
}

/// Modifier keys held with a key.
#[derive(Clone, Copy, PartialEq, Eq, Structural, Debug)]
pub struct KeyMods {
    pub control: bool,
    pub alt: bool,
    pub shift: bool,
    pub other: bool,
}

impl KeyMods {
    pub open spec fn is_none(self) -> bool {
        !self.control && !self.alt && !self.shift && !self.other
    }

    pub open spec fn is_control_only(self) -> bool {
        self.control && !self.alt && !self.shift && !self.other
    }
}

/// The selected real issues, in entry order, among the first `k` entries.
pub open spec fn selected_tasks_upto(entries: Seq<TaskPickerEntry>, ids: Seq<String>, k: int) -> Seq<TaskItem>
    decreases k,
{
    if k <= 0 {
        seq![]
    } else {
        let rest = selected_tasks_upto(entries, ids, k - 1);
        match entries[k - 1] {
            TaskPickerEntry::Task(t) => if t.kind == TaskKind::RealIssue && has_id(ids, t.id@) {
                rest.push(t)
            } else {
                rest
            },
            TaskPickerEntry::Project(_) => rest,
        }
    }
}

impl TaskPickerView {
    /// The entry of the selected row.
    pub open spec fn focused(self) -> Option<TaskPickerEntry> {
        match self.scroll().selected_idx {
            Some(i) => Some(self.entries_view()[self.filtered()[i as int] as int]),
            None => None,
        }
    }

    /// The task of the selected row.
    pub open spec fn focused_task_spec(self) -> Option<TaskItem> {
        match self.focused() {
            Some(TaskPickerEntry::Task(t)) => Some(t),
            _ => None,
        }
    }

    /// The real issues selected for batch actions.
    pub open spec fn selected_tasks_spec(self) -> Seq<TaskItem> {
        selected_tasks_upto(self.entries_view(), self.selected_ids_view(), self.entries_view().len() as int)
    }

    /// The tasks actions apply to: the selected ones, or else the focused
    /// real issue.
    pub open spec fn active_tasks_spec(self) -> Seq<TaskItem> {
        if self.selected_tasks_spec().len() > 0 {
            self.selected_tasks_spec()
        } else {
            match self.focused_task_spec() {
                Some(t) => if t.kind == TaskKind::RealIssue {
                    seq![t]
                } else {
                    seq![]
                },
                None => seq![],
            }
        }
    }

    /// Index of the entry of the selected row.
    pub fn focused_entry(&self) -> (r: Option<usize>)
        requires
            self.wf(),
        ensures
            match r {
                Some(i) => i < self.entries_view().len() && self.focused() == Some(self.entries_view()[i as int]),
                None => self.focused() is None,
            },
    {
        match self.state.selected_idx {
            Some(i) => Some(self.filtered_indices[i]),
            None => None,
        }
    }

    /// The task of the selected row, where it is a task.
    pub fn focused_task(&self) -> (r: Option<&TaskItem>)
        requires
            self.wf(),
        ensures
            match r {
                Some(t) => self.focused_task_spec() == Some(*t),
                None => self.focused_task_spec() is None,
            },
    {
        match self.focused_entry() {
            Some(i) => self.entries[i].task(),
            None => None,
        }
    }

    /// The project of the selected row, where it is a project.
    pub fn focused_project(&self) -> (r: Option<&ProjectPickerItem>)
        requires
            self.wf(),
        ensures
            match r {
                Some(p) => self.focused() == Some(TaskPickerEntry::Project(*p)),
                None => !(self.focused() matches Some(TaskPickerEntry::Project(_))),
            },
    {
        match self.focused_entry() {
            Some(i) => self.entries[i].project(),
            None => None,
        }
    }

    /// The selected real issues, in entry order.
    pub fn selected_tasks(&self) -> (v: Vec<&TaskItem>)
        ensures
            v@.map_values(|t: &TaskItem| *t) == self.selected_tasks_spec(),
    {
        let mut v: Vec<&TaskItem> = Vec::new();
        let mut k: usize = 0;
        while k < self.entries.len()
            invariant
                k <= self.entries@.len(),
                v@.map_values(|t: &TaskItem| *t) == selected_tasks_upto(self.entries@, self.selected_ids@, k as int),
            decreases self.entries.len() - k,
        {
            let ghost before = v@;
            match &self.entries[k] {
                TaskPickerEntry::Task(t) => {
                    if t.is_real_issue() && ids_contain(&self.selected_ids, t.id.as_str()) {
                        v.push(t);
                        assert(v@.map_values(|t: &TaskItem| *t) =~= before.map_values(|t: &TaskItem| *t).push(*t));
                    }
                },
                TaskPickerEntry::Project(_) => {},
            }
            k = k + 1;
        }
        v
    }

    /// The tasks actions apply to.
    pub fn active_tasks(&self) -> (v: Vec<&TaskItem>)
        requires
            self.wf(),
        ensures
            v@.map_values(|t: &TaskItem| *t) == self.active_tasks_spec(),
    {
        let selected = self.selected_tasks();
        if selected.len() > 0 {
            return selected;
        }
        let mut v: Vec<&TaskItem> = Vec::new();
        match self.focused_entry() {
            Some(i) => match &self.entries[i] {
                TaskPickerEntry::Task(t) => {
                    if t.is_real_issue() {
                        v.push(t);
                    }
                },
                TaskPickerEntry::Project(_) => {},
            },
            None => {},
        }
        assert(v@.map_values(|t: &TaskItem| *t) =~= self.active_tasks_spec());
        v
    }

    /// Selects or deselects the focused real issue.
    pub fn toggle_selected(&mut self)
        requires
            old(self).wf(),
        ensures
            final(self).wf(),
            final(self).entries_view() == old(self).entries_view(),
            final(self).filtered() == old(self).filtered(),
            final(self).scroll() == old(self).scroll(),
            final(self).query() == old(self).query(),
            final(self).completed() == old(self).completed(),
            match old(self).focused_task_spec() {
                Some(t) => if t.kind == TaskKind::RealIssue {
                    if has_id(old(self).selected_ids_view(), t.id@) {
                        final(self).selected_ids_view() == ids_without(old(self).selected_ids_view(), t.id@)
                    } else {
                        text::strings_view(final(self).selected_ids_view()) == text::strings_view(
                            old(self).selected_ids_view(),
                        ).push(t.id@)
                    }
                } else {
                    final(self).selected_ids_view() == old(self).selected_ids_view()
                },
                None => final(self).selected_ids_view() == old(self).selected_ids_view(),
            },
    {
        let i = match self.focused_entry() {
            Some(i) => i,
            None => return,
        };
        let id = match &self.entries[i] {
            TaskPickerEntry::Task(t) => {
                if !t.is_real_issue() {
                    return;
                }
                t.id.clone()
            },
            TaskPickerEntry::Project(_) => return,
        };
        if ids_contain(&self.selected_ids, id.as_str()) {
            let ghost before = self.selected_ids@;
            let ghost pred = |s: String| s@ != id@;
            assert(ids_without(before, id@) == before.filter(pred));
            let mut kept: Vec<String> = Vec::new();
            let mut k: usize = 0;
            assert(before.take(0).filter(pred) =~= seq![]);
            while k < self.selected_ids.len()
                invariant
                    k <= before.len(),
                    self.selected_ids@ == before,
                    pred == (|s: String| s@ != id@),
                    kept@ == before.take(k as int).filter(pred),
                decreases self.selected_ids.len() - k,
            {
                if !text::str_equal(self.selected_ids[k].as_str(), id.as_str()) {
                    kept.push(self.selected_ids[k].clone());
                }
                proof {
                    let t = before.take(k + 1);
                    assert(t.drop_last() =~= before.take(k as int));
                    reveal_with_fuel(Seq::filter, 1);
                }
                k = k + 1;
            }
            assert(before.take(before.len() as int) =~= before);
            proof {
                lemma_filter_distinct(before, id@);
            }
            self.selected_ids = kept;
        } else {
            let ghost before = self.selected_ids@;
            self.selected_ids.push(id);
            proof {
                assert(text::strings_view(self.selected_ids@) =~= text::strings_view(before).push(id@));
                assert forall|a: int, b: int| #![trigger self.selected_ids@[a], self.selected_ids@[b]] 0 <= a < b < self.selected_ids@.len() implies self.selected_ids@[a]@ != self.selected_ids@[b]@ by {
                    if b == before.len() {
                        assert(self.selected_ids@[a] == before[a]);
                    } else {
                        assert(self.selected_ids@[a] == before[a] && self.selected_ids@[b] == before[b]);
                    }
                }
            }
        }
    }

    /// The command that opens the action menu for the active tasks, if any.
    pub fn open_context_menu(&self) -> (r: Option<TaskPickerCommand>)
        requires
            self.wf(),
        ensures
            match r {
                Some(TaskPickerCommand::OpenTaskActionMenu { task_ids }) => self.active_tasks_spec().len() > 0
                    && text::strings_view(task_ids@) == self.active_tasks_spec().map_values(|t: TaskItem| t.id@),
                Some(_) => false,
                None => self.active_tasks_spec().len() == 0,
            },
    {
        let active = self.active_tasks();
        let ghost av = active@.map_values(|t: &TaskItem| *t);
        let mut ids: Vec<String> = Vec::new();
        let mut k: usize = 0;
        while k < active.len()
            invariant
                k <= active@.len(),
                av == active@.map_values(|t: &TaskItem| *t),
                ids@.len() == k,
                forall|j: int| 0 <= j < k ==> #[trigger] ids@[j]@ == av[j].id@,
            decreases active.len() - k,
        {
            ids.push(active[k].id.clone());
            k = k + 1;
        }
        if ids.len() == 0 {
            return None;
        }
        assert(text::strings_view(ids@) =~= av.map_values(|t: TaskItem| t.id@));
        Some(TaskPickerCommand::OpenTaskActionMenu { task_ids: ids })
    }

    /// The command Enter stands for: browse the focused project, or stage
    /// the default prompt for the selected tasks (continue when one of them
    /// is under way, else plan) or for the focused task.
    pub fn submit_default(&self) -> (r: Option<TaskPickerCommand>)
        requires
            self.wf(),
        ensures
            match self.focused() {
                Some(TaskPickerEntry::Project(p)) => r matches Some(
                    TaskPickerCommand::LoadTaskPickerProject { workspace, project_slug, project_name },
                ) && workspace@ == p.workspace@ && project_slug@ == p.project_slug@ && project_name@ == p.name@,
                _ => {
                    let sel = self.selected_tasks_spec();
                    if sel.len() > 0 {
                        r matches Some(TaskPickerCommand::SetComposerText { text }) && text@ == if any_continues(sel) {
                            tasks_prompt(
                                "Continue implementation for these active tasks: "@,
                                sel,
                                ". Pick up from the current state, preserve existing progress, and focus on unblocking the next deliverable step."@,
                            )
                        } else {
                            tasks_prompt(
                                "Plan and implement the work for these tasks: "@,
                                sel,
                                ". Start with the highest-leverage slice, keep the tasks explicitly mapped to the work, and report what is done vs still open."@,
                            )
                        }
                    } else {
                        match self.focused_task_spec() {
                            None => r is None,
                            Some(t) => r matches Some(TaskPickerCommand::SetComposerText { text }) && text@ == if t.kind
                                == TaskKind::RealIssue {
                                if t.state.is_continuable() {
                                    tasks_prompt(
                                        "Continue implementation for these active tasks: "@,
                                        seq![t],
                                        ". Pick up from the current state, preserve existing progress, and focus on unblocking the next deliverable step."@,
                                    )
                                } else {
                                    tasks_prompt(
                                        "Plan and implement the work for these tasks: "@,
                                        seq![t],
                                        ". Start with the highest-leverage slice, keep the tasks explicitly mapped to the work, and report what is done vs still open."@,
                                    )
                                }
                            } else {
                                t.prompt@
                            },
                        }
                    }
                },
            },
    {
        let focused = self.focused_entry();
        match focused {
            Some(i) => match &self.entries[i] {
                TaskPickerEntry::Project(p) => {
                    return Some(
                        TaskPickerCommand::LoadTaskPickerProject {
                            workspace: p.workspace.clone(),
                            project_slug: p.project_slug.clone(),
                            project_name: p.name.clone(),
                        },
                    );
                },
                TaskPickerEntry::Task(_) => {},
            },
            None => {},
        }
        let selected = self.selected_tasks();
        if selected.len() > 0 {
            let ghost sv = selected@.map_values(|t: &TaskItem| *t);
            let mut cont = false;
            let mut k: usize = 0;
            while k < selected.len()
                invariant
                    k <= selected@.len(),
                    sv == selected@.map_values(|t: &TaskItem| *t),
                    cont == exists|j: int| 0 <= j < k && (#[trigger] sv[j]).state.is_continuable(),
                decreases selected.len() - k,
            {
                if selected[k].state.can_continue() {
                    cont = true;
                }
                assert(sv[k as int] == *selected@[k as int]);
                k = k + 1;
            }
            let text = if cont {
                continue_implementation_prompt(&selected)
            } else {
                plan_and_implement_prompt(&selected)
            };
            return Some(TaskPickerCommand::SetComposerText { text });
        }
        match focused {
            Some(i) => match &self.entries[i] {
                TaskPickerEntry::Task(t) => {
                    let text = if t.is_real_issue() {
                        let mut one: Vec<&TaskItem> = Vec::new();
                        one.push(t);
                        assert(one@.map_values(|t: &TaskItem| *t) =~= seq![*t]);
                        if t.state.can_continue() {
                            continue_implementation_prompt(&one)
                        } else {
                            plan_and_implement_prompt(&one)
                        }
                    } else {
                        t.prompt.clone()
                    };
                    Some(TaskPickerCommand::SetComposerText { text })
                },
                TaskPickerEntry::Project(_) => None,
            },
            None => None,
        }
    }

    /// Moves the selection up, wrapping, and scrolls it into view.
    pub fn move_up(&mut self)
        requires
            old(self).wf(),
        ensures
            final(self).wf(),
            final(self).entries_view() == old(self).entries_view(),
            final(self).filtered() == old(self).filtered(),
            final(self).query() == old(self).query(),
            final(self).selected_ids_view() == old(self).selected_ids_view(),
            final(self).completed() == old(self).completed(),
            ({
                let len = old(self).filtered().len();
                let sel = if len == 0 {
                    None
                } else {
                    Some(crate::scroll_state::wrapped_up(old(self).scroll().selected_idx, len))
                };
                &&& final(self).scroll().selected_idx == sel
                &&& final(self).scroll().scroll_top == crate::scroll_state::visible_top(
                    sel,
                    if len == 0 { 0 } else { old(self).scroll().scroll_top },
                    len,
                    vstd::math::min(MAX_POPUP_ROWS as int, vstd::math::max(len as int, 1)) as nat,
                )
            }),
    {
        let len = self.visible_len();
        self.state.move_up_wrap(len);
        let rows = self.visible_rows();
        self.state.ensure_visible(len, rows);
    }

    /// Moves the selection down, wrapping, and scrolls it into view.
    pub fn move_down(&mut self)
        requires
            old(self).wf(),
        ensures
            final(self).wf(),
            final(self).entries_view() == old(self).entries_view(),
            final(self).filtered() == old(self).filtered(),
            final(self).query() == old(self).query(),
            final(self).selected_ids_view() == old(self).selected_ids_view(),
            final(self).completed() == old(self).completed(),
            ({
                let len = old(self).filtered().len();
                let sel = if len == 0 {
                    None
                } else {
                    Some(crate::scroll_state::wrapped_down(old(self).scroll().selected_idx, len))
                };
                &&& final(self).scroll().selected_idx == sel
                &&& final(self).scroll().scroll_top == crate::scroll_state::visible_top(
                    sel,
                    if len == 0 { 0 } else { old(self).scroll().scroll_top },
                    len,
                    vstd::math::min(MAX_POPUP_ROWS as int, vstd::math::max(len as int, 1)) as nat,
                )
            }),
    {
        let len = self.visible_len();
        self.state.move_down_wrap(len);
        let rows = self.visible_rows();
        self.state.ensure_visible(len, rows);
    }

    pub fn is_complete(&self) -> (b: bool)
        ensures
            b == self.completed(),
    {
        self.complete
    }

    /// Ctrl-C closes the picker.
    pub fn on_ctrl_c(&mut self)
        ensures
            final(self).completed(),
            final(self).entries_view() == old(self).entries_view(),
    {
        self.complete = true;
    }

    /// Handles a key: moves, edits the query, selects, or asks for a command.
    pub fn handle_key_event(&mut self, key: PickerKey, mods: KeyMods) -> (r: Option<TaskPickerCommand>)
        requires
            old(self).wf(),
        ensures
            final(self).wf(),
            final(self).entries_view() == old(self).entries_view(),
            match key {
                PickerKey::Esc => final(self).completed() && r is None,
                PickerKey::Char { ch, .. } => (ch == 'x' && mods.is_none()) || r is None,
                PickerKey::Enter => true,
                _ => r is None,
            },
    {
        match key {
            PickerKey::Up => {
                self.move_up();
                None
            },
            PickerKey::Down => {
                self.move_down();
                None
            },
            PickerKey::Backspace => {
                self.search_query = pop_last(&self.search_query);
                self.apply_filter();
                None
            },
            PickerKey::Enter => self.submit_default(),
            PickerKey::Esc => {
                self.complete = true;
                None
            },
            PickerKey::Char { ch, .. } => {
                let none = !mods.control && !mods.alt && !mods.shift && !mods.other;
                let control_only = mods.control && !mods.alt && !mods.shift && !mods.other;
                if (ch == 'k' && none) || (ch == 'p' && control_only) {
                    self.move_up();
                    None
                } else if (ch == 'j' && none) || (ch == 'n' && control_only) {
                    self.move_down();
                    None
                } else if ch == ' ' && none {
                    self.toggle_selected();
                    None
                } else if ch == 'x' && none {
                    self.open_context_menu()
                } else if !mods.control && !mods.alt && ch != ' ' && ch != 'x' && ch != 'y' {
                    let mut q = text::chars_of(self.search_query.as_str());
                    q.push(ch);
                    self.search_query = text::string_of(q.as_slice());
                    self.apply_filter();
                    None
                } else {
                    None
                }
            },
            PickerKey::Other => None,
        }
    }
}

/// `s` without its last character.
fn pop_last(s: &String) -> (r: String)
    ensures
        r@ == if s@.len() > 0 {
            s@.drop_last()
        } else {
            s@
        },
{
    let mut v = text::chars_of(s.as_str());
    if v.len() > 0 {
        v.pop();
    }
    text::string_of(v.as_slice())
}

/// `l` without the id `id`.
pub open spec fn ids_without(l: Seq<String>, id: Seq<char>) -> Seq<String> {
    l.filter(|s: String| s@ != id)
}

proof fn lemma_filter_distinct(l: Seq<String>, id: Seq<char>)
    ensures
        forall|i: int| 0 <= i < ids_without(l, id).len() ==> l.contains(#[trigger] ids_without(l, id)[i]),
        distinct_ids(l) ==> distinct_ids(ids_without(l, id)),
    decreases l.len(),
{
    reveal_with_fuel(Seq::filter, 1);
    if l.len() > 0 {
        let d = l.drop_last();
        lemma_filter_distinct(d, id);
        let fd = ids_without(d, id);
        let f = ids_without(l, id);
        assert forall|i: int| 0 <= i < f.len() implies l.contains(#[trigger] f[i]) by {
            if i < fd.len() {
                assert(f[i] == fd[i]);
                let j = choose|j: int| 0 <= j < d.len() && d[j] == fd[i];
                assert(l[j] == d[j]);
            } else {
                assert(f[i] == l.last());
                assert(l[l.len() - 1] == l.last());
            }
        }
        if distinct_ids(l) {
            assert(distinct_ids(d)) by {
                assert forall|a: int, b: int| #![trigger d[a], d[b]] 0 <= a < b < d.len() implies d[a]@ != d[b]@ by {
                    assert(d[a] == l[a] && d[b] == l[b]);
                    assert(l[a]@ != l[b]@);
                }
            }
            assert forall|a: int, b: int| #![trigger f[a], f[b]] 0 <= a < b < f.len() implies f[a]@ != f[b]@ by {
                if b < fd.len() {
                    assert(f[a] == fd[a] && f[b] == fd[b]);
                } else {
                    assert(f[b] == l.last());
                    assert(f[a] == fd[a]);
                    let m = choose|m: int| 0 <= m < d.len() && d[m] == fd[a];
                    assert(l[m] == d[m]);
                    assert(l[l.len() - 1] == l.last());
                    assert(l[m]@ != l[l.len() - 1]@);
                }
            }
        }
    }
}


/// A line of one piece of text.
pub open spec fn one(text: Seq<char>, st: ui::SpanStyle) -> Seq<(Seq<char>, ui::SpanStyle)> {
    seq![(text, st)]
}

pub open spec fn plain_style() -> ui::SpanStyle {
    ui::styled(ui::Tint::Default, false, false)
}

pub open spec fn bold_style() -> ui::SpanStyle {
    ui::styled(ui::Tint::Default, true, false)
}

pub open spec fn dim_style() -> ui::SpanStyle {
    ui::styled(ui::Tint::Default, false, true)
}

/// An empty line.
pub open spec fn blank() -> Seq<(Seq<char>, ui::SpanStyle)> {
    one(""@, plain_style())
}

/// How many of the tasks are in state `st`.
pub open spec fn count_in_state(ts: Seq<TaskItem>, st: TaskState) -> nat
    decreases ts.len(),
{
    if ts.len() == 0 {
        0
    } else {
        count_in_state(ts.drop_last(), st) + if ts.last().state == st { 1nat } else { 0nat }
    }
}

/// A dim line `prefix` and the value, when there is a value.
pub open spec fn optional_line(prefix: Seq<char>, o: Option<String>) -> Seq<Seq<(Seq<char>, ui::SpanStyle)>> {
    match o {
        Some(x) => seq![one(prefix + x@, dim_style())],
        None => seq![],
    }
}

/// A bulleted line for each note.
pub open spec fn note_lines(details: Seq<String>) -> Seq<Seq<(Seq<char>, ui::SpanStyle)>> {
    details.map_values(|d: String| one("• "@ + d@, plain_style()))
}

/// A bulleted line for each selected task: its title and state.
pub open spec fn selection_lines(ts: Seq<TaskItem>) -> Seq<Seq<(Seq<char>, ui::SpanStyle)>> {
    ts.map_values(|t: TaskItem| one("• "@ + t.title@ + " ("@ + t.state.label_spec() + ")"@, plain_style()))
}

/// The details of one task: title, source and state, its Plane issue,
/// branch and CI status when known, its summary, the action Enter stages,
/// and its notes.
pub open spec fn task_detail_lines(t: TaskItem) -> Seq<Seq<(Seq<char>, ui::SpanStyle)>> {
    seq![one(t.title@, bold_style()), one("Plane"@ + " · "@ + t.state.label_spec(), dim_style())]
        + optional_line("Plane: "@, t.plane_issue_id) + optional_line("Branch: "@, t.branch)
        + optional_line("CI/CD: "@, t.ci_status) + seq![
        blank(),
        one(t.summary@, plain_style()),
        blank(),
        one("Default staged action"@, bold_style()),
        one(
            if t.state == TaskState::InProgress || t.state == TaskState::Blocked {
                "Continue implementation"@
            } else {
                "Plan and implement"@
            },
            plain_style(),
        ),
        blank(),
        one("Notes"@, bold_style()),
    ] + note_lines(t.details@)
}

/// What the details pane says of several selected tasks: how many, how
/// many are done and in progress, the batch actions, and each task.
pub open spec fn batch_detail_lines(ts: Seq<TaskItem>) -> Seq<Seq<(Seq<char>, ui::SpanStyle)>> {
    seq![
        one(text::decimal(ts.len()) + " tasks selected"@, bold_style()),
        one(
            text::decimal(count_in_state(ts, TaskState::Done)) + " done · "@ + text::decimal(
                count_in_state(ts, TaskState::InProgress),
            ) + " in progress · "@ + text::decimal(ts.len()) + " actionable"@,
            dim_style(),
        ),
        blank(),
        one("Batch actions"@, bold_style()),
        one("X opens the batch action menu for this selection."@, plain_style()),
        one("Y/Enter stages the default action into the composer."@, plain_style()),
        blank(),
    ] + selection_lines(ts)
}

impl TaskPickerView {
    /// The details pane: the loading message, the load error, the focused
    /// project, the selection when several tasks are selected, the focused
    /// task, or a note that there is none.
    pub open spec fn details_spec(self) -> Seq<Seq<(Seq<char>, ui::SpanStyle)>> {
        match self.mode_spec() {
            TaskPickerMode::Loading { message } => seq![one("Loading tasks"@, bold_style()), blank(), one(message@, plain_style())],
            TaskPickerMode::Error { message } => seq![
                one("Task picker load failed"@, bold_style()),
                blank(),
                one(message@, plain_style()),
                blank(),
                one("Press Esc to close and run /tasks again after fixing config/API access."@, plain_style()),
            ],
            _ => match self.focused() {
                Some(TaskPickerEntry::Project(p)) => seq![
                    one(p.name@, bold_style()),
                    one("Workspace: "@ + p.workspace@ + " · Project: "@ + p.project_slug@, dim_style()),
                    blank(),
                    one(
                        match p.description {
                            Some(d) => d@,
                            None => "Browse this project to load active Plane issues and summary rows."@,
                        },
                        plain_style(),
                    ),
                    blank(),
                    one("Press Enter to open this project."@, plain_style()),
                ] + if self.selected_ids_view().len() == 0 {
                    seq![one("Space/X actions apply only to real issue rows."@, dim_style())]
                } else {
                    seq![]
                },
                _ => if self.selected_tasks_spec().len() > 1 {
                    batch_detail_lines(self.selected_tasks_spec())
                } else {
                    match self.focused_task_spec() {
                        None => seq![one("No tasks available."@, plain_style())],
                        Some(t) => task_detail_lines(t),
                    }
                },
            },
        }
    }

    /// The header: the picker's title, what is being shown, and the
    /// counts and the filter.
    pub open spec fn header_spec(self) -> Seq<Seq<(Seq<char>, ui::SpanStyle)>> {
        let n = self.selected_ids_view().len();
        let filter = "filter: "@ + if self.query().len() == 0 { "none"@ } else { self.query() };
        let title = one("Palace Task Picker"@, bold_style());
        match self.mode_spec() {
            TaskPickerMode::Loading { .. } => seq![
                title,
                one("Opening live tasks..."@, dim_style()),
                one(filter, dim_style()),
            ],
            TaskPickerMode::ProjectList { workspace } => seq![
                title,
                one("Browse Plane projects in workspace "@ + workspace@ + "."@, dim_style()),
                one(
                    text::decimal(self.entries_view().len()) + " projects · "@ + text::decimal(n) + " selected · "@ + filter,
                    dim_style(),
                ),
            ],
            TaskPickerMode::TaskList { workspace, project_slug, project_name } => seq![
                title,
                one(
                    project_name@ + " ("@ + workspace@ + "/"@ + project_slug@ + ") · Space select · X menu · Enter stage"@,
                    dim_style(),
                ),
                one(
                    text::decimal(self.entries_view().len()) + " rows · "@ + text::decimal(n) + " selected · "@ + filter,
                    dim_style(),
                ),
            ],
            TaskPickerMode::Error { .. } => seq![
                title,
                one("Failed to load live task data."@, dim_style()),
                one(filter, dim_style()),
            ],
        }
    }
}

/// A line of one piece of text built from characters.
fn chars_line(v: Vec<char>, st: ui::SpanStyle) -> (l: ui::StyledLine)
    ensures
        ui::line_view(l) == one(v@, st),
{
    ui::line1(text::string_of(v.as_slice()), st)
}

/// A line of one piece of text.
fn str_line(s: &str, st: ui::SpanStyle) -> (l: ui::StyledLine)
    ensures
        ui::line_view(l) == one(s@, st),
{
    ui::line1(s.to_owned(), st)
}

fn push_optional(lines: &mut Vec<ui::StyledLine>, prefix: &str, o: &Option<String>)
    ensures
        ui::lines_view(final(lines)@) == ui::lines_view(old(lines)@) + optional_line(prefix@, *o),
{
    match o {
        Some(x) => {
            let mut v = text::chars_of(prefix);
            text::push_chars(&mut v, x.as_str());
            ui::push_line(lines, chars_line(v, ui::style_of(ui::Tint::Default, false, true)));
        },
        None => {
            assert(ui::lines_view(lines@) =~~= ui::lines_view(lines@) + optional_line(prefix@, *o));
        },
    }
}

fn push_notes(lines: &mut Vec<ui::StyledLine>, details: &Vec<String>)
    ensures
        ui::lines_view(final(lines)@) == ui::lines_view(old(lines)@) + note_lines(details@),
{
    let ghost start = ui::lines_view(lines@);
    let mut i: usize = 0;
    while i < details.len()
        invariant
            i <= details@.len(),
            ui::lines_view(lines@) == start + note_lines(details@.take(i as int)),
        decreases details.len() - i,
    {
        let mut v = text::chars_of("• ");
        text::push_chars(&mut v, details[i].as_str());
        ui::push_line(lines, chars_line(v, ui::style_of(ui::Tint::Default, false, false)));
        assert(note_lines(details@.take(i + 1)) =~= note_lines(details@.take(i as int)).push(
            one("• "@ + details@[i as int]@, plain_style()),
        ));
        i = i + 1;
    }
    assert(details@.take(details@.len() as int) =~= details@);
}

/// The lines describing one task.
fn task_details(t: &TaskItem) -> (r: Vec<ui::StyledLine>)
    ensures
        ui::lines_view(r@) == task_detail_lines(*t),
{
    let plain = ui::style_of(ui::Tint::Default, false, false);
    let bold = ui::style_of(ui::Tint::Default, true, false);
    let dim = ui::style_of(ui::Tint::Default, false, true);
    let mut lines: Vec<ui::StyledLine> = Vec::new();
    ui::push_line(&mut lines, ui::line1(t.title.clone(), bold));
    let mut v = text::chars_of(t.source.label());
    text::push_chars(&mut v, " · ");
    text::push_chars(&mut v, t.state.label());
    ui::push_line(&mut lines, chars_line(v, dim));
    push_optional(&mut lines, "Plane: ", &t.plane_issue_id);
    push_optional(&mut lines, "Branch: ", &t.branch);
    push_optional(&mut lines, "CI/CD: ", &t.ci_status);
    ui::push_line(&mut lines, str_line("", plain));
    ui::push_line(&mut lines, ui::line1(t.summary.clone(), plain));
    ui::push_line(&mut lines, str_line("", plain));
    ui::push_line(&mut lines, str_line("Default staged action", bold));
    if t.state.can_continue() {
        ui::push_line(&mut lines, str_line("Continue implementation", plain));
    } else {
        ui::push_line(&mut lines, str_line("Plan and implement", plain));
    }
    ui::push_line(&mut lines, str_line("", plain));
    ui::push_line(&mut lines, str_line("Notes", bold));
    push_notes(&mut lines, &t.details);
    assert(ui::lines_view(lines@) =~~= task_detail_lines(*t));
    lines
}

/// The lines describing several selected tasks.
fn batch_details(ts: &Vec<&TaskItem>) -> (r: Vec<ui::StyledLine>)
    requires
        ts@.len() <= usize::MAX,
    ensures
        ui::lines_view(r@) == batch_detail_lines(ts@.map_values(|t: &TaskItem| *t)),
{
    let ghost tv = ts@.map_values(|t: &TaskItem| *t);
    let mut done: usize = 0;
    let mut in_progress: usize = 0;
    let mut i: usize = 0;
    while i < ts.len()
        invariant
            i <= ts@.len(),
            tv == ts@.map_values(|t: &TaskItem| *t),
            done == count_in_state(tv.take(i as int), TaskState::Done),
            in_progress == count_in_state(tv.take(i as int), TaskState::InProgress),
            done <= i,
            in_progress <= i,
        decreases ts.len() - i,
    {
        assert(tv.take(i + 1).drop_last() =~= tv.take(i as int));
        assert(tv.take(i + 1).last() == *ts@[i as int]);
        match ts[i].state {
            TaskState::Done => {
                done = done + 1;
            },
            TaskState::InProgress => {
                in_progress = in_progress + 1;
            },
            _ => {},
        }
        i = i + 1;
    }
    assert(tv.take(tv.len() as int) =~= tv);
    let plain = ui::style_of(ui::Tint::Default, false, false);
    let bold = ui::style_of(ui::Tint::Default, true, false);
    let dim = ui::style_of(ui::Tint::Default, false, true);
    let mut lines: Vec<ui::StyledLine> = Vec::new();
    let mut v: Vec<char> = Vec::new();
    text::push_decimal(&mut v, ts.len());
    text::push_chars(&mut v, " tasks selected");
    ui::push_line(&mut lines, chars_line(v, bold));
    let mut w: Vec<char> = Vec::new();
    text::push_decimal(&mut w, done);
    text::push_chars(&mut w, " done · ");
    text::push_decimal(&mut w, in_progress);
    text::push_chars(&mut w, " in progress · ");
    text::push_decimal(&mut w, ts.len());
    text::push_chars(&mut w, " actionable");
    ui::push_line(&mut lines, chars_line(w, dim));
    ui::push_line(&mut lines, str_line("", plain));
    ui::push_line(&mut lines, str_line("Batch actions", bold));
    ui::push_line(&mut lines, str_line("X opens the batch action menu for this selection.", plain));
    ui::push_line(&mut lines, str_line("Y/Enter stages the default action into the composer.", plain));
    ui::push_line(&mut lines, str_line("", plain));
    let ghost head = ui::lines_view(lines@);
    let mut k: usize = 0;
    while k < ts.len()
        invariant
            k <= ts@.len(),
            tv == ts@.map_values(|t: &TaskItem| *t),
            plain == plain_style(),
            ui::lines_view(lines@) == head + selection_lines(tv.take(k as int)),
        decreases ts.len() - k,
    {
        let ghost before = ui::lines_view(lines@);
        assert(tv[k as int] == *ts@[k as int]);
        let mut x = text::chars_of("• ");
        text::push_chars(&mut x, ts[k].title.as_str());
        text::push_chars(&mut x, " (");
        text::push_chars(&mut x, ts[k].state.label());
        text::push_chars(&mut x, ")");
        let ghost xv = x@;
        assert(xv == "• "@ + tv[k as int].title@ + " ("@ + tv[k as int].state.label_spec() + ")"@);
        ui::push_line(&mut lines, chars_line(x, plain));
        assert(ui::lines_view(lines@) == before.push(one(xv, plain_style())));
        assert(selection_lines(tv.take(k + 1)) =~= selection_lines(tv.take(k as int)).push(
            one("• "@ + tv[k as int].title@ + " ("@ + tv[k as int].state.label_spec() + ")"@, plain_style()),
        ));
        assert(ui::lines_view(lines@) =~~= head + selection_lines(tv.take(k + 1)));
        k = k + 1;
    }
    assert(tv.take(tv.len() as int) =~= tv);
    assert(ui::lines_view(lines@) =~~= batch_detail_lines(tv));
    lines
}

impl TaskPickerView {
    /// The lines of the details pane.
    pub fn details_lines(&self) -> (r: Vec<ui::StyledLine>)
        requires
            self.wf(),
        ensures
            ui::lines_view(r@) == self.details_spec(),
    {
        let plain = ui::style_of(ui::Tint::Default, false, false);
        let bold = ui::style_of(ui::Tint::Default, true, false);
        let dim = ui::style_of(ui::Tint::Default, false, true);
        let mut lines: Vec<ui::StyledLine> = Vec::new();
        match &self.mode {
            TaskPickerMode::Loading { message } => {
                ui::push_line(&mut lines, str_line("Loading tasks", bold));
                ui::push_line(&mut lines, str_line("", plain));
                ui::push_line(&mut lines, ui::line1(message.clone(), plain));
                assert(ui::lines_view(lines@) =~~= self.details_spec());
                return lines;
            },
            TaskPickerMode::Error { message } => {
                ui::push_line(&mut lines, str_line("Task picker load failed", bold));
                ui::push_line(&mut lines, str_line("", plain));
                ui::push_line(&mut lines, ui::line1(message.clone(), plain));
                ui::push_line(&mut lines, str_line("", plain));
                ui::push_line(
                    &mut lines,
                    str_line("Press Esc to close and run /tasks again after fixing config/API access.", plain),
                );
                assert(ui::lines_view(lines@) =~~= self.details_spec());
                return lines;
            },
            _ => {},
        }
        match self.focused_project() {
            Some(p) => {
                ui::push_line(&mut lines, ui::line1(p.name.clone(), bold));
                let mut v = text::chars_of("Workspace: ");
                text::push_chars(&mut v, p.workspace.as_str());
                text::push_chars(&mut v, " · Project: ");
                text::push_chars(&mut v, p.project_slug.as_str());
                ui::push_line(&mut lines, chars_line(v, dim));
                ui::push_line(&mut lines, str_line("", plain));
                let d = match &p.description {
                    Some(d) => d.clone(),
                    None => String::from_str("Browse this project to load active Plane issues and summary rows."),
                };
                ui::push_line(&mut lines, ui::line1(d, plain));
                ui::push_line(&mut lines, str_line("", plain));
                ui::push_line(&mut lines, str_line("Press Enter to open this project.", plain));
                if self.selected_ids.len() == 0 {
                    ui::push_line(&mut lines, str_line("Space/X actions apply only to real issue rows.", dim));
                }
                assert(ui::lines_view(lines@) =~~= self.details_spec());
                return lines;
            },
            None => {},
        }
        let selected = self.selected_tasks();
        if selected.len() > 1 {
            let r = batch_details(&selected);
            return r;
        }
        match self.focused_task() {
            None => {
                ui::push_line(&mut lines, str_line("No tasks available.", plain));
                assert(ui::lines_view(lines@) =~~= self.details_spec());
                lines
            },
            Some(t) => task_details(t),
        }
    }

    /// The lines of the header.
    pub fn header_lines(&self) -> (r: Vec<ui::StyledLine>)
        ensures
            ui::lines_view(r@) == self.header_spec(),
    {
        let bold = ui::style_of(ui::Tint::Default, true, false);
        let dim = ui::style_of(ui::Tint::Default, false, true);
        let mut lines: Vec<ui::StyledLine> = Vec::new();
        ui::push_line(&mut lines, str_line("Palace Task Picker", bold));
        let mut filter = text::chars_of("filter: ");
        if self.search_query.as_str().unicode_len() == 0 {
            text::push_chars(&mut filter, "none");
        } else {
            text::push_chars(&mut filter, self.search_query.as_str());
        }
        match &self.mode {
            TaskPickerMode::Loading { .. } => {
                ui::push_line(&mut lines, str_line("Opening live tasks...", dim));
                ui::push_line(&mut lines, chars_line(filter, dim));
            },
            TaskPickerMode::ProjectList { workspace } => {
                let mut v = text::chars_of("Browse Plane projects in workspace ");
                text::push_chars(&mut v, workspace.as_str());
                text::push_chars(&mut v, ".");
                ui::push_line(&mut lines, chars_line(v, dim));
                let mut w: Vec<char> = Vec::new();
                text::push_decimal(&mut w, self.entries.len());
                text::push_chars(&mut w, " projects · ");
                text::push_decimal(&mut w, self.selected_ids.len());
                text::push_chars(&mut w, " selected · ");
                let f = filter;
                text::extend_chars(&mut w, f.as_slice());
                ui::push_line(&mut lines, chars_line(w, dim));
            },
            TaskPickerMode::TaskList { workspace, project_slug, project_name } => {
                let mut v = text::chars_of(project_name.as_str());
                text::push_chars(&mut v, " (");
                text::push_chars(&mut v, workspace.as_str());
                text::push_chars(&mut v, "/");
                text::push_chars(&mut v, project_slug.as_str());
                text::push_chars(&mut v, ") · Space select · X menu · Enter stage");
                ui::push_line(&mut lines, chars_line(v, dim));
                let mut w: Vec<char> = Vec::new();
                text::push_decimal(&mut w, self.entries.len());
                text::push_chars(&mut w, " rows · ");
                text::push_decimal(&mut w, self.selected_ids.len());
                text::push_chars(&mut w, " selected · ");
                let f = filter;
                text::extend_chars(&mut w, f.as_slice());
                ui::push_line(&mut lines, chars_line(w, dim));
            },
            TaskPickerMode::Error { .. } => {
                ui::push_line(&mut lines, str_line("Failed to load live task data.", dim));
                ui::push_line(&mut lines, chars_line(filter, dim));
            },
        }
        assert(ui::lines_view(lines@) =~~= self.header_spec());
        lines
    }
}


impl TaskPickerView {
    /// Row `k` of the shown rows: a mark on the focused row, then the
    /// project's name and where it lives, or the task's checkbox, title,
    /// source and state, and its Plane issue when it has one.
    pub open spec fn row_spec(self, k: int) -> Seq<(Seq<char>, ui::SpanStyle)> {
        let focused = self.scroll().selected_idx == Some(k as usize);
        let strong = if focused { bold_style() } else { plain_style() };
        let mark = (if focused { "›"@ } else { " "@ }, strong);
        match self.entries_view()[self.filtered()[k] as int] {
            TaskPickerEntry::Project(p) => seq![
                mark,
                ("   "@, plain_style()),
                (p.name@, strong),
                (" "@, plain_style()),
                (p.workspace@ + " · "@ + p.project_slug@, dim_style()),
            ],
            TaskPickerEntry::Task(t) => seq![
                mark,
                (" "@, plain_style()),
                (if has_id(self.selected_ids_view(), t.id@) { "[x]"@ } else { "[ ]"@ }, plain_style()),
                (" "@, plain_style()),
                (t.title@, strong),
                (" "@, plain_style()),
                ("Plane"@ + " · "@ + t.state.label_spec(), dim_style()),
            ] + match t.plane_issue_id {
                Some(i) => seq![(" "@, plain_style()), (i@, dim_style())],
                None => seq![],
            },
        }
    }

    /// The rows in the list window: from the scroll offset, as many as
    /// the window holds, up to the last shown row.
    pub open spec fn rows_spec(self) -> Seq<Seq<(Seq<char>, ui::SpanStyle)>> {
        let start = self.scroll().scroll_top as int;
        let window = vstd::math::min(MAX_POPUP_ROWS as int, vstd::math::max(self.filtered().len() as int, 1));
        let end = vstd::math::min(start + window, self.filtered().len() as int);
        Seq::new((end - start) as nat, |j: int| self.row_spec(start + j))
    }

    /// What the picker draws in `area` when its popup is cut into `parts`
    /// (header, queue column, details column, footer): the header, the
    /// queue and the details, each in a titled frame with its text inside;
    /// the footer row is returned for the key hints. Nothing is drawn in an
    /// empty area.
    pub open spec fn render_spec(self, area: PaneRect, parts: (PaneRect, PaneRect, PaneRect, PaneRect)) -> (
        Seq<ui::PanelSpec>,
        Option<PaneRect>,
    ) {
        if area.width == 0 || area.height == 0 {
            (seq![], None)
        } else {
            let (header_area, list_area, details_area, footer_area) = parts;
            let rows = if self.rows_spec().len() == 0 {
                seq![one("No matching rows."@, plain_style())]
            } else {
                self.rows_spec()
            };
            (
                seq![
                    project_chooser::frame_panel(header_area, false, false, ui::Tint::Default, "Tasks"@),
                    project_chooser::text_panel(layout::inner_area(header_area), self.header_spec()),
                    project_chooser::frame_panel(list_area, false, false, ui::Tint::Default, "Queue"@),
                    project_chooser::text_panel(layout::inner_area(list_area), rows),
                    project_chooser::frame_panel(details_area, false, false, ui::Tint::Default, "Details"@),
                    project_chooser::text_panel(layout::inner_area(details_area), self.details_spec()),
                ],
                Some(footer_area),
            )
        }
    }

    /// The line of shown row `k`.
    fn row_line(&self, k: usize) -> (l: ui::StyledLine)
        requires
            self.wf(),
            k < self.filtered().len(),
        ensures
            ui::line_view(l) == self.row_spec(k as int),
    {
        let plain = ui::style_of(ui::Tint::Default, false, false);
        let bold = ui::style_of(ui::Tint::Default, true, false);
        let dim = ui::style_of(ui::Tint::Default, false, true);
        let focused = match self.state.selected_idx {
            Some(i) => i == k,
            None => false,
        };
        let strong = if focused { bold } else { plain };
        let mut l = if focused { str_line("›", strong) } else { str_line(" ", strong) };
        let idx = self.filtered_indices[k];
        match &self.entries[idx] {
            TaskPickerEntry::Project(p) => {
                ui::push_span(&mut l, String::from_str("   "), plain);
                ui::push_span(&mut l, p.name.clone(), strong);
                ui::push_span(&mut l, String::from_str(" "), plain);
                let mut v = text::chars_of(p.workspace.as_str());
                text::push_chars(&mut v, " · ");
                text::push_chars(&mut v, p.project_slug.as_str());
                ui::push_span(&mut l, text::string_of(v.as_slice()), dim);
            },
            TaskPickerEntry::Task(t) => {
                ui::push_span(&mut l, String::from_str(" "), plain);
                let checked = ids_contain(&self.selected_ids, t.id.as_str());
                ui::push_span(&mut l, if checked { String::from_str("[x]") } else { String::from_str("[ ]") }, plain);
                ui::push_span(&mut l, String::from_str(" "), plain);
                ui::push_span(&mut l, t.title.clone(), strong);
                ui::push_span(&mut l, String::from_str(" "), plain);
                let mut v = text::chars_of(t.source.label());
                text::push_chars(&mut v, " · ");
                text::push_chars(&mut v, t.state.label());
                ui::push_span(&mut l, text::string_of(v.as_slice()), dim);
                match &t.plane_issue_id {
                    Some(i) => {
                        ui::push_span(&mut l, String::from_str(" "), plain);
                        ui::push_span(&mut l, i.clone(), dim);
                    },
                    None => {},
                }
            },
        }
        assert(ui::line_view(l) =~= self.row_spec(k as int));
        l
    }

    /// The lines of the rows in the list window.
    pub fn rows(&self) -> (r: Vec<ui::StyledLine>)
        requires
            self.wf(),
        ensures
            ui::lines_view(r@) == self.rows_spec(),
    {
        let start = self.state.scroll_top;
        let window = self.visible_rows();
        let len = self.visible_len();
        let end = if start + window < len { start + window } else { len };
        let mut r: Vec<ui::StyledLine> = Vec::new();
        let mut k: usize = start;
        while k < end
            invariant
                self.wf(),
                start <= k <= end <= self.filtered().len(),
                start == self.scroll().scroll_top,
                end == vstd::math::min(
                    start + vstd::math::min(MAX_POPUP_ROWS as int, vstd::math::max(self.filtered().len() as int, 1)),
                    self.filtered().len() as int,
                ),
                ui::lines_view(r@) =~~= Seq::new((k - start) as nat, |j: int| self.row_spec(start + j)),
            decreases end - k,
        {
            let l = self.row_line(k);
            let ghost before = ui::lines_view(r@);
            ui::push_line(&mut r, l);
            assert(ui::lines_view(r@) =~~= Seq::new((k + 1 - start) as nat, |j: int| self.row_spec(start + j)));
            k = k + 1;
        }
        r
    }

    /// Lays the picker out in `area`: the layout cuts its popup into
    /// header, queue and details columns, and footer, and the panels and
    /// footer row are those `render_in` gives for the parts the layout gave.
    pub fn render(&self, area: PaneRect) -> (r: (Vec<ui::Panel>, Option<PaneRect>))
        requires
            self.wf(),
        ensures
            area.width == 0 || area.height == 0 ==> ui::panels_view(r.0@) == Seq::<ui::PanelSpec>::empty() && r.1 is None,
            area.width > 0 && area.height > 0 ==> exists|parts: (PaneRect, PaneRect, PaneRect, PaneRect)|
                project_chooser::popup_split(area, 4, 2, 48, 52, parts) && (ui::panels_view(r.0@), r.1)
                    == #[trigger] self.render_spec(area, parts),
    {
        let parts = if area.width == 0 || area.height == 0 {
            (area, area, area, area)
        } else {
            project_chooser::popup_areas(area, 4, 2, 48, 52)
        };
        let r = self.render_in(area, parts);
        assert((ui::panels_view(r.0@), r.1) == self.render_spec(area, parts));
        r
    }

    /// What the picker draws in `area` when its popup is cut into `parts`:
    /// the panels, in order, and the footer row.
    pub fn render_in(&self, area: PaneRect, parts: (PaneRect, PaneRect, PaneRect, PaneRect)) -> (r: (
        Vec<ui::Panel>,
        Option<PaneRect>,
    ))
        requires
            self.wf(),
        ensures
            (ui::panels_view(r.0@), r.1) == self.render_spec(area, parts),
    {
        let mut panels: Vec<ui::Panel> = Vec::new();
        if area.width == 0 || area.height == 0 {
            assert(ui::panels_view(panels@) =~= seq![]);
            return (panels, None);
        }
        let (header_area, list_area, details_area, footer_area) = parts;
        ui::push_panel(
            &mut panels,
            project_chooser::titled_frame(header_area, false, false, ui::Tint::Default, String::from_str("Tasks")),
        );
        ui::push_panel(
            &mut panels,
            ui::Panel {
                area: layout::bordered_inner(header_area),
                clear: false,
                frame: None,
                lines: self.header_lines(),
                scroll: 0,
            },
        );
        ui::push_panel(
            &mut panels,
            project_chooser::titled_frame(list_area, false, false, ui::Tint::Default, String::from_str("Queue")),
        );
        let mut rows = self.rows();
        if rows.len() == 0 {
            ui::push_line(&mut rows, str_line("No matching rows.", ui::style_of(ui::Tint::Default, false, false)));
        }
        ui::push_panel(
            &mut panels,
            ui::Panel { area: layout::bordered_inner(list_area), clear: false, frame: None, lines: rows, scroll: 0 },
        );
        ui::push_panel(
            &mut panels,
            project_chooser::titled_frame(details_area, false, false, ui::Tint::Default, String::from_str("Details")),
        );
        ui::push_panel(
            &mut panels,
            ui::Panel {
                area: layout::bordered_inner(details_area),
                clear: false,
                frame: None,
                lines: self.details_lines(),
                scroll: 0,
            },
        );
        assert(ui::panels_view(panels@) =~~= self.render_spec(area, parts).0);
        (panels, Some(footer_area))
    }
}

} // verus!
