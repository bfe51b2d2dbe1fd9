//! Project navigation: favourite and recent project paths, workspace names,
//! the attention mode, and the workspaces of project tabs (threads with a
//! working directory), with the session that can be saved and restored.
use vstd::prelude::*;
use std::collections::HashMap;
use crate::text;
use crate::paths;
use crate::paths::same_path;

verus! {

broadcast use vstd::std_specs::hash::group_hash_axioms;

/// Name of the file the navigation state is saved in.
pub const PROJECT_NAVIGATION_STATE_FILE: &'static str = "project-navigation.json";

/// How many recent projects are remembered.
pub const MAX_RECENT_PROJECTS: usize = 48;

/// Seconds of idleness before attention markers apply, by default.
pub const DEFAULT_ATTENTION_IDLE_DELAY_SECONDS: u64 = 5;

#[derive(Clone, Copy, PartialEq, Eq, Structural, Debug)]
pub enum ProjectTabDirection {
    Previous,
    Next,
}

#[derive(Clone, Copy, PartialEq, Eq, Structural, Debug)]
pub enum ProjectWorkspaceDirection {
    Previous,
    Next,
}

/// Side of the anchor tab a new tab is opened on.
#[derive(Clone, Copy, PartialEq, Eq, Structural, Debug)]
pub enum NewTabPlacement {
    Left,
    Right,
}

/// How threads that need attention are signalled: not at all, with markers,
/// or with markers and an automatic switch.
#[derive(Clone, Copy, PartialEq, Eq, Structural, Debug)]
pub enum AttentionMode {
    Off,
    Soft,
    On,
}

impl AttentionMode {
    /// The mode a state without one has.
    pub fn default_mode() -> (m: AttentionMode)
        ensures
            m == AttentionMode::Soft,
    {
        AttentionMode::Soft
    }

    /// The mode's name.
    pub fn label(self) -> (s: &'static str)
        ensures
            s@ == match self {
                AttentionMode::Off => "off"@,
                AttentionMode::Soft => "soft"@,
                AttentionMode::On => "on"@,
            },
    {
        match self {
            AttentionMode::Off => "off",
            AttentionMode::Soft => "soft",
            AttentionMode::On => "on",
        }
    }

    /// Whether markers are shown.
    pub fn shows_markers(self) -> (b: bool)
        ensures
            b == (self != AttentionMode::Off),
    {
        match self {
            AttentionMode::Off => false,
            _ => true,
        }
    }

    /// Whether focus switches by itself.
    pub fn auto_switches(self) -> (b: bool)
        ensures
            b == (self == AttentionMode::On),
    {
        match self {
            AttentionMode::On => true,
            _ => false,
        }
    }

    /// The next mode in the cycle off, soft, on.
    pub fn next(self) -> (m: AttentionMode)
        ensures
            m == match self {
                AttentionMode::Off => AttentionMode::Soft,
                AttentionMode::Soft => AttentionMode::On,
                AttentionMode::On => AttentionMode::Off,
            },
    {
        match self {
            AttentionMode::Off => AttentionMode::Soft,
            AttentionMode::Soft => AttentionMode::On,
            AttentionMode::On => AttentionMode::Off,
        }
    }

    /// The mode a saved boolean stands for (older state files): `false`
    /// soft, `true` on.
    pub fn from_flag(enabled: bool) -> (m: AttentionMode)
        ensures
            m == if enabled {
                AttentionMode::On
            } else {
                AttentionMode::Soft
            },
    {
        if enabled {
            AttentionMode::On
        } else {
            AttentionMode::Soft
        }
    }

    /// The mode a saved name stands for, or the message refusing it.
    pub fn from_name(value: &str) -> (r: Result<AttentionMode, String>)
        ensures
            value@ == "off"@ ==> r == Ok::<AttentionMode, String>(AttentionMode::Off),
            value@ == "soft"@ ==> r == Ok::<AttentionMode, String>(AttentionMode::Soft),
            value@ == "on"@ ==> r == Ok::<AttentionMode, String>(AttentionMode::On),
            value@ != "off"@ && value@ != "soft"@ && value@ != "on"@ ==> (r matches Err(m) && m@
                == "invalid attention mode `"@ + value@ + "`; expected `off`, `soft`, or `on`"@),
    {
        proof {
            reveal_strlit("off");
            reveal_strlit("soft");
            reveal_strlit("on");
        }
        let v = text::chars_of(value);
        let off = text::chars_of("off");
        let soft = text::chars_of("soft");
        let on = text::chars_of("on");
        if text::starts_with_chars(v.as_slice(), off.as_slice()) && v.len() == off.len() {
            assert(v@ =~= off@);
            return Ok(AttentionMode::Off);
        }
        if text::starts_with_chars(v.as_slice(), soft.as_slice()) && v.len() == soft.len() {
            assert(v@ =~= soft@);
            return Ok(AttentionMode::Soft);
        }
        if text::starts_with_chars(v.as_slice(), on.as_slice()) && v.len() == on.len() {
            assert(v@ =~= on@);
            return Ok(AttentionMode::On);
        }
        proof {
            if v@ == off@ {
                assert(v@.take(off@.len() as int) =~= off@);
            }
            if v@ == soft@ {
                assert(v@.take(soft@.len() as int) =~= soft@);
            }
            if v@ == on@ {
                assert(v@.take(on@.len() as int) =~= on@);
            }
        }
        let mut m = text::chars_of("invalid attention mode `");
        text::extend_chars(&mut m, v.as_slice());
        let tail = text::chars_of("`; expected `off`, `soft`, or `on`");
        text::extend_chars(&mut m, tail.as_slice());
        Err(text::string_of(m.as_slice()))
    }
}

/// A saved tab: its thread and working directory.
pub struct PersistedWorkspaceTab {
    pub thread_id: u64,
    pub cwd: String,
}

/// A saved workspace: its tabs and the focused one.
pub struct PersistedWorkspace {
    pub tabs: Vec<PersistedWorkspaceTab>,
    pub active_tab: Option<usize>,
}

/// A saved session of workspaces.
pub struct PersistedWorkspaceSession {
    pub workspaces: Vec<PersistedWorkspace>,
    pub active_workspace: usize,
}

/// What is saved of the navigation state.
pub struct PersistedProjectNavigationState {
    pub favorites: Vec<String>,
    pub recents: Vec<String>,
    pub favorite_descriptions: Vec<(String, String)>,
    pub workspace_names: Vec<Option<String>>,
    pub attention_mode: AttentionMode,
    pub attention_idle_delay_seconds: u64,
    pub saved_workspace_session: Option<PersistedWorkspaceSession>,
}

/// A workspace handed back from a saved session.
pub struct RestoredWorkspace {
    pub tabs: Vec<(u64, String)>,
    pub active_tab: Option<usize>,
}

/// The tab the focus index of `w` points at.
pub open spec fn active_entry(w: PersistedWorkspace) -> Option<int> {
    match w.active_tab {
        Some(i) => if i < w.tabs@.len() {
            Some(i as int)
        } else {
            None
        },
        None => None,
    }
}

/// The first workspace in order that has a focused tab, or else any tab.
pub open spec fn first_startup_tab(ws: Seq<PersistedWorkspace>, k: int) -> Option<(int, int)>
    decreases ws.len() - k,
{
    if k < 0 || k >= ws.len() {
        None
    } else {
        match active_entry(ws[k]) {
            Some(t) => Some((k, t)),
            None => if ws[k].tabs@.len() > 0 {
                Some((k, 0))
            } else {
                first_startup_tab(ws, k + 1)
            },
        }
    }
}

impl PersistedWorkspace {
    /// Index of the focused tab, when it points at a tab.
    pub fn active_tab_entry(&self) -> (r: Option<usize>)
        ensures
            match r {
                Some(i) => active_entry(*self) == Some(i as int),
                None => active_entry(*self) is None,
            },
    {
        match self.active_tab {
            Some(i) => if i < self.tabs.len() {
                Some(i)
            } else {
                None
            },
            None => None,
        }
    }
}

impl PersistedWorkspaceSession {
    /// The tab to open at startup, as (workspace, tab) indices: the focused
    /// tab of the focused workspace, or else the first workspace that has a
    /// focused tab or any tab.
    pub fn startup_tab(&self) -> (r: Option<(usize, usize)>)
        ensures
            match r {
                Some((w, t)) => {
                    let focused = if self.active_workspace < self.workspaces@.len() {
                        active_entry(self.workspaces@[self.active_workspace as int])
                    } else {
                        None
                    };
                    match focused {
                        Some(i) => w == self.active_workspace && t == i,
                        None => first_startup_tab(self.workspaces@, 0) == Some((w as int, t as int)),
                    }
                },
                None => (self.active_workspace >= self.workspaces@.len() || active_entry(
                    self.workspaces@[self.active_workspace as int],
                ) is None) && first_startup_tab(self.workspaces@, 0) is None,
            },
    {
        if self.active_workspace < self.workspaces.len() {
            match self.workspaces[self.active_workspace].active_tab_entry() {
                Some(i) => return Some((self.active_workspace, i)),
                None => {},
            }
        }
        let mut k: usize = 0;
        while k < self.workspaces.len()
            invariant
                k <= self.workspaces@.len(),
                first_startup_tab(self.workspaces@, 0) == first_startup_tab(self.workspaces@, k as int),
                self.active_workspace >= self.workspaces@.len() || active_entry(
                    self.workspaces@[self.active_workspace as int],
                ) is None,
            decreases self.workspaces.len() - k,
        {
            match self.workspaces[k].active_tab_entry() {
                Some(t) => return Some((k, t)),
                None => {
                    if self.workspaces[k].tabs.len() > 0 {
                        return Some((k, 0));
                    }
                },
            }
            k = k + 1;
        }
        None
    }
}

/// The open tabs of one workspace and the focused one.
pub struct ProjectWorkspace {
    pub tabs: Vec<u64>,
    pub active_tab: Option<usize>,
}

/// The model of a workspace.
pub struct WorkspaceView {
    pub tabs: Seq<u64>,
    pub active_tab: Option<usize>,
}

pub open spec fn ws_view(w: ProjectWorkspace) -> WorkspaceView {
    WorkspaceView { tabs: w.tabs@, active_tab: w.active_tab }
}

pub open spec fn wss_view(v: Seq<ProjectWorkspace>) -> Seq<WorkspaceView> {
    v.map_values(|w: ProjectWorkspace| ws_view(w))
}

/// The focus of the workspace is absent or on one of its tabs.
pub open spec fn focus_in_range(w: WorkspaceView) -> bool {
    match w.active_tab {
        Some(a) => a < w.tabs.len(),
        None => true,
    }
}

/// Position of the first `t` in `tabs`.
pub open spec fn tab_pos(tabs: Seq<u64>, t: u64) -> Option<int>
    decreases tabs.len(),
{
    if tabs.len() == 0 {
        None
    } else if tabs.last() == t {
        match tab_pos(tabs.drop_last(), t) {
            Some(i) => Some(i),
            None => Some(tabs.len() - 1),
        }
    } else {
        tab_pos(tabs.drop_last(), t)
    }
}

proof fn lemma_tab_pos(tabs: Seq<u64>, t: u64)
    ensures
        match tab_pos(tabs, t) {
            Some(i) => 0 <= i < tabs.len() && tabs[i] == t && forall|j: int| 0 <= j < i ==> tabs[j] != t,
            None => forall|j: int| 0 <= j < tabs.len() ==> tabs[j] != t,
        },
    decreases tabs.len(),
{
    if tabs.len() > 0 {
        let d = tabs.drop_last();
        lemma_tab_pos(d, t);
        assert forall|j: int| 0 <= j < d.len() implies d[j] == tabs[j] by {}
        assert(tabs[tabs.len() - 1] == tabs.last());
    }
}

/// Index of the first `t` in `tabs`.
fn position(tabs: &Vec<u64>, t: u64) -> (r: Option<usize>)
    ensures
        match r {
            Some(i) => tab_pos(tabs@, t) == Some(i as int),
            None => tab_pos(tabs@, t) is None,
        },
{
    proof {
        lemma_tab_pos(tabs@, t);
    }
    let mut i: usize = 0;
    while i < tabs.len()
        invariant
            i <= tabs@.len(),
            forall|j: int| 0 <= j < i ==> tabs@[j] != t,
        decreases tabs.len() - i,
    {
        if tabs[i] == t {
            proof {
                lemma_tab_pos(tabs@, t);
                match tab_pos(tabs@, t) {
                    Some(k) => {
                        if k < i {
                            assert(tabs@[k] != t);
                        } else if k > i {
                            assert(tabs@[i as int] != t);
                        }
                    },
                    None => {
                        assert(tabs@[i as int] != t);
                    },
                }
            }
            return Some(i);
        }
        i = i + 1;
    }
    None
}

/// The first workspace, from index `k`, holding `t`, with its position.
pub open spec fn find_tab_from(ws: Seq<WorkspaceView>, t: u64, k: int) -> Option<(int, int)>
    decreases ws.len() - k,
{
    if k < 0 || k >= ws.len() {
        None
    } else {
        match tab_pos(ws[k].tabs, t) {
            Some(i) => Some((k, i)),
            None => find_tab_from(ws, t, k + 1),
        }
    }
}

/// The workspace without tab `t`, its focus kept on the same tab where it can be.
pub open spec fn ws_without(w: WorkspaceView, t: u64) -> WorkspaceView {
    match tab_pos(w.tabs, t) {
        None => w,
        Some(idx) => {
            let tabs = w.tabs.remove(idx);
            let active = match w.active_tab {
                Some(a) => if tabs.len() == 0 {
                    None
                } else if a > idx {
                    Some((a - 1) as usize)
                } else if a >= tabs.len() {
                    Some((tabs.len() - 1) as usize)
                } else {
                    Some(a)
                },
                None => None,
            };
            WorkspaceView { tabs, active_tab: active }
        },
    }
}

/// The tabs of a workspace that have a working directory, with it.
pub open spec fn tabs_with_cwds(tabs: Seq<u64>, cwds: Map<u64, String>) -> Seq<(u64, Seq<char>)>
    decreases tabs.len(),
{
    if tabs.len() == 0 {
        seq![]
    } else {
        let rest = tabs_with_cwds(tabs.drop_last(), cwds);
        let t = tabs.last();
        if cwds.contains_key(t) {
            rest.push((t, cwds[t]@))
        } else {
            rest
        }
    }
}

/// The trimmed text, when it is not blank.
pub open spec fn trimmed_nonblank(v: Option<Seq<char>>) -> Option<Seq<char>> {
    match v {
        Some(s) => if text::trim(s).len() > 0 {
            Some(text::trim(s))
        } else {
            None
        },
        None => None,
    }
}

/// Whether some favourite is the path `p`.
/// The mode after `m` in the cycle off, soft, on.
pub open spec fn next_mode(m: AttentionMode) -> AttentionMode {
    match m {
        AttentionMode::Off => AttentionMode::Soft,
        AttentionMode::Soft => AttentionMode::On,
        AttentionMode::On => AttentionMode::Off,
    }
}

/// How long a project stays idle before it asks for attention, by default.
pub fn default_attention_idle_delay_seconds() -> (r: u64)
    ensures
        r == DEFAULT_ATTENTION_IDLE_DELAY_SECONDS,
{
    DEFAULT_ATTENTION_IDLE_DELAY_SECONDS
}

pub open spec fn has_path(l: Seq<String>, p: Seq<char>) -> bool {
    exists|i: int| 0 <= i < l.len() && paths::paths_equal(l[i]@, p)
}

/// `l` without the paths equal to `p`.
pub open spec fn without_path(l: Seq<String>, p: Seq<char>) -> Seq<String> {
    l.filter(|x: String| !paths::paths_equal(x@, p))
}

/// The recent projects after opening `p`: `p` first, then the others in
/// their order, `MAX_RECENT_PROJECTS` at most.
pub open spec fn recents_after(l: Seq<String>, p: String) -> Seq<String> {
    let r = seq![p] + without_path(l, p@);
    if r.len() > 48 {
        r.take(48)
    } else {
        r
    }
}

/// Trims `v`, giving `None` when nothing is left.
fn trimmed_value(v: Option<String>) -> (r: Option<String>)
    ensures
        paths::opt_string_view(r) == trimmed_nonblank(paths::opt_string_view(v)),
{
    match v {
        Some(s) => {
            let t = text::trim_string(s.as_str());
            if t.as_str().is_empty() {
                None
            } else {
                Some(t)
            }
        },
        None => None,
    }
}

/// `l` without the paths equal to `p`.
fn retain_other_paths(l: &Vec<String>, p: &str) -> (r: Vec<String>)
    ensures
        r@ == without_path(l@, p@),
{
    let ghost pred = |x: String| !paths::paths_equal(x@, p@);
    let mut r: Vec<String> = Vec::new();
    let mut i: usize = 0;
    assert(l@.take(0).filter(pred) =~= seq![]);
    while i < l.len()
        invariant
            i <= l@.len(),
            pred == (|x: String| !paths::paths_equal(x@, p@)),
            r@ == l@.take(i as int).filter(pred),
        decreases l.len() - i,
    {
        if !same_path(l[i].as_str(), p) {
            r.push(l[i].clone());
        }
        proof {
            let t = l@.take(i + 1);
            assert(t.drop_last() =~= l@.take(i as int));
            reveal_with_fuel(Seq::filter, 1);
        }
        i = i + 1;
    }
    assert(l@.take(l@.len() as int) =~= l@);
    r
}

/// The navigation state: what is saved, the open workspaces of tabs, the
/// focused workspace, and the working directory of each tab's thread.
pub struct ProjectNavigationState {
    persisted: PersistedProjectNavigationState,
    workspaces: Vec<ProjectWorkspace>,
    active_workspace: usize,
    tab_cwds: HashMap<u64, String>,
}

impl ProjectNavigationState {
    pub closed spec fn saved(self) -> PersistedProjectNavigationState {
        self.persisted
    }

    pub closed spec fn spaces(self) -> Seq<WorkspaceView> {
        wss_view(self.workspaces@)
    }

    pub closed spec fn active(self) -> usize {
        self.active_workspace
    }

    pub closed spec fn cwds(self) -> Map<u64, String> {
        self.tab_cwds@
    }

    /// There is a workspace, the focused one exists, and each workspace's
    /// focus is on one of its tabs.
    pub open spec fn wf(self) -> bool {
        &&& self.active() < self.spaces().len()
        &&& forall|k: int| 0 <= k < self.spaces().len() ==> focus_in_range(#[trigger] self.spaces()[k])
    }

    /// One empty workspace, focused, and `persisted` as the saved state.
    pub fn with_persisted(persisted: PersistedProjectNavigationState) -> (s: Self)
        ensures
            s.wf(),
            s.saved() == persisted,
            s.spaces() == seq![WorkspaceView { tabs: seq![], active_tab: None }],
            s.active() == 0,
            s.cwds() == Map::<u64, String>::empty(),
    {
        let mut workspaces: Vec<ProjectWorkspace> = Vec::new();
        workspaces.push(ProjectWorkspace { tabs: Vec::new(), active_tab: None });
        let s = ProjectNavigationState { persisted, workspaces, active_workspace: 0, tab_cwds: HashMap::new() };
        assert(s.spaces() =~= seq![WorkspaceView { tabs: seq![], active_tab: None }]);
        s
    }

    /// The state with nothing saved.
    pub fn default_persisted() -> (p: PersistedProjectNavigationState)
        ensures
            p.favorites@.len() == 0,
            p.recents@.len() == 0,
            p.favorite_descriptions@.len() == 0,
            p.workspace_names@.len() == 0,
            p.attention_mode == AttentionMode::Soft,
            p.attention_idle_delay_seconds == DEFAULT_ATTENTION_IDLE_DELAY_SECONDS,
            p.saved_workspace_session is None,
    {
        PersistedProjectNavigationState {
            favorites: Vec::new(),
            recents: Vec::new(),
            favorite_descriptions: Vec::new(),
            workspace_names: Vec::new(),
            attention_mode: AttentionMode::default_mode(),
            attention_idle_delay_seconds: DEFAULT_ATTENTION_IDLE_DELAY_SECONDS,
            saved_workspace_session: None,
        }
    }

    /// What is saved.
    pub fn persisted(&self) -> (p: &PersistedProjectNavigationState)
        ensures
            *p == self.saved(),
    {
        &self.persisted
    }

    /// Replaces what is saved, keeping the open tabs.
    pub fn replace_persisted(&mut self, persisted: PersistedProjectNavigationState)
        ensures
            final(self).saved() == persisted,
            final(self).spaces() == old(self).spaces(),
            final(self).active() == old(self).active(),
            final(self).cwds() == old(self).cwds(),
    {
        self.persisted = persisted;
    }

    pub fn active_workspace_index(&self) -> (i: usize)
        ensures
            i == self.active(),
    {
        self.active_workspace
    }

    pub fn workspace_count(&self) -> (n: usize)
        ensures
            n == self.spaces().len(),
    {
        self.workspaces.len()
    }

    /// Whether the focused workspace has no tab.
    pub fn active_workspace_is_empty(&self) -> (b: bool)
        ensures
            b == (self.active() >= self.spaces().len() || self.spaces()[self.active() as int].tabs.len() == 0),
    {
        if self.active_workspace < self.workspaces.len() {
            self.workspaces[self.active_workspace].tabs.len() == 0
        } else {
            true
        }
    }

    /// The name of workspace `index`: its custom name when set and not
    /// blank, else `Workspace <index + 1>`.
    pub fn workspace_name(&self, index: usize) -> (s: String)
        requires
            index < usize::MAX,
        ensures
            s@ == {
                let names = self.saved().workspace_names@;
                let custom = if index < names.len() {
                    paths::opt_string_view(names[index as int])
                } else {
                    None
                };
                match custom {
                    Some(n) => if text::trim(n).len() > 0 {
                        n
                    } else {
                        "Workspace "@ + text::decimal((index + 1) as nat)
                    },
                    None => "Workspace "@ + text::decimal((index + 1) as nat),
                }
            },
    {
        if index < self.persisted.workspace_names.len() {
            match &self.persisted.workspace_names[index] {
                Some(n) => {
                    if !text::is_blank_str(n.as_str()) {
                        proof {
                            text::lemma_trim_start_blank(n@);
                            text::lemma_trim_end_blank(text::trim_start(n@));
                        }
                        return n.clone();
                    }
                    proof {
                        text::lemma_trim_start_blank(n@);
                    }
                },
                None => {},
            }
        }
        let mut v = text::chars_of("Workspace ");
        text::push_decimal(&mut v, index + 1);
        text::string_of(v.as_slice())
    }

    /// The custom name of workspace `index`, trimmed, when set and not blank.
    pub fn custom_workspace_name(&self, index: usize) -> (r: Option<String>)
        ensures
            paths::opt_string_view(r) == if index < self.saved().workspace_names@.len() {
                trimmed_nonblank(paths::opt_string_view(self.saved().workspace_names@[index as int]))
            } else {
                None
            },
    {
        if index < self.persisted.workspace_names.len() {
            match &self.persisted.workspace_names[index] {
                Some(n) => trimmed_value(Some(n.clone())),
                None => None,
            }
        } else {
            None
        }
    }

    /// Names workspace `index` (a blank name clears it).
    pub fn set_workspace_name(&mut self, index: usize, name: Option<String>)
        requires
            index < usize::MAX,
        ensures
            ({
                let old_names = old(self).saved().workspace_names@;
                let names = final(self).saved().workspace_names@;
                &&& names.len() == vstd::math::max(old_names.len() as int, index + 1)
                &&& paths::opt_string_view(names[index as int]) == trimmed_nonblank(paths::opt_string_view(name))
                &&& forall|j: int| 0 <= j < names.len() && j != index ==> #[trigger] names[j] == if j < old_names.len() {
                    old_names[j]
                } else {
                    None
                }
            }),
            final(self).saved().favorites == old(self).saved().favorites,
            final(self).saved().recents == old(self).saved().recents,
            final(self).spaces() == old(self).spaces(),
            final(self).active() == old(self).active(),
            final(self).cwds() == old(self).cwds(),
    {
        while self.persisted.workspace_names.len() <= index
            invariant
                index < usize::MAX,
                self.persisted.workspace_names@.len() >= old(self).persisted.workspace_names@.len(),
                self.persisted.workspace_names@.len() <= vstd::math::max(
                    old(self).persisted.workspace_names@.len() as int,
                    index + 1,
                ),
                forall|j: int|
                    0 <= j < self.persisted.workspace_names@.len() ==> #[trigger] self.persisted.workspace_names@[j] == if j
                        < old(self).persisted.workspace_names@.len() {
                        old(self).persisted.workspace_names@[j]
                    } else {
                        None
                    },
                self.persisted.favorites == old(self).persisted.favorites,
                self.persisted.recents == old(self).persisted.recents,
                self.workspaces == old(self).workspaces,
                self.active_workspace == old(self).active_workspace,
                self.tab_cwds == old(self).tab_cwds,
            decreases index + 1 - self.persisted.workspace_names@.len(),
        {
            self.persisted.workspace_names.push(None);
        }
        let v = trimmed_value(name);
        self.persisted.workspace_names.set(index, v);
    }
}

/// The description stored for `p`: that of the first entry whose path is `p`.
pub open spec fn description_of(l: Seq<(String, String)>, p: Seq<char>) -> Option<Seq<char>>
    decreases l.len(),
{
    if l.len() == 0 {
        None
    } else if paths::paths_equal(l[0].0@, p) {
        Some(l[0].1@)
    } else {
        description_of(l.drop_first(), p)
    }
}

/// Index of the first entry whose path is `p`.
pub open spec fn description_index(l: Seq<(String, String)>, p: Seq<char>) -> Option<int>
    decreases l.len(),
{
    if l.len() == 0 {
        None
    } else if paths::paths_equal(l[0].0@, p) {
        Some(0)
    } else {
        match description_index(l.drop_first(), p) {
            Some(i) => Some(i + 1),
            None => None,
        }
    }
}

/// The descriptions without those of path `p`.
pub open spec fn descriptions_without(l: Seq<(String, String)>, p: Seq<char>) -> Seq<(String, String)> {
    l.filter(|e: (String, String)| !paths::paths_equal(e.0@, p))
}

fn find_description(l: &Vec<(String, String)>, p: &str) -> (r: Option<usize>)
    ensures
        match r {
            Some(i) => description_index(l@, p@) == Some(i as int) && i < l@.len() && description_of(l@, p@) == Some(
                l@[i as int].1@,
            ),
            None => description_index(l@, p@) is None && description_of(l@, p@) is None,
        },
{
    let mut i: usize = 0;
    assert(l@.skip(0) =~= l@);
    while i < l.len()
        invariant
            i <= l@.len(),
            description_index(l@, p@) == match description_index(l@.skip(i as int), p@) {
                Some(k) => Some(k + i),
                None => None,
            },
            description_of(l@, p@) == description_of(l@.skip(i as int), p@),
        decreases l.len() - i,
    {
        assert(l@.skip(i as int).drop_first() =~= l@.skip(i + 1));
        assert(l@.skip(i as int)[0] == l@[i as int]);
        if same_path(l[i].0.as_str(), p) {
            return Some(i);
        }
        i = i + 1;
    }
    None
}

impl ProjectNavigationState {
    /// The favourite project paths, most recently added first.
    pub fn favorites(&self) -> (v: &Vec<String>)
        ensures
            v@ == self.saved().favorites@,
    {
        &self.persisted.favorites
    }

    /// The recent project paths, most recent first.
    pub fn recents(&self) -> (v: &Vec<String>)
        ensures
            v@ == self.saved().recents@,
    {
        &self.persisted.recents
    }

    /// Whether `path` is a favourite.
    pub fn is_favorite(&self, path: &str) -> (b: bool)
        ensures
            b == has_path(self.saved().favorites@, path@),
    {
        let favs = &self.persisted.favorites;
        let mut i: usize = 0;
        while i < favs.len()
            invariant
                i <= favs@.len(),
                favs@ == self.saved().favorites@,
                forall|j: int| 0 <= j < i ==> !paths::paths_equal(favs@[j]@, path@),
            decreases favs.len() - i,
        {
            if same_path(favs[i].as_str(), path) {
                return true;
            }
            i = i + 1;
        }
        false
    }

    /// Adds `path` in front of the favourites, unless it is one.
    pub fn add_favorite(&mut self, path: String)
        ensures
            final(self).saved().favorites@ == if has_path(old(self).saved().favorites@, path@) {
                old(self).saved().favorites@
            } else {
                seq![path].add(old(self).saved().favorites@)
            },
            final(self).saved().recents == old(self).saved().recents,
            final(self).saved().favorite_descriptions == old(self).saved().favorite_descriptions,
            final(self).spaces() == old(self).spaces(),
            final(self).active() == old(self).active(),
            final(self).cwds() == old(self).cwds(),
    {
        if self.is_favorite(path.as_str()) {
            return;
        }
        self.persisted.favorites.insert(0, path);
        assert(self.persisted.favorites@ =~= seq![path].add(old(self).persisted.favorites@));
    }

    /// Forgets `path` as a favourite, with its description.
    pub fn remove_favorite(&mut self, path: &str)
        ensures
            final(self).saved().favorites@ == without_path(old(self).saved().favorites@, path@),
            final(self).saved().favorite_descriptions@ == descriptions_without(
                old(self).saved().favorite_descriptions@,
                path@,
            ),
            final(self).saved().recents == old(self).saved().recents,
            final(self).spaces() == old(self).spaces(),
            final(self).active() == old(self).active(),
            final(self).cwds() == old(self).cwds(),
    {
        self.persisted.favorites = retain_other_paths(&self.persisted.favorites, path);
        let l = &self.persisted.favorite_descriptions;
        let ghost pred = |e: (String, String)| !paths::paths_equal(e.0@, path@);
        let mut r: Vec<(String, String)> = Vec::new();
        let mut i: usize = 0;
        assert(l@.take(0).filter(pred) =~= seq![]);
        while i < l.len()
            invariant
                i <= l@.len(),
                pred == (|e: (String, String)| !paths::paths_equal(e.0@, path@)),
                r@ == l@.take(i as int).filter(pred),
            decreases l.len() - i,
        {
            if !same_path(l[i].0.as_str(), path) {
                let e = (l[i].0.clone(), l[i].1.clone());
                assert(e == l@[i as int]) by {
                    assert(e.0 == l@[i as int].0);
                    assert(e.1 == l@[i as int].1);
                }
                r.push(e);
            }
            proof {
                let t = l@.take(i + 1);
                assert(t.drop_last() =~= l@.take(i as int));
                reveal_with_fuel(Seq::filter, 1);
            }
            i = i + 1;
        }
        assert(l@.take(l@.len() as int) =~= l@);
        self.persisted.favorite_descriptions = r;
    }

    /// Adds or removes `path` as a favourite; returns whether it now is one.
    pub fn toggle_favorite(&mut self, path: String) -> (b: bool)
        ensures
            b == !has_path(old(self).saved().favorites@, path@),
            final(self).saved().favorites@ == if b {
                seq![path].add(old(self).saved().favorites@)
            } else {
                without_path(old(self).saved().favorites@, path@)
            },
            final(self).saved().recents == old(self).saved().recents,
            final(self).spaces() == old(self).spaces(),
            final(self).active() == old(self).active(),
            final(self).cwds() == old(self).cwds(),
    {
        if self.is_favorite(path.as_str()) {
            self.remove_favorite(path.as_str());
            false
        } else {
            self.add_favorite(path);
            true
        }
    }

    /// Records `path` as the most recent project: it moves to the front,
    /// and no more than `MAX_RECENT_PROJECTS` are kept.
    pub fn record_recent(&mut self, path: String)
        ensures
            final(self).saved().recents@ == recents_after(old(self).saved().recents@, path),
            final(self).saved().favorites == old(self).saved().favorites,
            final(self).spaces() == old(self).spaces(),
            final(self).active() == old(self).active(),
            final(self).cwds() == old(self).cwds(),
    {
        let mut r = retain_other_paths(&self.persisted.recents, path.as_str());
        let ghost rest = r@;
        r.insert(0, path);
        assert(r@ =~= seq![path] + rest);
        if r.len() > MAX_RECENT_PROJECTS {
            r.truncate(MAX_RECENT_PROJECTS);
        }
        self.persisted.recents = r;
    }

    /// Forgets `path` as a recent project.
    pub fn remove_recent(&mut self, path: &str)
        ensures
            final(self).saved().recents@ == without_path(old(self).saved().recents@, path@),
            final(self).saved().favorites == old(self).saved().favorites,
            final(self).spaces() == old(self).spaces(),
            final(self).active() == old(self).active(),
            final(self).cwds() == old(self).cwds(),
    {
        self.persisted.recents = retain_other_paths(&self.persisted.recents, path);
    }

    /// The description of favourite `path`.
    pub fn favorite_description(&self, path: &str) -> (r: Option<String>)
        ensures
            paths::opt_string_view(r) == description_of(self.saved().favorite_descriptions@, path@),
    {
        match find_description(&self.persisted.favorite_descriptions, path) {
            Some(i) => Some(self.persisted.favorite_descriptions[i].1.clone()),
            None => None,
        }
    }

    /// Sets the description of favourite `path`, trimmed; a blank or absent
    /// description removes it.
    pub fn set_favorite_description(&mut self, path: String, description: Option<String>)
        ensures
            ({
                let old_l = old(self).saved().favorite_descriptions@;
                let l = final(self).saved().favorite_descriptions@;
                match trimmed_nonblank(paths::opt_string_view(description)) {
                    None => l == descriptions_without(old_l, path@),
                    Some(d) => match description_index(old_l, path@) {
                        Some(i) => l.len() == old_l.len() && l[i].0 == old_l[i].0 && l[i].1@ == d && forall|j: int|
                            0 <= j < l.len() && j != i ==> l[j] == old_l[j],
                        None => l.len() == old_l.len() + 1 && l.last().0 == path && l.last().1@ == d
                            && l.drop_last() == old_l,
                    },
                }
            }),
            final(self).saved().favorites == old(self).saved().favorites,
            final(self).saved().recents == old(self).saved().recents,
            final(self).spaces() == old(self).spaces(),
            final(self).active() == old(self).active(),
            final(self).cwds() == old(self).cwds(),
    {
        match trimmed_value(description) {
            None => self.remove_favorite_description(path.as_str()),
            Some(d) => match find_description(&self.persisted.favorite_descriptions, path.as_str()) {
                Some(i) => {
                    let key = self.persisted.favorite_descriptions[i].0.clone();
                    self.persisted.favorite_descriptions.set(i, (key, d));
                },
                None => {
                    self.persisted.favorite_descriptions.push((path, d));
                    assert(self.persisted.favorite_descriptions@.drop_last() =~= old(self).persisted.favorite_descriptions@);
                },
            },
        }
    }

    fn remove_favorite_description(&mut self, path: &str)
        ensures
            final(self).saved().favorite_descriptions@ == descriptions_without(
                old(self).saved().favorite_descriptions@,
                path@,
            ),
            final(self).saved().favorites == old(self).saved().favorites,
            final(self).saved().recents == old(self).saved().recents,
            final(self).spaces() == old(self).spaces(),
            final(self).active() == old(self).active(),
            final(self).cwds() == old(self).cwds(),
    {
        let l = &self.persisted.favorite_descriptions;
        let ghost pred = |e: (String, String)| !paths::paths_equal(e.0@, path@);
        let mut r: Vec<(String, String)> = Vec::new();
        let mut i: usize = 0;
        assert(l@.take(0).filter(pred) =~= seq![]);
        while i < l.len()
            invariant
                i <= l@.len(),
                pred == (|e: (String, String)| !paths::paths_equal(e.0@, path@)),
                r@ == l@.take(i as int).filter(pred),
            decreases l.len() - i,
        {
            if !same_path(l[i].0.as_str(), path) {
                let e = (l[i].0.clone(), l[i].1.clone());
                assert(e == l@[i as int]) by {
                    assert(e.0 == l@[i as int].0);
                    assert(e.1 == l@[i as int].1);
                }
                r.push(e);
            }
            proof {
                let t = l@.take(i + 1);
                assert(t.drop_last() =~= l@.take(i as int));
                reveal_with_fuel(Seq::filter, 1);
            }
            i = i + 1;
        }
        assert(l@.take(l@.len() as int) =~= l@);
        self.persisted.favorite_descriptions = r;
    }

    pub fn attention_mode(&self) -> (m: AttentionMode)
        ensures
            m == self.saved().attention_mode,
    {
        self.persisted.attention_mode
    }

    pub fn set_attention_mode(&mut self, mode: AttentionMode)
        ensures
            final(self).saved().attention_mode == mode,
            final(self).saved().favorites == old(self).saved().favorites,
            final(self).saved().recents == old(self).saved().recents,
            final(self).spaces() == old(self).spaces(),
            final(self).active() == old(self).active(),
            final(self).cwds() == old(self).cwds(),
    {
        self.persisted.attention_mode = mode;
    }

    pub fn attention_markers_enabled(&self) -> (b: bool)
        ensures
            b == (self.saved().attention_mode != AttentionMode::Off),
    {
        self.persisted.attention_mode.shows_markers()
    }

    pub fn attention_auto_switches(&self) -> (b: bool)
        ensures
            b == (self.saved().attention_mode == AttentionMode::On),
    {
        self.persisted.attention_mode.auto_switches()
    }

    pub fn attention_idle_delay_seconds(&self) -> (n: u64)
        ensures
            n == self.saved().attention_idle_delay_seconds,
    {
        self.persisted.attention_idle_delay_seconds
    }

    /// The working directory of `thread_id`'s tab.
    pub fn tab_cwd(&self, thread_id: u64) -> (r: Option<String>)
        ensures
            match r {
                Some(c) => self.cwds().contains_key(thread_id) && c@ == self.cwds()[thread_id]@,
                None => !self.cwds().contains_key(thread_id),
            },
    {
        match self.tab_cwds.get(&thread_id) {
            Some(c) => Some(c.clone()),
            None => None,
        }
    }
}

/// The tab the workspace shows: its focused tab, or else its first.
pub open spec fn shown_tab(w: WorkspaceView) -> Option<u64> {
    match w.active_tab {
        Some(i) => if i < w.tabs.len() {
            Some(w.tabs[i as int])
        } else if w.tabs.len() > 0 {
            Some(w.tabs[0])
        } else {
            None
        },
        None => if w.tabs.len() > 0 {
            Some(w.tabs[0])
        } else {
            None
        },
    }
}

/// The position a new tab goes to: beside the anchor, or at the end.
pub open spec fn insert_index(tabs: Seq<u64>, anchor: Option<u64>, placement: NewTabPlacement) -> int {
    match anchor {
        Some(a) => match tab_pos(tabs, a) {
            Some(i) => match placement {
                NewTabPlacement::Left => i,
                NewTabPlacement::Right => i + 1,
            },
            None => tabs.len() as int,
        },
        None => tabs.len() as int,
    }
}

/// The first tab, in workspace order, whose working directory is the path `cwd`.
pub open spec fn thread_for_cwd_from(ws: Seq<WorkspaceView>, cwds: Map<u64, String>, cwd: Seq<char>, k: int, i: int) -> Option<(int, u64)>
    decreases ws.len() - k, (if 0 <= k < ws.len() { ws[k].tabs.len() - i } else { 0 }),
{
    if k < 0 || k >= ws.len() {
        None
    } else if i < 0 || i >= ws[k].tabs.len() {
        thread_for_cwd_from(ws, cwds, cwd, k + 1, 0)
    } else {
        let t = ws[k].tabs[i];
        if cwds.contains_key(t) && paths::paths_equal(cwds[t]@, cwd) {
            Some((k, t))
        } else {
            thread_for_cwd_from(ws, cwds, cwd, k, i + 1)
        }
    }
}

/// The tabs of the first `k` workspaces that have a working directory.
pub open spec fn all_tabs(ws: Seq<WorkspaceView>, cwds: Map<u64, String>, k: int) -> Seq<(usize, u64, Seq<char>)>
    decreases k,
{
    if k <= 0 {
        seq![]
    } else {
        all_tabs(ws, cwds, k - 1) + tabs_with_cwds(ws[k - 1].tabs, cwds).map_values(
            |x: (u64, Seq<char>)| ((k - 1) as usize, x.0, x.1),
        )
    }
}

fn tabs_with_cwds_exec(tabs: &Vec<u64>, cwds: &HashMap<u64, String>) -> (r: Vec<(u64, String)>)
    ensures
        r@.map_values(|x: (u64, String)| (x.0, x.1@)) == tabs_with_cwds(tabs@, cwds@),
{
    let mut r: Vec<(u64, String)> = Vec::new();
    let mut i: usize = 0;
    assert(tabs@.take(0) =~= seq![]);
    assert(r@.map_values(|x: (u64, String)| (x.0, x.1@)) =~= seq![]);
    while i < tabs.len()
        invariant
            i <= tabs@.len(),
            r@.map_values(|x: (u64, String)| (x.0, x.1@)) == tabs_with_cwds(tabs@.take(i as int), cwds@),
        decreases tabs.len() - i,
    {
        let t = tabs[i];
        let ghost before = r@;
        match cwds.get(&t) {
            Some(c) => {
                r.push((t, c.clone()));
            },
            None => {},
        }
        proof {
            let tk = tabs@.take(i + 1);
            assert(tk.drop_last() =~= tabs@.take(i as int));
            assert(tk.last() == t);
            assert(r@.map_values(|x: (u64, String)| (x.0, x.1@)) =~= tabs_with_cwds(tk, cwds@));
        }
        i = i + 1;
    }
    assert(tabs@.take(tabs@.len() as int) =~= tabs@);
    r
}

impl ProjectNavigationState {
    /// Where `thread_id` has a tab: the first workspace holding it, and its position.
    pub fn find_tab(&self, thread_id: u64) -> (r: Option<(usize, usize)>)
        ensures
            match r {
                Some((w, t)) => find_tab_from(self.spaces(), thread_id, 0) == Some((w as int, t as int)),
                None => find_tab_from(self.spaces(), thread_id, 0) is None,
            },
    {
        let mut k: usize = 0;
        while k < self.workspaces.len()
            invariant
                k <= self.workspaces@.len(),
                self.spaces().len() == self.workspaces@.len(),
                find_tab_from(self.spaces(), thread_id, 0) == find_tab_from(self.spaces(), thread_id, k as int),
            decreases self.workspaces.len() - k,
        {
            assert(self.spaces()[k as int] == ws_view(self.workspaces@[k as int]));
            match position(&self.workspaces[k].tabs, thread_id) {
                Some(i) => return Some((k, i)),
                None => {},
            }
            k = k + 1;
        }
        None
    }

    /// Gives `thread_id` a tab at the end of the focused workspace, focused,
    /// unless it has one somewhere.
    fn ensure_thread_in_active_workspace(&mut self, thread_id: u64)
        requires
            old(self).wf(),
        ensures
            final(self).wf(),
            final(self).saved() == old(self).saved(),
            final(self).cwds() == old(self).cwds(),
            final(self).active() == old(self).active(),
            final(self).spaces() == if find_tab_from(old(self).spaces(), thread_id, 0) is Some {
                old(self).spaces()
            } else {
                let w = old(self).spaces()[old(self).active() as int];
                old(self).spaces().update(
                    old(self).active() as int,
                    WorkspaceView { tabs: w.tabs.push(thread_id), active_tab: Some(w.tabs.len() as usize) },
                )
            },
    {
        if self.find_tab(thread_id).is_some() {
            return;
        }
        let ghost before = self.spaces();
        let a = self.active_workspace;
        let mut w = self.workspaces.remove(a);
        w.tabs.push(thread_id);
        w.active_tab = Some(w.tabs.len() - 1);
        self.workspaces.insert(a, w);
        proof {
            let want = before.update(
                a as int,
                WorkspaceView { tabs: before[a as int].tabs.push(thread_id), active_tab: Some(before[a as int].tabs.len() as usize) },
            );
            assert(self.spaces() =~= want);
        }
    }

    /// Records the working directory of `thread_id` and gives it a tab.
    pub fn remember_project_thread(&mut self, thread_id: u64, cwd: String)
        requires
            old(self).wf(),
        ensures
            final(self).wf(),
            final(self).saved() == old(self).saved(),
            final(self).cwds() == old(self).cwds().insert(thread_id, cwd),
            final(self).active() == old(self).active(),
            final(self).spaces() == if find_tab_from(old(self).spaces(), thread_id, 0) is Some {
                old(self).spaces()
            } else {
                let w = old(self).spaces()[old(self).active() as int];
                old(self).spaces().update(
                    old(self).active() as int,
                    WorkspaceView { tabs: w.tabs.push(thread_id), active_tab: Some(w.tabs.len() as usize) },
                )
            },
    {
        self.tab_cwds.insert(thread_id, cwd);
        self.ensure_thread_in_active_workspace(thread_id);
    }

    /// Closes the tabs of `thread_id` in every workspace, keeping each
    /// workspace's focus on the same tab where it can.
    pub fn remove_thread(&mut self, thread_id: u64)
        requires
            old(self).wf(),
        ensures
            final(self).wf(),
            final(self).saved() == old(self).saved(),
            final(self).cwds() == old(self).cwds().remove(thread_id),
            final(self).active() == old(self).active(),
            final(self).spaces() == old(self).spaces().map_values(|w: WorkspaceView| ws_without(w, thread_id)),
    {
        self.tab_cwds.remove(&thread_id);
        let ghost before = self.spaces();
        let mut k: usize = 0;
        while k < self.workspaces.len()
            invariant
                k <= self.workspaces@.len() == before.len(),
                self.active_workspace == old(self).active_workspace,
                self.persisted == old(self).persisted,
                self.tab_cwds@ == old(self).tab_cwds@.remove(thread_id),
                forall|j: int| 0 <= j < before.len() ==> focus_in_range(#[trigger] before[j]),
                forall|j: int|
                    0 <= j < before.len() ==> #[trigger] self.spaces()[j] == if j < k {
                        ws_without(before[j], thread_id)
                    } else {
                        before[j]
                    },
            decreases self.workspaces.len() - k,
        {
            assert(self.spaces()[k as int] == ws_view(self.workspaces@[k as int]));
            proof {
                lemma_tab_pos(self.workspaces@[k as int].tabs@, thread_id);
            }
            match position(&self.workspaces[k].tabs, thread_id) {
                Some(idx) => {
                    let ghost prev = self.spaces();
                    let mut w = self.workspaces.remove(k);
                    w.tabs.remove(idx);
                    let n = w.tabs.len();
                    w.active_tab = match w.active_tab {
                        Some(a) => if n == 0 {
                            None
                        } else if a > idx {
                            Some(a - 1)
                        } else if a >= n {
                            Some(n - 1)
                        } else {
                            Some(a)
                        },
                        None => None,
                    };
                    self.workspaces.insert(k, w);
                    proof {
                        assert forall|j: int| 0 <= j < before.len() implies #[trigger] self.spaces()[j] == if j < k + 1 {
                            ws_without(before[j], thread_id)
                        } else {
                            before[j]
                        } by {
                            if j != k {
                                assert(self.spaces()[j] == prev[j]);
                            } else {
                                assert(w.tabs@ =~= before[j].tabs.remove(idx as int));
                            }
                        }
                    }
                },
                None => {},
            }
            k = k + 1;
        }
        proof {
            let want = before.map_values(|w: WorkspaceView| ws_without(w, thread_id));
            assert(self.spaces() =~= want);
            assert forall|j: int| 0 <= j < self.spaces().len() implies focus_in_range(#[trigger] self.spaces()[j]) by {
                lemma_tab_pos(before[j].tabs, thread_id);
            }
        }
    }

    /// Opens a tab for `thread_id` (closing any it had) in the focused
    /// workspace, beside the anchor's tab or at the end, and focuses it.
    pub fn insert_project_thread(&mut self, thread_id: u64, cwd: String, anchor_thread_id: Option<u64>, placement: NewTabPlacement)
        requires
            old(self).wf(),
        ensures
            final(self).wf(),
            final(self).saved() == old(self).saved(),
            final(self).cwds() == old(self).cwds().remove(thread_id).insert(thread_id, cwd),
            final(self).active() == old(self).active(),
            ({
                let cleared = old(self).spaces().map_values(|w: WorkspaceView| ws_without(w, thread_id));
                let w = cleared[old(self).active() as int];
                let i = insert_index(w.tabs, anchor_thread_id, placement);
                final(self).spaces() == cleared.update(
                    old(self).active() as int,
                    WorkspaceView { tabs: w.tabs.insert(i, thread_id), active_tab: Some(i as usize) },
                )
            }),
    {
        self.remove_thread(thread_id);
        self.tab_cwds.insert(thread_id, cwd);
        let ghost cleared = self.spaces();
        let a = self.active_workspace;
        let mut w = self.workspaces.remove(a);
        let _n = w.tabs.len();
        proof {
            lemma_tab_pos(w.tabs@, if let Some(an) = anchor_thread_id { an } else { 0 });
        }
        let idx = match anchor_thread_id {
            Some(anchor) => match position(&w.tabs, anchor) {
                Some(i) => match placement {
                    NewTabPlacement::Left => i,
                    NewTabPlacement::Right => i + 1,
                },
                None => w.tabs.len(),
            },
            None => w.tabs.len(),
        };
        proof {
            lemma_tab_pos(w.tabs@, if let Some(an) = anchor_thread_id { an } else { 0 });
        }
        w.tabs.insert(idx, thread_id);
        w.active_tab = Some(idx);
        self.workspaces.insert(a, w);
        proof {
            let cw = cleared[a as int];
            let want = cleared.update(
                a as int,
                WorkspaceView { tabs: cw.tabs.insert(idx as int, thread_id), active_tab: Some(idx) },
            );
            assert(self.spaces() =~= want);
        }
    }

    /// Focuses the tab of `thread_id`, and its workspace, if it has one.
    pub fn set_active_thread(&mut self, thread_id: u64)
        requires
            old(self).wf(),
        ensures
            final(self).wf(),
            final(self).saved() == old(self).saved(),
            final(self).cwds() == old(self).cwds(),
            match find_tab_from(old(self).spaces(), thread_id, 0) {
                Some((w, t)) => final(self).active() == w && final(self).spaces() == old(self).spaces().update(
                    w,
                    WorkspaceView { tabs: old(self).spaces()[w].tabs, active_tab: Some(t as usize) },
                ),
                None => final(self).active() == old(self).active() && final(self).spaces() == old(self).spaces(),
            },
    {
        match self.find_tab(thread_id) {
            Some((w, t)) => {
                proof {
                    lemma_find_tab(self.spaces(), thread_id, 0);
                }
                let ghost before = self.spaces();
                self.active_workspace = w;
                let mut ws = self.workspaces.remove(w);
                ws.active_tab = Some(t);
                self.workspaces.insert(w, ws);
                assert(self.spaces() =~= before.update(
                    w as int,
                    WorkspaceView { tabs: before[w as int].tabs, active_tab: Some(t) },
                ));
            },
            None => {},
        }
    }

    /// Focuses the tab before or after the current one (the tab of
    /// `current_thread_id`, else the focused one, else the first) in the
    /// focused workspace, wrapping; `None` when it has fewer than two tabs.
    pub fn adjacent_tab(&mut self, current_thread_id: Option<u64>, direction: ProjectTabDirection) -> (r: Option<u64>)
        requires
            old(self).wf(),
        ensures
            final(self).wf(),
            final(self).saved() == old(self).saved(),
            final(self).cwds() == old(self).cwds(),
            final(self).active() == old(self).active(),
            ({
                let w = old(self).spaces()[old(self).active() as int];
                let n = w.tabs.len() as int;
                if n < 2 {
                    r is None && final(self).spaces() == old(self).spaces()
                } else {
                    let cur = match current_thread_id {
                        Some(t) => match tab_pos(w.tabs, t) {
                            Some(i) => i,
                            None => match w.active_tab {
                                Some(a) => a as int,
                                None => 0,
                            },
                        },
                        None => match w.active_tab {
                            Some(a) => a as int,
                            None => 0,
                        },
                    };
                    let next = match direction {
                        ProjectTabDirection::Previous => if cur == 0 {
                            n - 1
                        } else {
                            cur - 1
                        },
                        ProjectTabDirection::Next => (cur + 1) % n,
                    };
                    r == Some(w.tabs[next]) && final(self).spaces() == old(self).spaces().update(
                        old(self).active() as int,
                        WorkspaceView { tabs: w.tabs, active_tab: Some(next as usize) },
                    )
                }
            }),
    {
        let a = self.active_workspace;
        assert(focus_in_range(self.spaces()[a as int]));
        assert(self.spaces()[a as int] == ws_view(self.workspaces@[a as int]));
        let n = self.workspaces[a].tabs.len();
        if n < 2 {
            return None;
        }
        let fallback = match self.workspaces[a].active_tab {
            Some(x) => x,
            None => 0,
        };
        let cur = match current_thread_id {
            Some(t) => match position(&self.workspaces[a].tabs, t) {
                Some(i) => i,
                None => fallback,
            },
            None => fallback,
        };
        proof {
            lemma_tab_pos(self.workspaces@[a as int].tabs@, if let Some(t) = current_thread_id { t } else { 0 });
        }
        let next = match direction {
            ProjectTabDirection::Previous => if cur == 0 {
                n - 1
            } else {
                cur - 1
            },
            ProjectTabDirection::Next => (cur + 1) % n,
        };
        let ghost before = self.spaces();
        let mut w = self.workspaces.remove(a);
        w.active_tab = Some(next);
        let thread = w.tabs[next];
        self.workspaces.insert(a, w);
        assert(self.spaces() =~= before.update(
            a as int,
            WorkspaceView { tabs: before[a as int].tabs, active_tab: Some(next) },
        ));
        Some(thread)
    }

    /// Focuses the previous workspace (wrapping) or the next one (opening a
    /// new empty workspace after the last); returns the thread it shows.
    pub fn switch_workspace(&mut self, direction: ProjectWorkspaceDirection) -> (r: Option<u64>)
        requires
            old(self).wf(),
        ensures
            final(self).wf(),
            final(self).saved() == old(self).saved(),
            final(self).cwds() == old(self).cwds(),
            match direction {
                ProjectWorkspaceDirection::Previous => final(self).spaces() == old(self).spaces()
                    && final(self).active() == if old(self).active() == 0 {
                    (old(self).spaces().len() - 1) as usize
                } else {
                    (old(self).active() - 1) as usize
                },
                ProjectWorkspaceDirection::Next => final(self).active() == old(self).active() + 1
                    && final(self).spaces() == if old(self).active() + 1 >= old(self).spaces().len() {
                    old(self).spaces().push(WorkspaceView { tabs: seq![], active_tab: None })
                } else {
                    old(self).spaces()
                },
            },
            r == shown_tab(final(self).spaces()[final(self).active() as int]),
    {
        match direction {
            ProjectWorkspaceDirection::Previous => {
                if self.active_workspace == 0 {
                    self.active_workspace = self.workspaces.len() - 1;
                } else {
                    self.active_workspace = self.active_workspace - 1;
                }
            },
            ProjectWorkspaceDirection::Next => {
                assert(self.spaces().len() == self.workspaces@.len());
                let _n = self.workspaces.len();
                if self.active_workspace + 1 >= self.workspaces.len() {
                    let ghost before = self.spaces();
                    self.workspaces.push(ProjectWorkspace { tabs: Vec::new(), active_tab: None });
                    assert(self.spaces() =~= before.push(WorkspaceView { tabs: seq![], active_tab: None }));
                }
                self.active_workspace = self.active_workspace + 1;
            },
        }
        let a = self.active_workspace;
        assert(self.spaces()[a as int] == ws_view(self.workspaces@[a as int]));
        let w = &self.workspaces[a];
        match w.active_tab {
            Some(i) => if i < w.tabs.len() {
                return Some(w.tabs[i]);
            },
            None => {},
        }
        if w.tabs.len() > 0 {
            Some(w.tabs[0])
        } else {
            None
        }
    }

    /// The tabs of workspace `workspace_idx` that have a working directory.
    pub fn workspace_tabs(&self, workspace_idx: usize) -> (v: Vec<(u64, String)>)
        ensures
            v@.map_values(|x: (u64, String)| (x.0, x.1@)) == if workspace_idx < self.spaces().len() {
                tabs_with_cwds(self.spaces()[workspace_idx as int].tabs, self.cwds())
            } else {
                seq![]
            },
    {
        if workspace_idx < self.workspaces.len() {
            assert(self.spaces()[workspace_idx as int] == ws_view(self.workspaces@[workspace_idx as int]));
            tabs_with_cwds_exec(&self.workspaces[workspace_idx].tabs, &self.tab_cwds)
        } else {
            let v: Vec<(u64, String)> = Vec::new();
            assert(v@.map_values(|x: (u64, String)| (x.0, x.1@)) =~= seq![]);
            v
        }
    }

    /// The tabs of the focused workspace that have a working directory.
    pub fn active_workspace_tabs(&self) -> (v: Vec<(u64, String)>)
        ensures
            v@.map_values(|x: (u64, String)| (x.0, x.1@)) == if self.active() < self.spaces().len() {
                tabs_with_cwds(self.spaces()[self.active() as int].tabs, self.cwds())
            } else {
                seq![]
            },
    {
        self.workspace_tabs(self.active_workspace)
    }

    /// Every tab with a working directory, with its workspace, in order.
    pub fn all_workspace_tabs(&self) -> (v: Vec<(usize, u64, String)>)
        ensures
            v@.map_values(|x: (usize, u64, String)| (x.0, x.1, x.2@)) == all_tabs(
                self.spaces(),
                self.cwds(),
                self.spaces().len() as int,
            ),
    {
        let mut v: Vec<(usize, u64, String)> = Vec::new();
        let mut k: usize = 0;
        assert(v@.map_values(|x: (usize, u64, String)| (x.0, x.1, x.2@)) =~= seq![]);
        while k < self.workspaces.len()
            invariant
                k <= self.workspaces@.len() == self.spaces().len(),
                v@.map_values(|x: (usize, u64, String)| (x.0, x.1, x.2@)) == all_tabs(self.spaces(), self.cwds(), k as int),
            decreases self.workspaces.len() - k,
        {
            let tabs = self.workspace_tabs(k);
            let ghost before = v@;
            let mut i: usize = 0;
            while i < tabs.len()
                invariant
                    i <= tabs@.len(),
                    k < self.spaces().len(),
                    v@.len() == before.len() + i,
                    forall|j: int| 0 <= j < before.len() ==> v@[j] == before[j],
                    forall|j: int| 0 <= j < i ==> #[trigger] v@[before.len() + j] == (k, tabs@[j].0, tabs@[j].1),
                decreases tabs.len() - i,
            {
                let (t, c) = (tabs[i].0, tabs[i].1.clone());
                v.push((k, t, c));
                i = i + 1;
            }
            proof {
                let tw = tabs_with_cwds(self.spaces()[k as int].tabs, self.cwds());
                let prev = all_tabs(self.spaces(), self.cwds(), k as int);
                assert(tabs@.map_values(|x: (u64, String)| (x.0, x.1@)) == tw);
                assert(before.map_values(|x: (usize, u64, String)| (x.0, x.1, x.2@)) == prev);
                let want = prev + tw.map_values(|x: (u64, Seq<char>)| (k as usize, x.0, x.1));
                let vm = v@.map_values(|x: (usize, u64, String)| (x.0, x.1, x.2@));
                assert forall|j: int| 0 <= j < vm.len() implies #[trigger] vm[j] == want[j] by {
                    if j >= before.len() {
                        let jj = j - before.len();
                        assert(v@[before.len() + jj] == (k, tabs@[jj].0, tabs@[jj].1));
                        assert(tabs@.map_values(|x: (u64, String)| (x.0, x.1@))[jj] == tw[jj]);
                    } else {
                        assert(before.map_values(|x: (usize, u64, String)| (x.0, x.1, x.2@))[j] == prev[j]);
                    }
                }
                assert(vm =~= want);
            }
            k = k + 1;
        }
        v
    }

    /// The first tab, in workspace order, whose working directory is `cwd`.
    pub fn find_thread_for_cwd(&self, cwd: &str) -> (r: Option<(usize, u64)>)
        ensures
            match r {
                Some((w, t)) => thread_for_cwd_from(self.spaces(), self.cwds(), cwd@, 0, 0) == Some((w as int, t)),
                None => thread_for_cwd_from(self.spaces(), self.cwds(), cwd@, 0, 0) is None,
            },
    {
        let mut k: usize = 0;
        while k < self.workspaces.len()
            invariant
                k <= self.workspaces@.len() == self.spaces().len(),
                thread_for_cwd_from(self.spaces(), self.cwds(), cwd@, 0, 0) == thread_for_cwd_from(
                    self.spaces(),
                    self.cwds(),
                    cwd@,
                    k as int,
                    0,
                ),
            decreases self.workspaces.len() - k,
        {
            assert(self.spaces()[k as int] == ws_view(self.workspaces@[k as int]));
            let tabs = &self.workspaces[k].tabs;
            let mut i: usize = 0;
            while i < tabs.len()
                invariant
                    k < self.spaces().len(),
                    tabs@ == self.spaces()[k as int].tabs,
                    i <= tabs@.len(),
                    thread_for_cwd_from(self.spaces(), self.cwds(), cwd@, 0, 0) == thread_for_cwd_from(
                        self.spaces(),
                        self.cwds(),
                        cwd@,
                        k as int,
                        i as int,
                    ),
                decreases tabs.len() - i,
            {
                let t = tabs[i];
                match self.tab_cwds.get(&t) {
                    Some(c) => {
                        if same_path(c.as_str(), cwd) {
                            return Some((k, t));
                        }
                    },
                    None => {},
                }
                i = i + 1;
            }
            k = k + 1;
        }
        None
    }
}

proof fn lemma_find_tab(ws: Seq<WorkspaceView>, t: u64, k: int)
    requires
        0 <= k,
    ensures
        find_tab_from(ws, t, k) matches Some((w, i)) ==> k <= w < ws.len() && 0 <= i < ws[w].tabs.len() && ws[w].tabs[i] == t,
    decreases ws.len() - k,
{
    if k < ws.len() {
        lemma_tab_pos(ws[k].tabs, t);
        lemma_find_tab(ws, t, k + 1);
    }
}

/// The (thread, directory) entries of saved tabs.
pub open spec fn saved_tabs_view(t: Seq<PersistedWorkspaceTab>) -> Seq<(u64, Seq<char>)> {
    t.map_values(|x: PersistedWorkspaceTab| (x.thread_id, x.cwd@))
}

/// The map of working directories after inserting `pairs` in order.
pub open spec fn insert_pairs(m: Map<u64, String>, pairs: Seq<(u64, String)>) -> Map<u64, String>
    decreases pairs.len(),
{
    if pairs.len() == 0 {
        m
    } else {
        insert_pairs(m, pairs.drop_last()).insert(pairs.last().0, pairs.last().1)
    }
}

/// The working directories of the tabs of the first `k` restored workspaces.
pub open spec fn restored_cwds(ws: Seq<RestoredWorkspace>, k: int) -> Map<u64, String>
    decreases k,
{
    if k <= 0 {
        Map::empty()
    } else {
        insert_pairs(restored_cwds(ws, k - 1), ws[k - 1].tabs@)
    }
}

/// The workspace a restored one becomes: its threads, and its focus when
/// that points at a tab.
pub open spec fn restored_view(w: RestoredWorkspace) -> WorkspaceView {
    WorkspaceView {
        tabs: w.tabs@.map_values(|x: (u64, String)| x.0),
        active_tab: match w.active_tab {
            Some(i) => if i < w.tabs@.len() {
                Some(i)
            } else {
                None
            },
            None => None,
        },
    }
}

impl ProjectNavigationState {
    /// Whether `r` is the session these workspaces save: each workspace's
    /// tabs that have a working directory, with its focus, and the active
    /// workspace; `None` exactly when no workspace has such a tab.
    pub open spec fn captures(self, r: Option<PersistedWorkspaceSession>) -> bool {
        match r {
            Some(s) => {
                &&& s.active_workspace == self.active()
                &&& s.workspaces@.len() == self.spaces().len()
                &&& forall|k: int|
                    0 <= k < s.workspaces@.len() ==> saved_tabs_view((#[trigger] s.workspaces@[k]).tabs@)
                        == tabs_with_cwds(self.spaces()[k].tabs, self.cwds()) && s.workspaces@[k].active_tab
                        == self.spaces()[k].active_tab
                &&& exists|k: int|
                    0 <= k < self.spaces().len() && #[trigger] tabs_with_cwds(self.spaces()[k].tabs, self.cwds()).len()
                        > 0
            },
            None => forall|k: int|
                0 <= k < self.spaces().len() ==> #[trigger] tabs_with_cwds(self.spaces()[k].tabs, self.cwds()).len()
                    == 0,
        }
    }

    /// The saved session.
    pub fn saved_workspace_session(&self) -> (r: &Option<PersistedWorkspaceSession>)
        ensures
            *r == self.saved().saved_workspace_session,
    {
        &self.persisted.saved_workspace_session
    }

    /// The open workspaces as a session to save, with the tabs that have a
    /// working directory; `None` when no workspace has such a tab.
    pub fn capture_workspace_session(&self) -> (r: Option<PersistedWorkspaceSession>)
        ensures
            self.captures(r),
    {
        let mut out: Vec<PersistedWorkspace> = Vec::new();
        let mut any = false;
        let mut k: usize = 0;
        while k < self.workspaces.len()
            invariant
                k <= self.workspaces@.len() == self.spaces().len(),
                out@.len() == k,
                forall|j: int|
                    0 <= j < k ==> saved_tabs_view((#[trigger] out@[j]).tabs@) == tabs_with_cwds(
                        self.spaces()[j].tabs,
                        self.cwds(),
                    ) && out@[j].active_tab == self.spaces()[j].active_tab,
                any == exists|j: int| 0 <= j < k && #[trigger] tabs_with_cwds(self.spaces()[j].tabs, self.cwds()).len() > 0,
            decreases self.workspaces.len() - k,
        {
            assert(self.spaces()[k as int] == ws_view(self.workspaces@[k as int]));
            let pairs = self.workspace_tabs(k);
            let mut tabs: Vec<PersistedWorkspaceTab> = Vec::new();
            let mut i: usize = 0;
            while i < pairs.len()
                invariant
                    i <= pairs@.len(),
                    tabs@.len() == i,
                    forall|j: int| 0 <= j < i ==> (#[trigger] tabs@[j]).thread_id == pairs@[j].0 && tabs@[j].cwd@ == pairs@[j].1@,
                decreases pairs.len() - i,
            {
                tabs.push(PersistedWorkspaceTab { thread_id: pairs[i].0, cwd: pairs[i].1.clone() });
                i = i + 1;
            }
            proof {
                assert(saved_tabs_view(tabs@) =~= pairs@.map_values(|x: (u64, String)| (x.0, x.1@)));
            }
            if tabs.len() > 0 {
                any = true;
            }
            out.push(PersistedWorkspace { tabs, active_tab: self.workspaces[k].active_tab });
            proof {
                assert(out@[k as int].tabs@.len() == tabs_with_cwds(self.spaces()[k as int].tabs, self.cwds()).len());
            }
            k = k + 1;
        }
        if any {
            Some(PersistedWorkspaceSession { workspaces: out, active_workspace: self.active_workspace })
        } else {
            None
        }
    }

    /// Saves the open workspaces as the session; returns whether there was
    /// one to save.
    pub fn save_current_workspace_session(&mut self) -> (b: bool)
        ensures
            b == final(self).saved().saved_workspace_session is Some,
            old(self).captures(final(self).saved().saved_workspace_session),
            b == exists|k: int|
                0 <= k < old(self).spaces().len() && #[trigger] tabs_with_cwds(old(self).spaces()[k].tabs, old(self).cwds()).len()
                    > 0,
            final(self).saved().favorites == old(self).saved().favorites,
            final(self).saved().recents == old(self).saved().recents,
            final(self).spaces() == old(self).spaces(),
            final(self).active() == old(self).active(),
            final(self).cwds() == old(self).cwds(),
    {
        let captured = self.capture_workspace_session();
        let b = captured.is_some();
        self.persisted.saved_workspace_session = captured;
        b
    }

    /// Replaces the open workspaces by restored ones (one empty workspace
    /// when there are none), focusing workspace `active_workspace` or the last.
    pub fn apply_restored_workspace_session(&mut self, workspaces: Vec<RestoredWorkspace>, active_workspace: usize)
        ensures
            final(self).wf(),
            final(self).saved() == old(self).saved(),
            final(self).cwds() == restored_cwds(workspaces@, workspaces@.len() as int),
            final(self).spaces() == if workspaces@.len() == 0 {
                seq![WorkspaceView { tabs: seq![], active_tab: None }]
            } else {
                workspaces@.map_values(|w: RestoredWorkspace| restored_view(w))
            },
            final(self).active() == vstd::math::min(active_workspace as int, final(self).spaces().len() - 1),
    {
        let mut cwds: HashMap<u64, String> = HashMap::new();
        let mut restored: Vec<ProjectWorkspace> = Vec::new();
        let mut k: usize = 0;
        while k < workspaces.len()
            invariant
                k <= workspaces@.len(),
                cwds@ == restored_cwds(workspaces@, k as int),
                restored@.len() == k,
                forall|j: int| 0 <= j < k ==> ws_view(#[trigger] restored@[j]) == restored_view(workspaces@[j]),
            decreases workspaces.len() - k,
        {
            let w = &workspaces[k];
            let mut tabs: Vec<u64> = Vec::new();
            let mut i: usize = 0;
            let ghost base = cwds@;
            assert(w.tabs@.take(0) =~= seq![]);
            while i < w.tabs.len()
                invariant
                    i <= w.tabs@.len(),
                    tabs@ == w.tabs@.take(i as int).map_values(|x: (u64, String)| x.0),
                    cwds@ == insert_pairs(base, w.tabs@.take(i as int)),
                decreases w.tabs.len() - i,
            {
                let t = w.tabs[i].0;
                cwds.insert(t, w.tabs[i].1.clone());
                tabs.push(t);
                proof {
                    let tk = w.tabs@.take(i + 1);
                    assert(tk.drop_last() =~= w.tabs@.take(i as int));
                    assert(tk.last() == w.tabs@[i as int]);
                    assert(tabs@ =~= tk.map_values(|x: (u64, String)| x.0));
                }
                i = i + 1;
            }
            assert(w.tabs@.take(w.tabs@.len() as int) =~= w.tabs@);
            let active_tab = match w.active_tab {
                Some(x) => if x < tabs.len() {
                    Some(x)
                } else {
                    None
                },
                None => None,
            };
            restored.push(ProjectWorkspace { tabs, active_tab });
            k = k + 1;
        }
        if restored.len() == 0 {
            restored.push(ProjectWorkspace { tabs: Vec::new(), active_tab: None });
        }
        let n = restored.len();
        self.tab_cwds = cwds;
        self.workspaces = restored;
        self.active_workspace = if active_workspace < n - 1 {
            active_workspace
        } else {
            n - 1
        };
        proof {
            if workspaces@.len() == 0 {
                assert(self.spaces() =~= seq![WorkspaceView { tabs: seq![], active_tab: None }]);
            } else {
                assert(self.spaces() =~= workspaces@.map_values(|w: RestoredWorkspace| restored_view(w)));
            }
        }
    }
}

/// Where the navigation state of `codex_home` is saved.
pub fn state_file_path(codex_home: &str) -> (p: String)
    ensures
        p@ == crate::edit::joined_path(codex_home@, PROJECT_NAVIGATION_STATE_FILE@),
{
    crate::edit::resolve_path(codex_home, PROJECT_NAVIGATION_STATE_FILE)
}

/// No entry of `l` is the path of an earlier one.
pub open spec fn no_repeats(l: Seq<String>) -> bool {
    forall|i: int, j: int| 0 <= i < j < l.len() ==> !paths::paths_equal(l[j]@, l[i]@)
}

proof fn lemma_without_path(l: Seq<String>, p: Seq<char>)
    ensures
        forall|i: int| 0 <= i < without_path(l, p).len() ==> l.contains(#[trigger] without_path(l, p)[i]),
        forall|i: int| 0 <= i < without_path(l, p).len() ==> !paths::paths_equal(#[trigger] without_path(l, p)[i]@, p),
        no_repeats(l) ==> no_repeats(without_path(l, p)),
        without_path(l, p).len() <= l.len(),
    decreases l.len(),
{
    broadcast use vstd::seq_lib::group_filter_ensures;
    reveal_with_fuel(Seq::filter, 1);
    if l.len() > 0 {
        let d = l.drop_last();
        lemma_without_path(d, p);
        let fd = without_path(d, p);
        let f = without_path(l, p);
        assert forall|i: int| 0 <= i < f.len() implies l.contains(#[trigger] f[i]) by {
            if i < fd.len() {
                assert(f[i] == fd[i]);
                let j = choose|j: int| 0 <= j < d.len() && d[j] == fd[i];
                assert(l[j] == d[j]);
            } else {
                assert(f[i] == l.last());
                assert(l[l.len() - 1] == l.last());
            }
        }
        assert forall|i: int| 0 <= i < f.len() implies !paths::paths_equal(#[trigger] f[i]@, p) by {
            if i < fd.len() {
                assert(f[i] == fd[i]);
            }
        }
        if no_repeats(l) {
            assert(no_repeats(d)) by {
                assert forall|i: int, j: int| 0 <= i < j < d.len() implies !paths::paths_equal(d[j]@, d[i]@) by {
                    assert(d[i] == l[i] && d[j] == l[j]);
                }
            }
            assert forall|i: int, j: int| 0 <= i < j < f.len() implies !paths::paths_equal(f[j]@, f[i]@) by {
                if j < fd.len() {
                    assert(f[i] == fd[i] && f[j] == fd[j]);
                } else {
                    assert(f[j] == l.last());
                    assert(f[i] == fd[i]);
                    let m = choose|m: int| 0 <= m < d.len() && d[m] == fd[i];
                    assert(l[m] == d[m]);
                    assert(l[l.len() - 1] == l.last());
                }
            }
        }
    }
}

/// Opening a project puts it first among the recent projects, keeps no
/// other entry for the same path, remembers `MAX_RECENT_PROJECTS` at most,
/// and repeats no path when none was repeated before.
pub proof fn lemma_recents_deduped_most_recent_first(l: Seq<String>, p: String)
    ensures
        recents_after(l, p).len() >= 1,
        recents_after(l, p)[0] == p,
        recents_after(l, p).len() <= MAX_RECENT_PROJECTS,
        forall|i: int| 1 <= i < recents_after(l, p).len() ==> !paths::paths_equal(#[trigger] recents_after(l, p)[i]@, p@),
        no_repeats(l) ==> no_repeats(recents_after(l, p)),
{
    lemma_without_path(l, p@);
    let w = without_path(l, p@);
    let r = seq![p] + w;
    assert forall|i: int| 1 <= i < r.len() implies !paths::paths_equal(#[trigger] r[i]@, p@) by {
        assert(r[i] == w[i - 1]);
    }
    if no_repeats(l) {
        assert forall|i: int, j: int| 0 <= i < j < r.len() implies !paths::paths_equal(r[j]@, r[i]@) by {
            assert(r[j] == w[j - 1]);
            if i > 0 {
                assert(r[i] == w[i - 1]);
            }
        }
    }
}

/// Toggling a path that is not a favourite twice leaves the favourites as
/// they were.
pub proof fn lemma_toggle_favorite_twice(l: Seq<String>, p: String)
    requires
        !has_path(l, p@),
    ensures
        has_path(seq![p] + l, p@),
        without_path(seq![p] + l, p@) == l,
{
    let m = seq![p] + l;
    assert(m[0] == p);
    assert(paths::paths_equal(m[0]@, p@));
    assert forall|i: int| 0 <= i < l.len() implies !paths::paths_equal(#[trigger] l[i]@, p@) by {}
    lemma_filter_keep_all(l, p@);
    reveal_with_fuel(Seq::filter, 1);
    lemma_filter_prepend_drop(l, p);
}

proof fn lemma_filter_keep_all(l: Seq<String>, p: Seq<char>)
    requires
        forall|i: int| 0 <= i < l.len() ==> !paths::paths_equal(#[trigger] l[i]@, p),
    ensures
        without_path(l, p) == l,
    decreases l.len(),
{
    reveal_with_fuel(Seq::filter, 1);
    if l.len() > 0 {
        let d = l.drop_last();
        assert forall|i: int| 0 <= i < d.len() implies !paths::paths_equal(#[trigger] d[i]@, p) by {
            assert(d[i] == l[i]);
        }
        lemma_filter_keep_all(d, p);
        assert(l[l.len() - 1] == l.last());
        assert(d.push(l.last()) =~= l);
    }
}

proof fn lemma_filter_prepend_drop(l: Seq<String>, p: String)
    requires
        without_path(l, p@) == l,
    ensures
        without_path(seq![p] + l, p@) == l,
    decreases l.len(),
{
    reveal_with_fuel(Seq::filter, 1);
    let m = seq![p] + l;
    if l.len() == 0 {
        assert(m.drop_last() =~= seq![]);
        assert(without_path(seq![], p@) =~= seq![]);
    } else {
        let d = l.drop_last();
        assert(m.drop_last() =~= seq![p] + d);
        assert(m.last() == l.last());
        assert(l[l.len() - 1] == l.last());
        lemma_without_path(l, p@);
        lemma_without_path(d, p@);
        assert(!paths::paths_equal(l.last()@, p@)) by {
            assert(without_path(l, p@)[l.len() - 1] == l.last());
        }
        assert(without_path(d, p@) == d) by {
            assert(without_path(l, p@) == without_path(d, p@).push(l.last()));
            assert(without_path(d, p@) =~= without_path(l, p@).drop_last());
        }
        lemma_filter_prepend_drop(d, p);
    }
}

/// Closing a thread's tabs leaves no tab of it in a workspace where it had
/// one tab at most.
pub proof fn lemma_remove_thread_closes_tabs(w: WorkspaceView, t: u64)
    requires
        forall|i: int, j: int| 0 <= i < j < w.tabs.len() && w.tabs[i] == t ==> w.tabs[j] != t,
    ensures
        tab_pos(ws_without(w, t).tabs, t) is None,
        focus_in_range(w) ==> focus_in_range(ws_without(w, t)),
{
    lemma_tab_pos(w.tabs, t);
    let r = ws_without(w, t).tabs;
    lemma_tab_pos(r, t);
    match tab_pos(w.tabs, t) {
        Some(idx) => {
            assert forall|j: int| 0 <= j < r.len() implies r[j] != t by {
                if j < idx {
                    assert(r[j] == w.tabs[j]);
                } else {
                    assert(r[j] == w.tabs[j + 1]);
                }
            }
        },
        None => {},
    }
}

} // verus!
