//! The application's project runtime: the tiles and the tabs bar it builds
//! from the navigation state, and what it does when a project is focused,
//! opened, closed or switched to.
use vstd::prelude::*;
use crate::app_event::ProjectOpenTarget;
use crate::paths;
use crate::project_navigation;
use crate::project_navigation::AttentionMode;
use crate::project_navigation::NewTabPlacement;
use crate::project_navigation::ProjectNavigationState;
use crate::project_navigation::ProjectTabDirection;
use crate::project_navigation::ProjectWorkspaceDirection;
use crate::project_switcher::FavoriteProjectTile;
use crate::project_switcher::FavoritesEditorView;
use crate::project_switcher::ProjectSwitcherView;
use crate::project_switcher::SwitcherSection;
use crate::project_chooser::BrowserPane;
use crate::project_chooser::DirectoryListing;
use crate::project_chooser::ProjectChooserView;
use crate::project_switcher::ProjectSwitcherTabTile;
use crate::project_tabs::ProjectAttentionLevel;
use crate::project_tabs::ProjectTabChromeEntry;
use crate::project_tabs::ProjectTabsChromeState;
use crate::split_pane::SplitAxis;
use crate::split_pane::SplitPaneNode;
use crate::split_pane::SplitPaneState;
use crate::text;

verus! {

/// A project's label: the last component of its path, or the whole path
/// when that is missing or empty.
pub open spec fn label_of(p: Seq<char>) -> Seq<char> {
    match paths::path_file_name(p) {
        Some(n) => if n.len() > 0 { n } else { p },
        None => p,
    }
}

pub fn project_label(path: &str) -> (r: String)
    ensures
        r@ == label_of(path@),
{
    match paths::file_name_of(path) {
        Some(n) => if n.as_str().unicode_len() > 0 { n } else { path.to_owned() },
        None => path.to_owned(),
    }
}

pub open spec fn tab_tile_view(t: ProjectSwitcherTabTile) -> (u64, Seq<char>, Seq<char>, Option<Seq<char>>, bool, Option<
    ProjectAttentionLevel,
>) {
    (t.thread_id, t.label@, t.cwd@, paths::opt_string_view(t.summary), t.is_active, t.attention)
}

/// The tile of an open tab: labelled by its directory, active when it is
/// the active thread, with no summary and no attention.
pub open spec fn tab_tile_for(tab: (u64, Seq<char>), active_thread_id: Option<u64>) -> (u64, Seq<char>, Seq<char>, Option<
    Seq<char>,
>, bool, Option<ProjectAttentionLevel>) {
    (tab.0, label_of(tab.1), tab.1, None, active_thread_id == Some(tab.0), None)
}

/// The tabs of the focused workspace that have a working directory.
pub open spec fn active_tabs(nav: ProjectNavigationState) -> Seq<(u64, Seq<char>)> {
    project_navigation::tabs_with_cwds(nav.spaces()[nav.active() as int].tabs, nav.cwds())
}

/// The switcher's tiles for the focused workspace's tabs.
pub fn build_project_switcher_tabs(nav: &ProjectNavigationState, active_thread_id: Option<u64>) -> (v: Vec<
    ProjectSwitcherTabTile,
>)
    requires
        nav.wf(),
    ensures
        v@.map_values(|t: ProjectSwitcherTabTile| tab_tile_view(t)) == active_tabs(*nav).map_values(
            |x: (u64, Seq<char>)| tab_tile_for(x, active_thread_id),
        ),
{
    let tabs = nav.active_workspace_tabs();
    let ghost src = tabs@.map_values(|x: (u64, String)| (x.0, x.1@));
    let mut v: Vec<ProjectSwitcherTabTile> = Vec::new();
    let mut i: usize = 0;
    while i < tabs.len()
        invariant
            i <= tabs.len(),
            src == tabs@.map_values(|x: (u64, String)| (x.0, x.1@)),
            v@.map_values(|t: ProjectSwitcherTabTile| tab_tile_view(t)) == src.take(i as int).map_values(
                |x: (u64, Seq<char>)| tab_tile_for(x, active_thread_id),
            ),
        decreases tabs.len() - i,
    {
        let (thread_id, cwd) = (tabs[i].0, tabs[i].1.clone());
        let is_active = match active_thread_id {
            Some(a) => a == thread_id,
            None => false,
        };
        let tile = ProjectSwitcherTabTile {
            thread_id,
            label: project_label(cwd.as_str()),
            cwd,
            summary: None,
            is_active,
            attention: None,
        };
        let ghost before = v@;
        v.push(tile);
        assert(src.take(i + 1) =~= src.take(i as int).push(src[i as int]));
        assert(v@.map_values(|t: ProjectSwitcherTabTile| tab_tile_view(t)) =~= before.map_values(
            |t: ProjectSwitcherTabTile| tab_tile_view(t),
        ).push(tab_tile_view(tile)));
        assert(src.take(i + 1).map_values(|x: (u64, Seq<char>)| tab_tile_for(x, active_thread_id)) =~= src.take(
            i as int,
        ).map_values(|x: (u64, Seq<char>)| tab_tile_for(x, active_thread_id)).push(tab_tile_for(src[i as int], active_thread_id)));
        i += 1;
    }
    assert(src.take(i as int) =~= src);
    v
}

pub open spec fn favorite_tile_view(t: FavoriteProjectTile) -> (Seq<char>, Seq<char>, Option<Seq<char>>, bool) {
    (t.cwd@, t.label@, paths::opt_string_view(t.description), t.is_open)
}

/// The tile of a favorite: labelled by its directory, with its description,
/// open when some tab works in it.
pub open spec fn favorite_tile_for(nav: ProjectNavigationState, cwd: Seq<char>) -> (Seq<char>, Seq<char>, Option<
    Seq<char>,
>, bool) {
    (
        cwd,
        label_of(cwd),
        project_navigation::description_of(nav.saved().favorite_descriptions@, cwd),
        project_navigation::thread_for_cwd_from(nav.spaces(), nav.cwds(), cwd, 0, 0) is Some,
    )
}

/// The switcher's tiles for the favorites.
pub fn build_favorite_tiles(nav: &ProjectNavigationState) -> (v: Vec<FavoriteProjectTile>)
    ensures
        v@.map_values(|t: FavoriteProjectTile| favorite_tile_view(t)) == nav.saved().favorites@.map_values(
            |f: String| favorite_tile_for(*nav, f@),
        ),
{
    let favorites = nav.favorites();
    let ghost src = favorites@;
    let mut v: Vec<FavoriteProjectTile> = Vec::new();
    let mut i: usize = 0;
    while i < favorites.len()
        invariant
            i <= favorites.len(),
            src == favorites@,
            favorites@ == nav.saved().favorites@,
            v@.map_values(|t: FavoriteProjectTile| favorite_tile_view(t)) == src.take(i as int).map_values(
                |f: String| favorite_tile_for(*nav, f@),
            ),
        decreases favorites.len() - i,
    {
        let cwd = favorites[i].clone();
        let tile = FavoriteProjectTile {
            label: project_label(cwd.as_str()),
            description: nav.favorite_description(cwd.as_str()),
            is_open: nav.find_thread_for_cwd(cwd.as_str()).is_some(),
            cwd,
        };
        let ghost before = v@;
        v.push(tile);
        assert(src.take(i + 1) =~= src.take(i as int).push(src[i as int]));
        assert(v@.map_values(|t: FavoriteProjectTile| favorite_tile_view(t)) =~= before.map_values(
            |t: FavoriteProjectTile| favorite_tile_view(t),
        ).push(favorite_tile_view(tile)));
        assert(src.take(i + 1).map_values(|f: String| favorite_tile_for(*nav, f@)) =~= src.take(i as int).map_values(
            |f: String| favorite_tile_for(*nav, f@),
        ).push(favorite_tile_for(*nav, src[i as int]@)));
        i += 1;
    }
    assert(src.take(i as int) =~= src);
    v
}

pub open spec fn chrome_entry_view(e: ProjectTabChromeEntry) -> (Seq<char>, Option<ProjectAttentionLevel>, bool) {
    (e.label@, e.attention, e.is_active)
}

/// What the tabs bar shows for the focused workspace: nothing without tabs;
/// else the workspace's custom name, position and count, the attention
/// mode, and each tab's label and whether it is active.
pub fn sync_project_tabs_chrome(nav: &ProjectNavigationState, active_thread_id: Option<u64>) -> (r: Option<ProjectTabsChromeState>)
    requires
        nav.wf(),
    ensures
        active_tabs(*nav).len() == 0 <==> r is None,
        r matches Some(s) ==> {
            &&& paths::opt_string_view(s.workspace_custom_name) == (if nav.active() < nav.saved().workspace_names@.len() {
                project_navigation::trimmed_nonblank(
                    paths::opt_string_view(nav.saved().workspace_names@[nav.active() as int]),
                )
            } else {
                None
            })
            &&& s.workspace_index == nav.active()
            &&& s.workspace_count == nav.spaces().len()
            &&& s.attention_mode == nav.saved().attention_mode
            &&& s.tabs@.map_values(|e: ProjectTabChromeEntry| chrome_entry_view(e)) == active_tabs(*nav).map_values(
                |x: (u64, Seq<char>)| (label_of(x.1), None::<ProjectAttentionLevel>, active_thread_id == Some(x.0)),
            )
        },
{
    let tabs = build_project_switcher_tabs(nav, active_thread_id);
    let ghost tv = tabs@.map_values(|t: ProjectSwitcherTabTile| tab_tile_view(t));
    assert(tv.len() == tabs@.len());
    if tabs.len() == 0 {
        return None;
    }
    let mut entries: Vec<ProjectTabChromeEntry> = Vec::new();
    let mut i: usize = 0;
    while i < tabs.len()
        invariant
            i <= tabs.len(),
            tv == tabs@.map_values(|t: ProjectSwitcherTabTile| tab_tile_view(t)),
            entries@.map_values(|e: ProjectTabChromeEntry| chrome_entry_view(e)) == tv.take(i as int).map_values(
                |x: (u64, Seq<char>, Seq<char>, Option<Seq<char>>, bool, Option<ProjectAttentionLevel>)| (x.1, x.5, x.4),
            ),
        decreases tabs.len() - i,
    {
        let e = ProjectTabChromeEntry {
            label: tabs[i].label.clone(),
            is_active: tabs[i].is_active,
            attention: tabs[i].attention,
        };
        let ghost before = entries@;
        entries.push(e);
        assert(tv.take(i + 1) =~= tv.take(i as int).push(tv[i as int]));
        assert(entries@.map_values(|e: ProjectTabChromeEntry| chrome_entry_view(e)) =~= before.map_values(
            |e: ProjectTabChromeEntry| chrome_entry_view(e),
        ).push(chrome_entry_view(e)));
        assert(tv.take(i + 1).map_values(
            |x: (u64, Seq<char>, Seq<char>, Option<Seq<char>>, bool, Option<ProjectAttentionLevel>)| (x.1, x.5, x.4),
        ) =~= tv.take(i as int).map_values(
            |x: (u64, Seq<char>, Seq<char>, Option<Seq<char>>, bool, Option<ProjectAttentionLevel>)| (x.1, x.5, x.4),
        ).push((tv[i as int].1, tv[i as int].5, tv[i as int].4)));
        i += 1;
    }
    assert(tv.take(i as int) =~= tv);
    assert(entries@.map_values(|e: ProjectTabChromeEntry| chrome_entry_view(e)) =~= active_tabs(*nav).map_values(
        |x: (u64, Seq<char>)| (label_of(x.1), None::<ProjectAttentionLevel>, active_thread_id == Some(x.0)),
    ));
    let index = nav.active_workspace_index();
    Some(
        ProjectTabsChromeState {
            workspace_custom_name: nav.custom_workspace_name(index),
            workspace_index: index,
            workspace_count: nav.workspace_count(),
            attention_mode: nav.attention_mode(),
            tabs: entries,
        },
    )
}

/// The pane tree after showing `target_thread_id` next to pane `pane_id`:
/// starting from `split` or from one pane showing `current_thread_id`, the
/// pane that already shows the thread takes the focus; else, when pane
/// `pane_id` exists, it is split along `axis` with the new pane showing the
/// thread; else nothing changes. As (tree, focused pane, next pane id).
pub open spec fn bound_panes(
    split: Option<SplitPaneState>,
    current_thread_id: u64,
    target_thread_id: u64,
    pane_id: u64,
    axis: SplitAxis,
) -> (SplitPaneNode, u64, u64) {
    let (root, active, next) = match split {
        Some(s) => (s.root(), s.active(), s.next_id()),
        None => (SplitPaneNode::Leaf { pane_id: 0, thread_id: current_thread_id }, 0u64, 1u64),
    };
    match root.pane_of(target_thread_id) {
        Some(p) => (root, if root.thread_of(p) is Some { p } else { active }, next),
        None => if root.thread_of(pane_id) is Some {
            (root.split_at(pane_id, next, target_thread_id, axis), next, (next + 1) as u64)
        } else {
            (root, active, next)
        },
    }
}

/// Shows `target_thread_id` in a split pane next to pane `pane_id`; the
/// split view is kept only while it has more than one pane.
pub fn bind_split_pane_thread(
    split: Option<SplitPaneState>,
    current_thread_id: u64,
    target_thread_id: u64,
    pane_id: u64,
    axis: SplitAxis,
) -> (r: Option<SplitPaneState>)
    requires
        split matches Some(s) ==> s.wf() && s.next_id() < u64::MAX,
    ensures
        ({
            let (root, active, next) = bound_panes(split, current_thread_id, target_thread_id, pane_id, axis);
            match r {
                Some(s) => s.wf() && s.root() == root && s.active() == active && s.next_id() == next
                    && root.leaves().len() > 1,
                None => root.leaves().len() <= 1,
            }
        }),
{
    let mut s = match split {
        Some(s) => s,
        None => SplitPaneState::new(current_thread_id),
    };
    match s.pane_for_thread(target_thread_id) {
        Some(p) => {
            s.focus_pane(p);
        },
        None => {
            if s.focus_pane(pane_id).is_some() {
                s.split_active(target_thread_id, axis);
            }
        },
    }
    if s.leaf_count() > 1 {
        Some(s)
    } else {
        None
    }
}

/// What opening a project takes.
#[derive(Clone, Copy, PartialEq, Eq, Structural, Debug)]
pub enum ProjectOpenPlan {
    /// Switch to the tab already working in the project.
    Activate { thread_id: u64 },
    /// Start a session in a new tab beside the current one.
    StartTab { placement: NewTabPlacement },
    /// Start a session in a new tab, and show it split off pane `pane_id`
    /// of the current thread's view.
    StartInSplit { current_thread_id: u64, pane_id: u64, axis: SplitAxis },
    /// Nothing: a split needs a current thread.
    Nothing,
}

/// Starting a fresh session at `target`.
pub open spec fn new_session_spec(target: ProjectOpenTarget, active_thread_id: Option<u64>) -> ProjectOpenPlan {
    match target {
        ProjectOpenTarget::Tab(placement) => ProjectOpenPlan::StartTab { placement },
        ProjectOpenTarget::SplitPane { pane_id, axis } => match active_thread_id {
            Some(current_thread_id) => ProjectOpenPlan::StartInSplit { current_thread_id, pane_id, axis },
            None => ProjectOpenPlan::Nothing,
        },
    }
}

/// How a fresh session of a project is opened at `target`.
pub fn new_session_plan(target: ProjectOpenTarget, active_thread_id: Option<u64>) -> (r: ProjectOpenPlan)
    ensures
        r == new_session_spec(target, active_thread_id),
{
    match target {
        ProjectOpenTarget::Tab(placement) => ProjectOpenPlan::StartTab { placement },
        ProjectOpenTarget::SplitPane { pane_id, axis } => match active_thread_id {
            Some(current_thread_id) => ProjectOpenPlan::StartInSplit { current_thread_id, pane_id, axis },
            None => ProjectOpenPlan::Nothing,
        },
    }
}

/// How a project is focused or opened at `target`: its existing tab if one
/// works in it (the first in workspace order), else a fresh session.
pub fn focus_or_open_plan(
    nav: &ProjectNavigationState,
    cwd: &str,
    target: ProjectOpenTarget,
    active_thread_id: Option<u64>,
) -> (r: ProjectOpenPlan)
    ensures
        r == match project_navigation::thread_for_cwd_from(nav.spaces(), nav.cwds(), cwd@, 0, 0) {
            Some((_, t)) => ProjectOpenPlan::Activate { thread_id: t },
            None => new_session_spec(target, active_thread_id),
        },
{
    match nav.find_thread_for_cwd(cwd) {
        Some((_, thread_id)) => ProjectOpenPlan::Activate { thread_id },
        None => new_session_plan(target, active_thread_id),
    }
}

/// Where a resumed session's tab goes: beside the current tab as the target
/// says, or to the right for a split pane.
pub fn resume_placement(target: ProjectOpenTarget) -> (p: NewTabPlacement)
    ensures
        p == match target {
            ProjectOpenTarget::Tab(placement) => placement,
            ProjectOpenTarget::SplitPane { .. } => NewTabPlacement::Right,
        },
{
    match target {
        ProjectOpenTarget::Tab(placement) => placement,
        ProjectOpenTarget::SplitPane { .. } => NewTabPlacement::Right,
    }
}

/// The working directory of a tab, or `fallback` when it has none.
pub open spec fn cwd_or(cwds: Map<u64, String>, thread_id: u64, fallback: Seq<char>) -> Seq<char> {
    if cwds.contains_key(thread_id) { cwds[thread_id]@ } else { fallback }
}

fn tab_cwd_or(nav: &ProjectNavigationState, thread_id: u64, fallback: &str) -> (r: String)
    ensures
        r@ == cwd_or(nav.cwds(), thread_id, fallback@),
{
    match nav.tab_cwd(thread_id) {
        Some(c) => c,
        None => fallback.to_owned(),
    }
}

/// What closing a tab comes to.
#[derive(Clone, Debug)]
pub enum CloseTabPlan {
    /// The last tab of the workspace stays open.
    Refuse,
    /// The tab was closed; switch to `thread_id`, working in `cwd`.
    Activate { thread_id: u64, cwd: String },
}

/// The message when the last tab is not closed.
pub open spec fn last_tab_message() -> Seq<char> {
    "Can't close the last project tab."@
}

pub fn close_refused_message() -> (s: String)
    ensures
        s@ == last_tab_message(),
{
    String::from_str("Can't close the last project tab.")
}

/// Closes the tab of `thread_id` unless it is the workspace's only one:
/// the focus moves to the next tab, whose thread and directory (else
/// `fallback_cwd`) are returned.
pub fn close_tab_plan(nav: &mut ProjectNavigationState, thread_id: u64, fallback_cwd: &str) -> (r: CloseTabPlan)
    requires
        old(nav).wf(),
    ensures
        final(nav).wf(),
        final(nav).saved() == old(nav).saved(),
        final(nav).active() == old(nav).active(),
        (r is Refuse) == (old(nav).spaces()[old(nav).active() as int].tabs.len() < 2),
        r is Refuse ==> final(nav).spaces() == old(nav).spaces() && final(nav).cwds() == old(nav).cwds(),
        r matches CloseTabPlan::Activate { thread_id: next, cwd } ==> {
            &&& final(nav).cwds() == old(nav).cwds().remove(thread_id)
            &&& cwd@ == cwd_or(final(nav).cwds(), next, fallback_cwd@)
        },
{
    match nav.adjacent_tab(Some(thread_id), ProjectTabDirection::Next) {
        None => CloseTabPlan::Refuse,
        Some(next) => {
            nav.remove_thread(thread_id);
            let cwd = tab_cwd_or(nav, next, fallback_cwd);
            CloseTabPlan::Activate { thread_id: next, cwd }
        },
    }
}

/// Moves to the tab before or after the current one; the thread to switch
/// to and its directory (else `fallback_cwd`).
pub fn switch_tab_plan(
    nav: &mut ProjectNavigationState,
    active_thread_id: Option<u64>,
    direction: ProjectTabDirection,
    fallback_cwd: &str,
) -> (r: Option<(u64, String)>)
    requires
        old(nav).wf(),
    ensures
        final(nav).wf(),
        final(nav).saved() == old(nav).saved(),
        final(nav).cwds() == old(nav).cwds(),
        final(nav).active() == old(nav).active(),
        (r is None) == (old(nav).spaces()[old(nav).active() as int].tabs.len() < 2),
        r matches Some((t, cwd)) ==> cwd@ == cwd_or(old(nav).cwds(), t, fallback_cwd@),
{
    match nav.adjacent_tab(active_thread_id, direction) {
        None => None,
        Some(t) => {
            let cwd = tab_cwd_or(nav, t, fallback_cwd);
            Some((t, cwd))
        },
    }
}

/// Moves to the previous or next workspace; the thread it shows and its
/// directory (else `fallback_cwd`), or `None` when it shows none and the
/// navigator is to be opened.
pub fn switch_workspace_plan(nav: &mut ProjectNavigationState, direction: ProjectWorkspaceDirection, fallback_cwd: &str) -> (r: Option<
    (u64, String),
>)
    requires
        old(nav).wf(),
    ensures
        final(nav).wf(),
        final(nav).saved() == old(nav).saved(),
        final(nav).cwds() == old(nav).cwds(),
        match direction {
            ProjectWorkspaceDirection::Previous => final(nav).spaces() == old(nav).spaces()
                && final(nav).active() == if old(nav).active() == 0 {
                (old(nav).spaces().len() - 1) as usize
            } else {
                (old(nav).active() - 1) as usize
            },
            ProjectWorkspaceDirection::Next => final(nav).active() == old(nav).active() + 1
                && final(nav).spaces() == if old(nav).active() + 1 >= old(nav).spaces().len() {
                old(nav).spaces().push(project_navigation::WorkspaceView { tabs: seq![], active_tab: None })
            } else {
                old(nav).spaces()
            },
        },
        match project_navigation::shown_tab(final(nav).spaces()[final(nav).active() as int]) {
            None => r is None,
            Some(t) => r matches Some((u, cwd)) && u == t && cwd@ == cwd_or(old(nav).cwds(), t, fallback_cwd@),
        },
{
    match nav.switch_workspace(direction) {
        None => None,
        Some(t) => {
            let cwd = tab_cwd_or(nav, t, fallback_cwd);
            Some((t, cwd))
        },
    }
}

/// The split view `f` and result `r` after moving the focus of `s`.
pub open spec fn focused_split(
    s: SplitPaneState,
    f: Option<SplitPaneState>,
    r: Option<(u64, String)>,
    cwds: Map<u64, String>,
    next: bool,
    fallback: Seq<char>,
) -> bool {
    &&& f matches Some(f) && f.wf() && f.root() == s.root() && f.next_id() == s.next_id() && match crate::split_pane::focus_step(
        s.panes(),
        s.active(),
        next,
    ) {
        Some((p, _)) => f.active() == p,
        None => f.active() == s.active(),
    }
    &&& match crate::split_pane::focus_step(s.panes(), s.active(), next) {
        Some((_, t)) => (r matches Some((rt, cwd)) && rt == t && cwd@ == cwd_or(cwds, t, fallback)),
        None => r is None,
    }
}

/// Focuses the next or previous split pane; the thread it shows and its
/// directory (else `fallback_cwd`), or `None` without a split view or when
/// the focus did not move.
pub fn focus_split_plan(
    split: &mut Option<SplitPaneState>,
    nav: &ProjectNavigationState,
    next: bool,
    fallback_cwd: &str,
) -> (r: Option<(u64, String)>)
    requires
        *old(split) matches Some(s) ==> s.wf(),
    ensures
        match *old(split) {
            None => r is None && *final(split) is None,
            Some(s) => focused_split(s, *final(split), r, nav.cwds(), next, fallback_cwd@),
        },
{
    match split {
        None => None,
        Some(s) => {
            let t = if next { s.focus_next() } else { s.focus_previous() };
            match t {
                None => None,
                Some(t) => {
                    let cwd = tab_cwd_or(nav, t, fallback_cwd);
                    Some((t, cwd))
                },
            }
        },
    }
}

/// The note after a favorite was toggled.
pub open spec fn favorite_message(added: bool, cwd: Seq<char>) -> Seq<char> {
    (if added { "Added"@ } else { "Removed"@ }) + " favorite project "@ + cwd + "."@
}

pub fn favorite_toggled_message(added: bool, cwd: &str) -> (s: String)
    ensures
        s@ == favorite_message(added, cwd@),
{
    let mut s = if added { String::from_str("Added") } else { String::from_str("Removed") };
    text::push_str(&mut s, " favorite project ");
    text::push_str(&mut s, cwd);
    text::push_str(&mut s, ".");
    s
}

/// The note after the attention mode changed.
pub fn attention_mode_message(mode: AttentionMode) -> (s: String)
    ensures
        s@ == "Project attention mode: "@ + crate::project_switcher::attention_label(mode) + "."@,
{
    let mut s = String::from_str("Project attention mode: ");
    text::push_str(&mut s, mode.label());
    text::push_str(&mut s, ".");
    s
}

/// The error when there is no tab to save as the workspace session.
pub fn nothing_to_save_message() -> (s: String)
    ensures
        s@ == "No project tabs are open to save."@,
{
    String::from_str("No project tabs are open to save.")
}


/// The tiles of the tabs, as the contracts speak of them.
pub open spec fn tab_tiles_of(nav: ProjectNavigationState, active_thread_id: Option<u64>) -> Seq<
    (u64, Seq<char>, Seq<char>, Option<Seq<char>>, bool, Option<ProjectAttentionLevel>),
> {
    active_tabs(nav).map_values(|x: (u64, Seq<char>)| tab_tile_for(x, active_thread_id))
}

/// The tiles of the favorites, as the contracts speak of them.
pub open spec fn favorite_tiles_of(nav: ProjectNavigationState) -> Seq<(Seq<char>, Seq<char>, Option<Seq<char>>, bool)> {
    nav.saved().favorites@.map_values(|f: String| favorite_tile_for(nav, f@))
}

/// The project switcher over the focused workspace: its name, position and
/// count, the attention mode, its tabs and the favorites.
pub fn open_project_navigator(nav: &ProjectNavigationState, active_thread_id: Option<u64>, current_cwd: String) -> (v:
    ProjectSwitcherView)
    requires
        nav.wf(),
        nav.active() < usize::MAX,
    ensures
        v.complete == false,
        v.workspace_index == nav.active(),
        v.workspace_count == nav.spaces().len(),
        v.attention_mode == nav.saved().attention_mode,
        v.current_cwd == current_cwd,
        v.tabs@.map_values(|t: ProjectSwitcherTabTile| tab_tile_view(t)) == tab_tiles_of(*nav, active_thread_id),
        v.favorites@.map_values(|t: FavoriteProjectTile| favorite_tile_view(t)) == favorite_tiles_of(*nav),
        v.selected_section == SwitcherSection::Tabs,
{
    let index = nav.active_workspace_index();
    ProjectSwitcherView::new(
        nav.workspace_name(index),
        index,
        nav.workspace_count(),
        nav.attention_mode(),
        build_project_switcher_tabs(nav, active_thread_id),
        build_favorite_tiles(nav),
        current_cwd,
    )
}

/// The project chooser browsing the listed directory, opening into `target`.
pub fn open_project_chooser(nav: &ProjectNavigationState, listing: DirectoryListing, target: ProjectOpenTarget) -> (v:
    ProjectChooserView)
    requires
        listing.recent_is_dir.len() == nav.saved().recents@.len(),
    ensures
        v.complete == false,
        v.target == target,
        v.favorites@.map_values(|t: FavoriteProjectTile| favorite_tile_view(t)) == favorite_tiles_of(*nav),
        text::strings_view(v.recents@) == text::strings_view(nav.saved().recents@),
        v.browser_root == listing.root,
        v.focused_pane == BrowserPane::Favorites,
{
    let recents = clone_strings(nav.recents());
    ProjectChooserView::new(build_favorite_tiles(nav), recents, listing, target)
}

/// The project chooser browsing the listed directory, opening a new tab on
/// the right.
pub fn open_project_directory_browser(nav: &ProjectNavigationState, listing: DirectoryListing) -> (v: ProjectChooserView)
    requires
        listing.recent_is_dir.len() == nav.saved().recents@.len(),
    ensures
        v.complete == false,
        v.target == ProjectOpenTarget::Tab(NewTabPlacement::Right),
        v.browser_root == listing.root,
{
    open_project_chooser(nav, listing, ProjectOpenTarget::Tab(NewTabPlacement::Right))
}

/// Where a project chosen for a split opens: beside the active pane, split
/// along `axis`; the split view starts from the active thread if there is
/// none yet. Without an active thread nothing opens.
pub fn open_split_pane_project_chooser(
    split_pane: &mut Option<SplitPaneState>,
    active_thread_id: Option<u64>,
    axis: SplitAxis,
) -> (r: Option<ProjectOpenTarget>)
    requires
        *old(split_pane) matches Some(s) ==> s.wf(),
    ensures
        active_thread_id is None ==> r is None && *final(split_pane) == *old(split_pane),
        active_thread_id matches Some(t) ==> match *old(split_pane) {
            Some(s) => *final(split_pane) == Some(s) && r == Some(
                ProjectOpenTarget::SplitPane { pane_id: s.active(), axis },
            ),
            None => *final(split_pane) matches Some(n) && n.wf() && n.root() == (SplitPaneNode::Leaf {
                pane_id: 0,
                thread_id: t,
            }) && n.active() == 0 && r == Some(ProjectOpenTarget::SplitPane { pane_id: 0, axis }),
        },
{
    let thread_id = match active_thread_id {
        Some(t) => t,
        None => {
            return None;
        },
    };
    if split_pane.is_none() {
        *split_pane = Some(SplitPaneState::new(thread_id));
    }
    match split_pane {
        Some(s) => Some(ProjectOpenTarget::SplitPane { pane_id: s.active_pane_id(), axis }),
        None => None,
    }
}

/// The favorites editor browsing the listed directory.
pub fn open_project_favorites_manager(
    nav: &ProjectNavigationState,
    initial_path: Option<String>,
    listing: DirectoryListing,
) -> (v: FavoritesEditorView)
    ensures
        v.complete == false,
        v.initial_path == initial_path,
        v.favorites@.map_values(|t: FavoriteProjectTile| favorite_tile_view(t)) == favorite_tiles_of(*nav),
        text::strings_view(v.recents@) == text::strings_view(nav.saved().recents@),
        v.browser_root == listing.root,
{
    let recents = clone_strings(nav.recents());
    FavoritesEditorView::new(build_favorite_tiles(nav), recents, initial_path, listing)
}

/// A copy of a list of strings.
fn clone_strings(v: &Vec<String>) -> (r: Vec<String>)
    ensures
        text::strings_view(r@) == text::strings_view(v@),
        r@.len() == v@.len(),
{
    let mut r: Vec<String> = Vec::new();
    let mut i: usize = 0;
    while i < v.len()
        invariant
            i <= v@.len(),
            text::strings_view(r@) == text::strings_view(v@.take(i as int)),
            r@.len() == i,
        decreases v@.len() - i,
    {
        let ghost before = r@;
        let c = v[i].clone();
        r.push(c);
        assert(v@.take(i + 1) =~= v@.take(i as int).push(v@[i as int]));
        assert(text::strings_view(r@) =~= text::strings_view(before).push(c@));
        assert(text::strings_view(v@.take(i + 1)) =~= text::strings_view(v@.take(i as int)).push(v@[i as int]@));
        i += 1;
    }
    assert(v@.take(v@.len() as int) =~= v@);
    r
}

/// Adds or removes `cwd` as a favorite; returns the note to show.
pub fn toggle_project_favorite(nav: &mut ProjectNavigationState, cwd: String) -> (msg: String)
    ensures
        ({
            let added = !project_navigation::has_path(old(nav).saved().favorites@, cwd@);
            &&& msg@ == favorite_message(added, cwd@)
            &&& final(nav).saved().favorites@ == if added {
                seq![cwd].add(old(nav).saved().favorites@)
            } else {
                project_navigation::without_path(old(nav).saved().favorites@, cwd@)
            }
            &&& final(nav).saved().recents == old(nav).saved().recents
            &&& final(nav).spaces() == old(nav).spaces()
            &&& final(nav).active() == old(nav).active()
        }),
{
    let text_cwd = cwd.clone();
    let added = nav.toggle_favorite(cwd);
    favorite_toggled_message(added, text_cwd.as_str())
}

/// Forgets `cwd` as a recent project.
pub fn forget_recent_project(nav: &mut ProjectNavigationState, cwd: &str)
    ensures
        final(nav).saved().recents@ == project_navigation::without_path(old(nav).saved().recents@, cwd@),
        final(nav).saved().favorites == old(nav).saved().favorites,
        final(nav).spaces() == old(nav).spaces(),
        final(nav).active() == old(nav).active(),
{
    nav.remove_recent(cwd);
}

/// Sets the attention mode; returns the note to show.
pub fn apply_attention_mode(nav: &mut ProjectNavigationState, mode: AttentionMode) -> (msg: String)
    ensures
        final(nav).saved().attention_mode == mode,
        final(nav).saved().favorites == old(nav).saved().favorites,
        final(nav).saved().recents == old(nav).saved().recents,
        final(nav).spaces() == old(nav).spaces(),
        final(nav).active() == old(nav).active(),
        msg@ == "Project attention mode: "@ + crate::project_switcher::attention_label(mode) + "."@,
{
    nav.set_attention_mode(mode);
    attention_mode_message(mode)
}

/// Moves to the next attention mode; returns the note to show.
pub fn cycle_attention_mode(nav: &mut ProjectNavigationState) -> (msg: String)
    ensures
        final(nav).saved().attention_mode == project_navigation::next_mode(old(nav).saved().attention_mode),
        final(nav).spaces() == old(nav).spaces(),
        final(nav).active() == old(nav).active(),
        msg@ == "Project attention mode: "@ + crate::project_switcher::attention_label(final(nav).saved().attention_mode) + "."@,
{
    let mode = nav.attention_mode().next();
    apply_attention_mode(nav, mode)
}

/// Saves the open workspaces as the session; without any open tab, the
/// error to show.
pub fn save_workspace_session(nav: &mut ProjectNavigationState) -> (r: Result<(), String>)
    ensures
        r is Ok <==> final(nav).saved().saved_workspace_session is Some,
        r matches Err(m) ==> m@ == "No project tabs are open to save."@,
        final(nav).spaces() == old(nav).spaces(),
{
    if !nav.save_current_workspace_session() {
        return Err(nothing_to_save_message());
    }
    Ok(())
}

} // verus!
