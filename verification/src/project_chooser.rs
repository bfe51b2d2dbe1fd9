//! The project chooser popup: favorites beside a directory browser, for
//! opening a project in a new tab or pane; and the browser and list helpers
//! it shares with the favorites editor.
use vstd::prelude::*;
use crate::app_event::EventSpec;
use crate::app_event::ProjectOpenTarget;
use crate::app_event::ViewEvent;
use crate::app_event::opt_event_view;
use crate::app_input::GamepadAction;
use crate::app_input::KeyCode;
use crate::app_input::Modifiers;
use crate::edit;
use crate::layout;
use crate::layout::LayoutConstraint;
use crate::paths;
use crate::project_navigation::NewTabPlacement;
use crate::project_switcher;
use crate::project_switcher::FavoriteProjectTile;
use crate::split_pane::PaneRect;
use crate::split_pane::SplitAxis;
use crate::text;
use crate::ui;
use crate::ui::Frame;
use crate::ui::FrameSpec;
use crate::ui::Panel;
use crate::ui::PanelSpec;
use crate::ui::SpanStyle;
use crate::ui::StyledLine;
use crate::ui::Tint;
use crate::ui::styled;

verus! {

/// Most recent projects a browser lists.
pub const MAX_BROWSER_RECENTS: usize = 6;

/// What a browser entry is: a recent project, the parent directory, or a
/// directory under the browsed one.
#[derive(Clone, Copy, PartialEq, Eq, Structural, Debug)]
pub enum BrowserItemKind {
    Recent,
    Parent,
    Child,
}

/// An entry of a directory browser.
#[derive(Clone, Debug)]
pub struct BrowserItem {
    pub kind: BrowserItemKind,
    pub path: String,
}

pub open spec fn item_view(i: BrowserItem) -> (BrowserItemKind, Seq<char>) {
    (i.kind, i.path@)
}

pub open spec fn items_view(v: Seq<BrowserItem>) -> Seq<(BrowserItemKind, Seq<char>)> {
    v.map_values(|i: BrowserItem| item_view(i))
}

/// What the application found on disk for a directory to browse: whether
/// each recent project is a directory, and the directories under `root` in
/// path order (none when it could not be read).
pub struct DirectoryListing {
    pub root: String,
    pub recent_is_dir: Vec<bool>,
    pub children: Option<Vec<String>>,
}

/// The parent of a path, as `Path::parent` gives it.
pub uninterp spec fn path_parent(p: Seq<char>) -> Option<Seq<char>>;

/// `Path::parent`, shown as a string. Claimed: the result is the parent
/// named `path_parent`.
#[verifier::external_body]
pub(crate) fn parent_path(p: &str) -> (r: Option<String>)
    ensures
        paths::opt_string_view(r) == path_parent(p@),
{
    std::path::Path::new(p).parent().map(|q| q.to_string_lossy().into_owned())
}

/// The recent projects among the first `n` that are kept, as entries.
pub open spec fn recent_entries(recents: Seq<Seq<char>>, keep: Seq<bool>, n: int) -> Seq<(BrowserItemKind, Seq<char>)>
    decreases n,
{
    if n <= 0 {
        seq![]
    } else {
        let prev = recent_entries(recents, keep, n - 1);
        if keep[n - 1] { prev.push((BrowserItemKind::Recent, recents[n - 1])) } else { prev }
    }
}

/// A browser's entries for `root`: the first recent projects that are kept,
/// the parent directory if there is one, and the directories under `root`.
pub open spec fn browser_entries(
    root: Seq<char>,
    recents: Seq<Seq<char>>,
    keep: Seq<bool>,
    children: Option<Seq<Seq<char>>>,
) -> Seq<(BrowserItemKind, Seq<char>)> {
    let n = if recents.len() < MAX_BROWSER_RECENTS { recents.len() as int } else { MAX_BROWSER_RECENTS as int };
    let parent = match path_parent(root) {
        Some(p) => seq![(BrowserItemKind::Parent, p)],
        None => seq![],
    };
    let below = match children {
        Some(c) => c.map_values(|p: Seq<char>| (BrowserItemKind::Child, p)),
        None => seq![],
    };
    recent_entries(recents, keep, n) + parent + below
}

pub open spec fn opt_strings_view(o: Option<Vec<String>>) -> Option<Seq<Seq<char>>> {
    match o {
        Some(v) => Some(text::strings_view(v@)),
        None => None,
    }
}

/// The browser's entries for `root`; `keep[i]` says whether recent project
/// `i` is listed.
pub fn build_browser_items(root: &str, recents: &Vec<String>, keep: &Vec<bool>, children: &Option<Vec<String>>) -> (r: Vec<
    BrowserItem,
>)
    requires
        keep.len() == recents.len(),
    ensures
        items_view(r@) == browser_entries(root@, text::strings_view(recents@), keep@, opt_strings_view(*children)),
{
    let ghost rs = text::strings_view(recents@);
    let n: usize = if recents.len() < MAX_BROWSER_RECENTS { recents.len() } else { MAX_BROWSER_RECENTS };
    let mut items: Vec<BrowserItem> = Vec::new();
    let mut i: usize = 0;
    while i < n
        invariant
            i <= n,
            n <= recents.len(),
            keep.len() == recents.len(),
            rs == text::strings_view(recents@),
            items_view(items@) == recent_entries(rs, keep@, i as int),
        decreases n - i,
    {
        let ghost before = items_view(items@);
        if keep[i] {
            items.push(BrowserItem { kind: BrowserItemKind::Recent, path: recents[i].clone() });
            assert(items_view(items@) =~= before.push((BrowserItemKind::Recent, rs[i as int])));
        }
        i += 1;
    }
    let ghost recent_part = items_view(items@);
    match parent_path(root) {
        Some(p) => {
            items.push(BrowserItem { kind: BrowserItemKind::Parent, path: p });
        },
        None => {},
    }
    let ghost with_parent = items_view(items@);
    assert(with_parent =~= recent_part + match path_parent(root@) {
        Some(p) => seq![(BrowserItemKind::Parent, p)],
        None => seq![],
    });
    match children {
        Some(c) => {
            let ghost cs = text::strings_view(c@);
            let mut j: usize = 0;
            while j < c.len()
                invariant
                    j <= c.len(),
                    cs == text::strings_view(c@),
                    items_view(items@) == with_parent + cs.take(j as int).map_values(
                        |p: Seq<char>| (BrowserItemKind::Child, p),
                    ),
                decreases c.len() - j,
            {
                let ghost before = items_view(items@);
                items.push(BrowserItem { kind: BrowserItemKind::Child, path: c[j].clone() });
                assert(cs.take(j + 1).map_values(|p: Seq<char>| (BrowserItemKind::Child, p)) =~= cs.take(
                    j as int,
                ).map_values(|p: Seq<char>| (BrowserItemKind::Child, p)).push((BrowserItemKind::Child, cs[j as int])));
                assert(items_view(items@) =~= before.push((BrowserItemKind::Child, cs[j as int])));
                j += 1;
            }
            assert(cs.take(j as int) =~= cs);
        },
        None => {},
    }
    assert(items_view(items@) =~= browser_entries(root@, rs, keep@, opt_strings_view(*children)));
    items
}

/// `n` flags all set.
pub fn all_kept(n: usize) -> (v: Vec<bool>)
    ensures
        v.len() == n,
        forall|i: int| 0 <= i < n ==> v@[i],
{
    let mut v: Vec<bool> = Vec::new();
    while v.len() < n
        invariant
            v.len() <= n,
            forall|i: int| 0 <= i < v.len() ==> v@[i],
        decreases n - v.len(),
    {
        v.push(true);
    }
    v
}

/// The first line a list shows so that the selection is on screen: the
/// top while it fits, else the selection on the last visible line, never
/// past the end.
pub open spec fn scroll_top(selected_idx: usize, len: usize, visible_rows: usize) -> int {
    if visible_rows == 0 || len <= visible_rows {
        0
    } else {
        let a = if selected_idx >= visible_rows - 1 { selected_idx - (visible_rows - 1) } else { 0 };
        let b = len - visible_rows;
        if a <= b { a } else { b }
    }
}

pub fn list_scroll_top(selected_idx: usize, len: usize, visible_rows: usize) -> (r: usize)
    ensures
        r == scroll_top(selected_idx, len, visible_rows),
{
    if visible_rows == 0 || len <= visible_rows {
        0
    } else {
        let a = selected_idx.saturating_sub(visible_rows - 1);
        let b = len - visible_rows;
        if a <= b { a } else { b }
    }
}

/// The selection moved by `delta`, kept within a list of `len`.
pub open spec fn scrolled(selected_idx: usize, len: usize, delta: i32) -> usize {
    if len == 0 {
        0
    } else if delta >= 0 {
        let s = selected_idx + delta;
        let s = if s > usize::MAX { usize::MAX as int } else { s };
        (if s <= len - 1 { s } else { len - 1 }) as usize
    } else {
        (if selected_idx >= -delta { selected_idx + delta } else { 0 }) as usize
    }
}

pub fn scroll_selection(selected_idx: &mut usize, len: usize, delta: i32)
    ensures
        *final(selected_idx) == scrolled(*old(selected_idx), len, delta),
{
    if len == 0 {
        *selected_idx = 0;
        return;
    }
    if delta >= 0 {
        let s = (*selected_idx).saturating_add(delta as usize);
        *selected_idx = if s <= len - 1 { s } else { len - 1 };
    } else {
        let d: usize = (-(delta as i64)) as usize;
        *selected_idx = (*selected_idx).saturating_sub(d);
    }
}

/// Where the chooser starts browsing: the given root, else `projects` in
/// the home directory when that is a directory, else the home directory,
/// else `/`.
pub open spec fn preferred_root(initial_root: Option<Seq<char>>, home: Option<Seq<char>>, projects_is_dir: bool) -> Seq<
    char,
> {
    match initial_root {
        Some(r) => r,
        None => match home {
            Some(h) => if projects_is_dir { project_switcher::projects_root(h) } else { h },
            None => "/"@,
        },
    }
}

/// The directory the chooser starts in; `projects_is_dir` says whether
/// `projects` in the home directory is a directory.
pub fn preferred_browser_root(initial_root: Option<String>, home: Option<String>, projects_is_dir: bool) -> (r: String)
    ensures
        r@ == preferred_root(paths::opt_string_view(initial_root), paths::opt_string_view(home), projects_is_dir),
{
    match initial_root {
        Some(r) => r,
        None => match home {
            Some(h) => if projects_is_dir {
                edit::resolve_path(h.as_str(), "projects")
            } else {
                h
            },
            None => {
                proof {
                    reveal_strlit("/");
                }
                String::from_str("/")
            },
        },
    }
}

/// `projects` in the home directory.
pub fn projects_dir(home: &str) -> (r: String)
    ensures
        r@ == project_switcher::projects_root(home@),
{
    edit::resolve_path(home, "projects")
}

/// Which list of a two-pane popup has the focus.
#[derive(Clone, Copy, PartialEq, Eq, Structural, Debug)]
pub enum BrowserPane {
    Favorites,
    Browser,
}

/// What a key did in a two-pane popup: it was handled, sending the request
/// if any; or the application is to look at `path` on disk, and browse into
/// it if it is a directory (else, for `BrowseOrOpen`, open the selection).
#[derive(Clone, Debug)]
pub enum PaneKeyResult {
    Handled(Option<ViewEvent>),
    BrowseIfDirectory(String),
    BrowseOrOpen(String),
}

/// A key's result as the contracts speak of it.
pub enum PaneKeySpec {
    Handled(Option<EventSpec>),
    BrowseIfDirectory(Seq<char>),
    BrowseOrOpen(Seq<char>),
}

pub open spec fn pane_key_view(r: PaneKeyResult) -> PaneKeySpec {
    match r {
        PaneKeyResult::Handled(e) => PaneKeySpec::Handled(opt_event_view(e)),
        PaneKeyResult::BrowseIfDirectory(p) => PaneKeySpec::BrowseIfDirectory(p@),
        PaneKeyResult::BrowseOrOpen(p) => PaneKeySpec::BrowseOrOpen(p@),
    }
}

pub type LineSpec = Seq<(Seq<char>, SpanStyle)>;

/// A favorite's line in a list: a `> ` before the highlighted one, the
/// open marker when asked for and the project is open, and the name.
pub open spec fn favorite_line(f: FavoriteProjectTile, highlighted: bool, marker: bool) -> LineSpec {
    let prefix = if highlighted { ("> "@, styled(Tint::Cyan, true, false)) } else { ("  "@, project_switcher::plain()) };
    let mid: LineSpec = if marker && f.is_open { seq![("● "@, styled(Tint::Magenta, true, false))] } else { seq![] };
    seq![prefix] + mid + seq![(f.label@, project_switcher::plain())]
}

/// The lines of a favorites list, or a note that there are none.
pub open spec fn favorite_lines(favorites: Seq<FavoriteProjectTile>, highlight: Option<int>, marker: bool) -> Seq<LineSpec> {
    if favorites.len() == 0 {
        seq![seq![("No favorites yet."@, project_switcher::plain())]]
    } else {
        Seq::new(favorites.len(), |i: int| favorite_line(favorites[i], highlight == Some(i), marker))
    }
}

/// How a browser entry reads.
pub open spec fn entry_text(e: (BrowserItemKind, Seq<char>)) -> Seq<char> {
    match e.0 {
        BrowserItemKind::Recent => "Recent: "@ + e.1,
        BrowserItemKind::Parent => ".. "@ + e.1,
        BrowserItemKind::Child => e.1,
    }
}

/// A browser entry's line: a magenta `> ` before the highlighted one.
pub open spec fn entry_line(e: (BrowserItemKind, Seq<char>), highlighted: bool) -> LineSpec {
    seq![
        if highlighted { ("> "@, styled(Tint::Magenta, true, false)) } else { ("  "@, project_switcher::plain()) },
        (entry_text(e), project_switcher::plain()),
    ]
}

/// The lines of a browser, or a note that it is empty.
pub open spec fn entry_lines(entries: Seq<(BrowserItemKind, Seq<char>)>, highlight: Option<int>) -> Seq<LineSpec> {
    if entries.len() == 0 {
        seq![seq![("No browser items."@, project_switcher::plain())]]
    } else {
        Seq::new(entries.len(), |i: int| entry_line(entries[i], highlight == Some(i)))
    }
}

/// The text of a list inside the frame on `area`, scrolled to show the
/// selection.
pub open spec fn list_panel(area: PaneRect, lines: Seq<LineSpec>, selected: usize, len: usize) -> PanelSpec {
    let inner = layout::inner_area(area);
    let top = scroll_top(selected, len, inner.height as usize);
    PanelSpec {
        area: inner,
        clear: false,
        frame: None,
        lines,
        scroll: (if top <= u16::MAX { top } else { u16::MAX as int }) as u16,
    }
}

/// A frame on `area` with a title, coloured and bold when focused, double
/// when focused and `double_when_focused`.
pub open spec fn frame_panel(area: PaneRect, focused: bool, double_when_focused: bool, tint: Tint, title: Seq<char>) -> PanelSpec {
    PanelSpec {
        area,
        clear: false,
        frame: Some(
            FrameSpec {
                double: focused && double_when_focused,
                style: if focused { styled(tint, true, false) } else { project_switcher::plain() },
                title: Some(title),
            },
        ),
        lines: seq![],
        scroll: 0,
    }
}

fn style(tint: Tint, bold: bool, dim: bool) -> (s: SpanStyle)
    ensures
        s == styled(tint, bold, dim),
{
    SpanStyle { tint, bold, dim }
}

/// The lines of a favorites list.
pub fn favorites_list(favorites: &Vec<FavoriteProjectTile>, highlight: Option<usize>, marker: bool) -> (v: Vec<StyledLine>)
    ensures
        ui::lines_view(v@) == favorite_lines(favorites@, project_switcher::opt_index(highlight), marker),
{
    let mut lines: Vec<StyledLine> = Vec::new();
    if favorites.len() == 0 {
        ui::push_line(&mut lines, ui::line1(String::from_str("No favorites yet."), style(Tint::Default, false, false)));
        assert(ui::lines_view(lines@) =~~= favorite_lines(favorites@, project_switcher::opt_index(highlight), marker));
        return lines;
    }
    let ghost want = favorite_lines(favorites@, project_switcher::opt_index(highlight), marker);
    let mut i: usize = 0;
    while i < favorites.len()
        invariant
            i <= favorites.len(),
            favorites.len() > 0,
            want == favorite_lines(favorites@, project_switcher::opt_index(highlight), marker),
            ui::lines_view(lines@) == want.take(i as int),
        decreases favorites.len() - i,
    {
        let f = &favorites[i];
        let highlighted = match highlight {
            Some(h) => h == i,
            None => false,
        };
        let mut l = if highlighted {
            ui::line1(String::from_str("> "), style(Tint::Cyan, true, false))
        } else {
            ui::line1(String::from_str("  "), style(Tint::Default, false, false))
        };
        if marker && f.is_open {
            ui::push_span(&mut l, String::from_str("● "), style(Tint::Magenta, true, false));
        }
        ui::push_span(&mut l, f.label.clone(), style(Tint::Default, false, false));
        assert(ui::line_view(l) =~= favorite_line(favorites@[i as int], highlighted, marker));
        ui::push_line(&mut lines, l);
        assert(want.take(i + 1) =~= want.take(i as int).push(favorite_line(favorites@[i as int], highlighted, marker)));
        i += 1;
    }
    assert(want.take(i as int) =~= want);
    lines
}

/// The lines of a browser.
pub fn browser_list(items: &Vec<BrowserItem>, highlight: Option<usize>) -> (v: Vec<StyledLine>)
    ensures
        ui::lines_view(v@) == entry_lines(items_view(items@), project_switcher::opt_index(highlight)),
{
    let mut lines: Vec<StyledLine> = Vec::new();
    if items.len() == 0 {
        ui::push_line(&mut lines, ui::line1(String::from_str("No browser items."), style(Tint::Default, false, false)));
        assert(ui::lines_view(lines@) =~~= entry_lines(items_view(items@), project_switcher::opt_index(highlight)));
        return lines;
    }
    let ghost want = entry_lines(items_view(items@), project_switcher::opt_index(highlight));
    let mut i: usize = 0;
    while i < items.len()
        invariant
            i <= items.len(),
            items.len() > 0,
            want == entry_lines(items_view(items@), project_switcher::opt_index(highlight)),
            ui::lines_view(lines@) == want.take(i as int),
        decreases items.len() - i,
    {
        let item = &items[i];
        let highlighted = match highlight {
            Some(h) => h == i,
            None => false,
        };
        let mut l = if highlighted {
            ui::line1(String::from_str("> "), style(Tint::Magenta, true, false))
        } else {
            ui::line1(String::from_str("  "), style(Tint::Default, false, false))
        };
        let t = match item.kind {
            BrowserItemKind::Recent => {
                let mut t = String::from_str("Recent: ");
                text::push_str(&mut t, item.path.as_str());
                t
            },
            BrowserItemKind::Parent => {
                let mut t = String::from_str(".. ");
                text::push_str(&mut t, item.path.as_str());
                t
            },
            BrowserItemKind::Child => item.path.clone(),
        };
        ui::push_span(&mut l, t, style(Tint::Default, false, false));
        assert(ui::line_view(l) =~= entry_line(items_view(items@)[i as int], highlighted));
        ui::push_line(&mut lines, l);
        assert(want.take(i + 1) =~= want.take(i as int).push(entry_line(items_view(items@)[i as int], highlighted)));
        i += 1;
    }
    assert(want.take(i as int) =~= want);
    lines
}

/// The panel of a list inside the frame on `area`.
pub fn list_in_frame(area: PaneRect, lines: Vec<StyledLine>, selected: usize, len: usize) -> (p: Panel)
    ensures
        ui::panel_view(p) == list_panel(area, ui::lines_view(lines@), selected, len),
{
    let inner = layout::bordered_inner(area);
    let top = list_scroll_top(selected, len, inner.height as usize);
    let scroll: u16 = if top <= 65535 { top as u16 } else { 65535 };
    Panel { area: inner, clear: false, frame: None, lines, scroll }
}

/// A titled frame on `area`.
pub fn titled_frame(area: PaneRect, focused: bool, double_when_focused: bool, tint: Tint, title: String) -> (p: Panel)
    ensures
        ui::panel_view(p) == frame_panel(area, focused, double_when_focused, tint, title@),
{
    let p = Panel {
        area,
        clear: false,
        frame: Some(
            Frame {
                double: focused && double_when_focused,
                style: if focused { style(tint, true, false) } else { style(Tint::Default, false, false) },
                title: Some(title),
            },
        ),
        lines: Vec::new(),
        scroll: 0,
    };
    assert(ui::panel_view(p) =~~= frame_panel(area, focused, double_when_focused, tint, title@));
    p
}

/// The project chooser.
pub struct ProjectChooserView {
    pub complete: bool,
    pub target: ProjectOpenTarget,
    pub favorites: Vec<FavoriteProjectTile>,
    pub recents: Vec<String>,
    pub browser_root: String,
    pub browser_items: Vec<BrowserItem>,
    pub focused_pane: BrowserPane,
    pub selected_favorite_idx: usize,
    pub selected_browser_idx: usize,
}

/// The chooser's title for where the project opens.
pub open spec fn target_title_spec(target: ProjectOpenTarget) -> Seq<char> {
    match target {
        ProjectOpenTarget::Tab(NewTabPlacement::Left) => "Open Project In LEFT Tab"@,
        ProjectOpenTarget::Tab(NewTabPlacement::Right) => "Open Project In RIGHT Tab"@,
        ProjectOpenTarget::SplitPane { axis: SplitAxis::Horizontal, .. } => "Open Project In New Horizontal Pane"@,
        ProjectOpenTarget::SplitPane { axis: SplitAxis::Vertical, .. } => "Open Project In New Vertical Pane"@,
    }
}

/// The chooser's hint under the title.
pub open spec fn chooser_hint() -> Seq<char> {
    "Choose a favorite, or browse into a directory. Enter opens; X starts fresh."@
}

impl ProjectChooserView {
    /// The chooser over the favorites, browsing the listed directory, with
    /// the first favorite selected and the favorites focused.
    pub fn new(
        favorites: Vec<FavoriteProjectTile>,
        recents: Vec<String>,
        listing: DirectoryListing,
        target: ProjectOpenTarget,
    ) -> (v: ProjectChooserView)
        requires
            listing.recent_is_dir.len() == recents.len(),
        ensures
            v.complete == false,
            v.target == target,
            v.favorites == favorites,
            v.recents == recents,
            v.browser_root == listing.root,
            items_view(v.browser_items@) == browser_entries(
                listing.root@,
                text::strings_view(recents@),
                listing.recent_is_dir@,
                opt_strings_view(listing.children),
            ),
            v.focused_pane == BrowserPane::Favorites,
            v.selected_favorite_idx == 0,
            v.selected_browser_idx == 0,
    {
        let browser_items = build_browser_items(
            listing.root.as_str(),
            &recents,
            &listing.recent_is_dir,
            &listing.children,
        );
        ProjectChooserView {
            complete: false,
            target,
            favorites,
            recents,
            browser_root: listing.root,
            browser_items,
            focused_pane: BrowserPane::Favorites,
            selected_favorite_idx: 0,
            selected_browser_idx: 0,
        }
    }

    /// The title naming where the project will open.
    pub fn target_title(&self) -> (s: &'static str)
        ensures
            s@ == target_title_spec(self.target),
    {
        match self.target {
            ProjectOpenTarget::Tab(NewTabPlacement::Left) => "Open Project In LEFT Tab",
            ProjectOpenTarget::Tab(NewTabPlacement::Right) => "Open Project In RIGHT Tab",
            ProjectOpenTarget::SplitPane { axis: SplitAxis::Horizontal, .. } => "Open Project In New Horizontal Pane",
            ProjectOpenTarget::SplitPane { axis: SplitAxis::Vertical, .. } => "Open Project In New Vertical Pane",
        }
    }

    /// The path of the selected browser entry.
    pub open spec fn browser_path(self) -> Option<Seq<char>> {
        if self.selected_browser_idx < self.browser_items.len() {
            Some(self.browser_items@[self.selected_browser_idx as int].path@)
        } else {
            None
        }
    }

    pub fn current_browser_path(&self) -> (r: Option<String>)
        ensures
            paths::opt_string_view(r) == self.browser_path(),
    {
        if self.selected_browser_idx < self.browser_items.len() {
            Some(self.browser_items[self.selected_browser_idx].path.clone())
        } else {
            None
        }
    }

    /// Browses the listed directory, from its first entry.
    pub fn rebuild_browser(&mut self, listing: DirectoryListing)
        requires
            listing.recent_is_dir.len() == old(self).recents.len(),
        ensures
            final(self).browser_root == listing.root,
            items_view(final(self).browser_items@) == browser_entries(
                listing.root@,
                text::strings_view(old(self).recents@),
                listing.recent_is_dir@,
                opt_strings_view(listing.children),
            ),
            final(self).selected_browser_idx == 0,
            final(self).complete == old(self).complete,
            final(self).target == old(self).target,
            final(self).favorites == old(self).favorites,
            final(self).recents == old(self).recents,
            final(self).focused_pane == old(self).focused_pane,
            final(self).selected_favorite_idx == old(self).selected_favorite_idx,
    {
        self.browser_items = build_browser_items(
            listing.root.as_str(),
            &self.recents,
            &listing.recent_is_dir,
            &listing.children,
        );
        self.browser_root = listing.root;
        self.selected_browser_idx = 0;
    }

    pub open spec fn completed(self) -> Self {
        ProjectChooserView { complete: true, ..self }
    }

    /// The path the selection stands for in the focused pane.
    pub open spec fn selected_path(self) -> Option<Seq<char>> {
        match self.focused_pane {
            BrowserPane::Favorites => if self.selected_favorite_idx < self.favorites.len() {
                Some(self.favorites@[self.selected_favorite_idx as int].cwd@)
            } else {
                None
            },
            BrowserPane::Browser => self.browser_path(),
        }
    }

    /// Enter: focus or open the selected project where the chooser targets.
    pub open spec fn confirm_outcome(self) -> (Self, Option<EventSpec>) {
        match self.selected_path() {
            Some(p) => (self.completed(), Some(EventSpec::FocusOrOpenProjectAtTarget { cwd: p, target: self.target })),
            None => (self, None),
        }
    }

    /// x: start a fresh session of the selected project.
    pub open spec fn fresh_outcome(self) -> (Self, Option<EventSpec>) {
        match self.selected_path() {
            Some(p) => (self.completed(), Some(EventSpec::OpenNewProjectSessionAtTarget { cwd: p, target: self.target })),
            None => (self, None),
        }
    }

    /// What a key does: the new view and the result.
    pub open spec fn key_outcome(self, code: KeyCode, mods: Modifiers) -> (Self, PaneKeySpec) {
        match project_switcher::switcher_key(code, mods) {
            project_switcher::SwitcherKey::Left => (
                ProjectChooserView { focused_pane: BrowserPane::Favorites, ..self },
                PaneKeySpec::Handled(None),
            ),
            project_switcher::SwitcherKey::Right => if self.focused_pane == BrowserPane::Browser {
                match self.browser_path() {
                    Some(p) => (self, PaneKeySpec::BrowseIfDirectory(p)),
                    None => (self, PaneKeySpec::Handled(None)),
                }
            } else {
                (ProjectChooserView { focused_pane: BrowserPane::Browser, ..self }, PaneKeySpec::Handled(None))
            },
            project_switcher::SwitcherKey::Up => (
                match self.focused_pane {
                    BrowserPane::Favorites => ProjectChooserView {
                        selected_favorite_idx: if self.selected_favorite_idx > 0 {
                            (self.selected_favorite_idx - 1) as usize
                        } else {
                            0
                        },
                        ..self
                    },
                    BrowserPane::Browser => ProjectChooserView {
                        selected_browser_idx: if self.selected_browser_idx > 0 {
                            (self.selected_browser_idx - 1) as usize
                        } else {
                            0
                        },
                        ..self
                    },
                },
                PaneKeySpec::Handled(None),
            ),
            project_switcher::SwitcherKey::Down => (
                match self.focused_pane {
                    BrowserPane::Favorites => if self.selected_favorite_idx + 1 < self.favorites.len() {
                        ProjectChooserView { selected_favorite_idx: (self.selected_favorite_idx + 1) as usize, ..self }
                    } else {
                        self
                    },
                    BrowserPane::Browser => if self.selected_browser_idx + 1 < self.browser_items.len() {
                        ProjectChooserView { selected_browser_idx: (self.selected_browser_idx + 1) as usize, ..self }
                    } else {
                        self
                    },
                },
                PaneKeySpec::Handled(None),
            ),
            project_switcher::SwitcherKey::Confirm => (self.confirm_outcome().0, PaneKeySpec::Handled(self.confirm_outcome().1)),
            project_switcher::SwitcherKey::Context => (self.fresh_outcome().0, PaneKeySpec::Handled(self.fresh_outcome().1)),
            project_switcher::SwitcherKey::Close => (self.completed(), PaneKeySpec::Handled(None)),
            project_switcher::SwitcherKey::Ignore => (self, PaneKeySpec::Handled(None)),
        }
    }

    fn selection_path(&self) -> (r: Option<String>)
        ensures
            paths::opt_string_view(r) == self.selected_path(),
    {
        match self.focused_pane {
            BrowserPane::Favorites => {
                if self.selected_favorite_idx < self.favorites.len() {
                    Some(self.favorites[self.selected_favorite_idx].cwd.clone())
                } else {
                    None
                }
            },
            BrowserPane::Browser => self.current_browser_path(),
        }
    }

    /// Enter on the selection.
    pub fn confirm(&mut self) -> (r: Option<ViewEvent>)
        ensures
            (*final(self), opt_event_view(r)) == old(self).confirm_outcome(),
    {
        match self.selection_path() {
            Some(cwd) => Some(self.open_project(cwd)),
            None => None,
        }
    }

    /// x on the selection.
    pub fn open_fresh(&mut self) -> (r: Option<ViewEvent>)
        ensures
            (*final(self), opt_event_view(r)) == old(self).fresh_outcome(),
    {
        match self.selection_path() {
            Some(cwd) => Some(self.open_new_session(cwd)),
            None => None,
        }
    }

    /// Opens the project at `cwd` in the view's target (focusing it where it
    /// is open), and completes the view.
    pub fn open_project(&mut self, cwd: String) -> (e: ViewEvent)
        ensures
            *final(self) == old(self).completed(),
            crate::app_event::event_view(e) == (EventSpec::FocusOrOpenProjectAtTarget { cwd: cwd@, target: old(self).target }),
    {
        self.complete = true;
        ViewEvent::FocusOrOpenProjectAtTarget { cwd, target: self.target }
    }

    /// Starts a new session of the project at `cwd` in the view's target, and
    /// completes the view.
    pub fn open_new_session(&mut self, cwd: String) -> (e: ViewEvent)
        ensures
            *final(self) == old(self).completed(),
            crate::app_event::event_view(e) == (EventSpec::OpenNewProjectSessionAtTarget { cwd: cwd@, target: old(self).target }),
    {
        self.complete = true;
        ViewEvent::OpenNewProjectSessionAtTarget { cwd, target: self.target }
    }

    /// The directory to browse into, where the browser pane has focus: the
    /// selected entry's path (the caller browses it if it is a directory).
    pub fn browse_deeper(&self) -> (r: Option<String>)
        ensures
            paths::opt_string_view(r) == if self.focused_pane == BrowserPane::Browser {
                self.browser_path()
            } else {
                None
            },
    {
        match self.focused_pane {
            BrowserPane::Browser => self.current_browser_path(),
            BrowserPane::Favorites => None,
        }
    }

    /// Handles a key: switches panes, moves the selection, opens the
    /// selected project, or asks to browse into the selected directory.
    pub fn handle_key_event(&mut self, code: KeyCode, mods: Modifiers) -> (r: PaneKeyResult)
        ensures
            (*final(self), pane_key_view(r)) == old(self).key_outcome(code, mods),
    {
        match project_switcher::classify_switcher_key(code, mods) {
            project_switcher::SwitcherKey::Left => {
                self.focused_pane = BrowserPane::Favorites;
                PaneKeyResult::Handled(None)
            },
            project_switcher::SwitcherKey::Right => {
                match self.focused_pane {
                    BrowserPane::Browser => match self.current_browser_path() {
                        Some(p) => PaneKeyResult::BrowseIfDirectory(p),
                        None => PaneKeyResult::Handled(None),
                    },
                    BrowserPane::Favorites => {
                        self.focused_pane = BrowserPane::Browser;
                        PaneKeyResult::Handled(None)
                    },
                }
            },
            project_switcher::SwitcherKey::Up => {
                match self.focused_pane {
                    BrowserPane::Favorites => {
                        self.selected_favorite_idx = self.selected_favorite_idx.saturating_sub(1);
                    },
                    BrowserPane::Browser => {
                        self.selected_browser_idx = self.selected_browser_idx.saturating_sub(1);
                    },
                }
                PaneKeyResult::Handled(None)
            },
            project_switcher::SwitcherKey::Down => {
                match self.focused_pane {
                    BrowserPane::Favorites => {
                        if self.favorites.len() > 0 && self.selected_favorite_idx < self.favorites.len() - 1 {
                            self.selected_favorite_idx += 1;
                        }
                    },
                    BrowserPane::Browser => {
                        if self.browser_items.len() > 0 && self.selected_browser_idx < self.browser_items.len() - 1 {
                            self.selected_browser_idx += 1;
                        }
                    },
                }
                PaneKeyResult::Handled(None)
            },
            project_switcher::SwitcherKey::Confirm => PaneKeyResult::Handled(self.confirm()),
            project_switcher::SwitcherKey::Context => PaneKeyResult::Handled(self.open_fresh()),
            project_switcher::SwitcherKey::Close => {
                self.complete = true;
                PaneKeyResult::Handled(None)
            },
            project_switcher::SwitcherKey::Ignore => PaneKeyResult::Handled(None),
        }
    }

    pub fn is_complete(&self) -> (b: bool)
        ensures
            b == self.complete,
    {
        self.complete
    }

    /// Ctrl-C closes the chooser.
    pub fn on_ctrl_c(&mut self)
        ensures
            *final(self) == old(self).completed(),
    {
        self.complete = true;
    }

    /// The id the bottom pane knows the chooser by.
    pub fn view_id(&self) -> (s: &'static str)
        ensures
            s@ == "project-chooser"@,
    {
        "project-chooser"
    }

    /// The key a gamepad button stands for in the chooser.
    pub fn map_gamepad_action(&self, action: GamepadAction) -> (r: Option<KeyCode>)
        ensures
            r == match action {
                GamepadAction::Confirm => Some(KeyCode::Enter),
                GamepadAction::Context => Some(KeyCode::Char('x')),
                _ => None,
            },
    {
        project_switcher::popup_gamepad_key(action)
    }

    /// Rows the chooser wants: more for a split pane than for a tab.
    pub fn desired_height(&self, width: u16) -> (h: u16)
        ensures
            h == match self.target {
                ProjectOpenTarget::Tab(_) => 26u16,
                ProjectOpenTarget::SplitPane { .. } => 34u16,
            },
    {
        match self.target {
            ProjectOpenTarget::Tab(_) => 26,
            ProjectOpenTarget::SplitPane { .. } => 34,
        }
    }
}

/// A panel of text lines on `area`, with no frame.
pub open spec fn text_panel(area: PaneRect, lines: Seq<LineSpec>) -> PanelSpec {
    PanelSpec { area, clear: false, frame: None, lines, scroll: 0 }
}

/// The area cleared before a popup is drawn.
pub open spec fn clear_panel(area: PaneRect) -> PanelSpec {
    PanelSpec { area, clear: true, frame: None, lines: seq![], scroll: 0 }
}

/// A popup's rows: header, body and footer.
pub open spec fn popup_rows(header: u16, footer: u16) -> Seq<LayoutConstraint> {
    seq![LayoutConstraint::Length(header), LayoutConstraint::Fill(1), LayoutConstraint::Length(footer)]
}

/// A popup body's two columns, by percentage.
pub open spec fn popup_columns(left: u16, right: u16) -> Seq<LayoutConstraint> {
    seq![LayoutConstraint::Percentage(left), LayoutConstraint::Percentage(right)]
}

/// The rows of a popup, as handed to the layout.
pub fn popup_rows_list(header: u16, footer: u16) -> (v: Vec<LayoutConstraint>)
    ensures
        v@ == popup_rows(header, footer),
{
    let mut cs: Vec<LayoutConstraint> = Vec::new();
    cs.push(LayoutConstraint::Length(header));
    cs.push(LayoutConstraint::Fill(1));
    cs.push(LayoutConstraint::Length(footer));
    assert(cs@ =~= popup_rows(header, footer));
    cs
}

/// The columns of a popup's body, as handed to the layout.
pub fn popup_columns_list(left: u16, right: u16) -> (v: Vec<LayoutConstraint>)
    ensures
        v@ == popup_columns(left, right),
{
    let mut ds: Vec<LayoutConstraint> = Vec::new();
    ds.push(LayoutConstraint::Percentage(left));
    ds.push(LayoutConstraint::Percentage(right));
    assert(ds@ =~= popup_columns(left, right));
    ds
}

/// `parts` (header, left column, right column, footer) is what cutting a
/// popup gives: `area` split top to bottom into `popup_rows(header,
/// footer)`, and the middle row split left to right into
/// `popup_columns(left, right)`.
pub open spec fn popup_split(
    area: PaneRect,
    header: u16,
    footer: u16,
    left: u16,
    right: u16,
    parts: (PaneRect, PaneRect, PaneRect, PaneRect),
) -> bool {
    exists|rows: Seq<PaneRect>, cols: Seq<PaneRect>|
        #![trigger layout::split_by(area, true, popup_rows(header, footer), rows), layout::split_by(rows[1], false, popup_columns(left, right), cols)]
        layout::split_by(area, true, popup_rows(header, footer), rows) && layout::split_by(
            rows[1],
            false,
            popup_columns(left, right),
            cols,
        ) && parts == (rows[0], cols[0], cols[1], rows[2])
}

/// Splits a popup into header, body and footer rows, and the body into two
/// columns: the header, the two columns and the footer, in that order.
pub fn popup_areas(area: PaneRect, header: u16, footer: u16, left: u16, right: u16) -> (r: (
    PaneRect,
    PaneRect,
    PaneRect,
    PaneRect,
))
    ensures
        popup_split(area, header, footer, left, right, r),
{
    let cs = popup_rows_list(header, footer);
    let rows = layout::split_area(area, true, cs.as_slice());
    let ds = popup_columns_list(left, right);
    let cols = layout::split_area(rows[1], false, ds.as_slice());
    let r = (rows[0], cols[0], cols[1], rows[2]);
    assert(layout::split_by(area, true, popup_rows(header, footer), rows@));
    assert(layout::split_by(rows@[1], false, popup_columns(left, right), cols@));
    r
}

impl ProjectChooserView {
    /// The header: where the project will open, a hint, and the browsed
    /// directory.
    pub open spec fn header_lines(self) -> Seq<LineSpec> {
        seq![
            seq![(target_title_spec(self.target), project_switcher::bold())],
            seq![(chooser_hint(), project_switcher::dim())],
            seq![(self.browser_root@, project_switcher::dim())],
        ]
    }

    /// The footer's key hints.
    pub open spec fn footer_lines() -> Seq<LineSpec> {
        seq![
            seq![("enter to open project | x to open fresh"@, project_switcher::plain())],
            seq![("right/l to browse directory | esc to cancel"@, project_switcher::dim())],
        ]
    }

    /// What the chooser draws in `area`: the area cleared, the header, the
    /// favorites and the browser side by side, each in a frame (double and
    /// coloured when focused) and scrolled to its selection, and the key
    /// hints. Nothing is drawn in an empty area.
    pub open spec fn render_spec(self, area: PaneRect, parts: (PaneRect, PaneRect, PaneRect, PaneRect)) -> Seq<PanelSpec> {
        if area.width == 0 || area.height == 0 {
            seq![]
        } else {
            let (header_area, favorites_area, browser_area, footer_area) = parts;
            let favorites_focused = self.focused_pane == BrowserPane::Favorites;
            let browser_focused = self.focused_pane == BrowserPane::Browser;
            seq![
                clear_panel(area),
                text_panel(header_area, self.header_lines()),
                frame_panel(favorites_area, favorites_focused, true, Tint::Cyan, "Favorites"@),
                list_panel(
                    favorites_area,
                    favorite_lines(
                        self.favorites@,
                        if favorites_focused { Some(self.selected_favorite_idx as int) } else { None },
                        true,
                    ),
                    self.selected_favorite_idx,
                    self.favorites.len(),
                ),
                frame_panel(browser_area, browser_focused, true, Tint::Magenta, "Browser: "@ + self.browser_root@),
                list_panel(
                    browser_area,
                    entry_lines(
                        items_view(self.browser_items@),
                        if browser_focused { Some(self.selected_browser_idx as int) } else { None },
                    ),
                    self.selected_browser_idx,
                    self.browser_items.len(),
                ),
                text_panel(footer_area, Self::footer_lines()),
            ]
        }
    }

    /// Lays the chooser out in `area`: its popup cut into header, header
    /// rows, favorites and browser columns, and footer by the layout; the
    /// panels are those `render_in` draws on the parts the layout gave.
    pub fn render(&self, area: PaneRect) -> (r: Vec<Panel>)
        ensures
            area.width == 0 || area.height == 0 ==> ui::panels_view(r@) == Seq::<PanelSpec>::empty(),
            area.width > 0 && area.height > 0 ==> exists|parts: (PaneRect, PaneRect, PaneRect, PaneRect)|
                popup_split(area, 3, 2, 42, 58, parts) && ui::panels_view(r@) == #[trigger] self.render_spec(area, parts),
    {
        let parts = if area.width == 0 || area.height == 0 {
            (area, area, area, area)
        } else {
            popup_areas(area, 3, 2, 42, 58)
        };
        let r = self.render_in(area, parts);
        assert(ui::panels_view(r@) == self.render_spec(area, parts));
        r
    }

    /// The panels the chooser draws in `area` when its popup is cut into
    /// `parts`: header, favorites column, browser column and footer.
    pub fn render_in(&self, area: PaneRect, parts: (PaneRect, PaneRect, PaneRect, PaneRect)) -> (r: Vec<Panel>)
        ensures
            ui::panels_view(r@) == self.render_spec(area, parts),
    {
        let mut panels: Vec<Panel> = Vec::new();
        if area.width == 0 || area.height == 0 {
            assert(ui::panels_view(panels@) =~= seq![]);
            return panels;
        }
        let (header_area, favorites_area, browser_area, footer_area) = parts;
        let favorites_focused = match self.focused_pane {
            BrowserPane::Favorites => true,
            _ => false,
        };
        let browser_focused = !favorites_focused;
        ui::push_panel(&mut panels, Panel { area, clear: true, frame: None, lines: Vec::new(), scroll: 0 });
        let mut header: Vec<StyledLine> = Vec::new();
        ui::push_line(&mut header, ui::line1(String::from_str(self.target_title()), style(Tint::Default, true, false)));
        ui::push_line(
            &mut header,
            ui::line1(
                String::from_str("Choose a favorite, or browse into a directory. Enter opens; X starts fresh."),
                style(Tint::Default, false, true),
            ),
        );
        ui::push_line(&mut header, ui::line1(self.browser_root.clone(), style(Tint::Default, false, true)));
        ui::push_panel(&mut panels, Panel { area: header_area, clear: false, frame: None, lines: header, scroll: 0 });
        ui::push_panel(
            &mut panels,
            titled_frame(favorites_area, favorites_focused, true, Tint::Cyan, String::from_str("Favorites")),
        );
        let favorite_lines = favorites_list(
            &self.favorites,
            if favorites_focused { Some(self.selected_favorite_idx) } else { None },
            true,
        );
        ui::push_panel(
            &mut panels,
            list_in_frame(favorites_area, favorite_lines, self.selected_favorite_idx, self.favorites.len()),
        );
        let mut title = String::from_str("Browser: ");
        text::push_str(&mut title, self.browser_root.as_str());
        ui::push_panel(&mut panels, titled_frame(browser_area, browser_focused, true, Tint::Magenta, title));
        let browser_lines = browser_list(
            &self.browser_items,
            if browser_focused { Some(self.selected_browser_idx) } else { None },
        );
        ui::push_panel(
            &mut panels,
            list_in_frame(browser_area, browser_lines, self.selected_browser_idx, self.browser_items.len()),
        );
        let mut footer: Vec<StyledLine> = Vec::new();
        ui::push_line(
            &mut footer,
            ui::line1(String::from_str("enter to open project | x to open fresh"), style(Tint::Default, false, false)),
        );
        ui::push_line(
            &mut footer,
            ui::line1(String::from_str("right/l to browse directory | esc to cancel"), style(Tint::Default, false, true)),
        );
        ui::push_panel(&mut panels, Panel { area: footer_area, clear: false, frame: None, lines: footer, scroll: 0 });
        assert(ui::panels_view(panels@) =~~= self.render_spec(area, parts));
        panels
    }
}

} // verus!
