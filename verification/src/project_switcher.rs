//! The project switcher popup: grids of the open tabs, of the favorite
//! projects and of the switcher's actions, walked with the arrow keys; and
//! the favorites editor, a list of favorites beside a directory browser.
use vstd::prelude::*;
use crate::app_event::EventSpec;
use crate::app_event::ProjectOpenTarget;
use crate::app_event::ViewEvent;
use crate::app_event::event_view;
use crate::app_event::opt_event_view;
use crate::app_input::GamepadAction;
use crate::app_input::KeyCode;
use crate::app_input::Modifiers;
use crate::edit;
use crate::layout;
use crate::paths;
use crate::project_navigation::AttentionMode;
use crate::project_navigation::NewTabPlacement;
use crate::project_tabs::ProjectAttentionLevel;
use crate::split_pane::PaneRect;
use crate::text;
use crate::project_chooser;
use crate::project_chooser::BrowserItem;
use crate::project_chooser::BrowserPane;
use crate::project_chooser::DirectoryListing;
use crate::project_chooser::PaneKeyResult;
use crate::project_chooser::PaneKeySpec;
use crate::ui;
use crate::ui::Frame;
use crate::ui::FrameSpec;
use crate::ui::Panel;
use crate::ui::PanelSpec;
use crate::ui::SpanStyle;
use crate::ui::StyledLine;
use crate::ui::Tint;
use crate::ui::styled;
use crate::layout::LayoutConstraint;

verus! {

/// Width of a project tile, gap included.
pub const TILE_WIDTH: u16 = 28;
/// Height of a project tile.
pub const TILE_HEIGHT: u16 = 5;
/// Gap between two tiles of a row.
pub const TILE_GAP: u16 = 1;
/// Width of an action tile, gap included.
pub const ACTION_TILE_WIDTH: u16 = 14;
/// Height of an action tile.
pub const ACTION_TILE_HEIGHT: u16 = 3;
/// Rows a framed section spends on its frame.
pub const SECTION_CHROME_HEIGHT: u16 = 2;
/// Rows of the switcher's header.
pub const HEADER_HEIGHT: u16 = 2;
/// Rows of the switcher's footer.
pub const FOOTER_HEIGHT: u16 = 1;
/// Lowest height of the open tabs section.
pub const MIN_TABS_SECTION_HEIGHT: u16 = 12;
/// Lowest height of the favorites section.
pub const MIN_FAVORITES_SECTION_HEIGHT: u16 = 8;
/// Lowest height of the actions section.
pub const MIN_ACTIONS_SECTION_HEIGHT: u16 = 3;
/// Number of the switcher's actions.
pub const ACTION_COUNT: usize = 7;
/// Lines a scroll step moves a list by.
pub const LIST_SCROLL_STEP: usize = 3;
/// Most recent projects the favorites browser lists.
pub const MAX_BROWSER_RECENTS: usize = 6;

/// How a grid of tiles fits a width: columns, rows, and the width of a tile.
#[derive(Clone, Copy, PartialEq, Eq, Structural, Debug)]
pub struct TileGridLayout {
    pub columns: usize,
    pub rows: usize,
    pub tile_width: u16,
}

/// `n / c` rounded up.
pub open spec fn ceil_div(n: int, c: int) -> int {
    if n % c == 0 { n / c } else { n / c + 1 }
}

proof fn lemma_ceil_div_bounds(n: int, c: int)
    requires
        n >= 1,
        c >= 1,
    ensures
        1 <= ceil_div(n, c) <= n,
{
    if c == 1 {
        assert(n / 1 == n && n % 1 == 0);
    } else {
        assert(n / c <= n / 2) by (nonlinear_arith)
            requires
                n >= 1,
                c >= 2,
        ;
        assert(n % c != 0 ==> n / c >= 0) by (nonlinear_arith)
            requires
                n >= 1,
                c >= 2,
        ;
        assert(n % c == 0 ==> n / c >= 1) by (nonlinear_arith)
            requires
                n >= 1,
                c >= 2,
        ;
    }
}

/// Columns of a grid: as many tiles as fit the width with the gap after the
/// last one, at least one.
pub open spec fn grid_columns(area_width: u16, item_width: u16) -> usize {
    let c = layout::sat_add(area_width, TILE_GAP) / item_width;
    if c >= 1 { c as usize } else { 1 }
}

/// The grid of `item_count` tiles of `item_width` (gap included) in a width:
/// rows enough for the tiles (one for none), and a single column's tile
/// takes the whole width.
pub open spec fn grid_spec(item_count: usize, area_width: u16, item_width: u16) -> TileGridLayout {
    let columns = grid_columns(area_width, item_width);
    let n: int = if item_count >= 1 { item_count as int } else { 1 };
    TileGridLayout {
        columns,
        rows: ceil_div(n, columns as int) as usize,
        tile_width: if columns == 1 {
            if area_width >= 1 { area_width } else { 1 }
        } else {
            layout::sat_sub(item_width, TILE_GAP)
        },
    }
}

/// The grid of the project tiles for a popup width: tiles sit inside the
/// section's frame.
pub open spec fn tile_section_grid(item_count: usize, popup_width: u16) -> TileGridLayout {
    grid_spec(item_count, layout::sat_sub(popup_width, 2), TILE_WIDTH)
}

/// Height of a section of project tiles: its frame and its rows, at least
/// `min_height`.
pub open spec fn tile_section_height(item_count: usize, popup_width: u16, min_height: u16) -> int {
    let grid = SECTION_CHROME_HEIGHT + (tile_section_grid(item_count, popup_width).rows as u16) * TILE_HEIGHT;
    if grid >= min_height { grid } else { min_height as int }
}

/// Height of the actions section: its rows of action tiles, at least the
/// minimum.
pub open spec fn action_section_height(popup_width: u16) -> int {
    let grid = grid_spec(ACTION_COUNT, popup_width, ACTION_TILE_WIDTH).rows * ACTION_TILE_HEIGHT;
    if grid >= MIN_ACTIONS_SECTION_HEIGHT { grid } else { MIN_ACTIONS_SECTION_HEIGHT as int }
}

/// The sections of the switcher.
#[derive(Clone, Copy, PartialEq, Eq, Structural, Debug)]
pub enum SwitcherSection {
    Tabs,
    Favorites,
    Actions,
}

pub open spec fn next_section(s: SwitcherSection) -> SwitcherSection {
    match s {
        SwitcherSection::Tabs => SwitcherSection::Favorites,
        SwitcherSection::Favorites => SwitcherSection::Actions,
        SwitcherSection::Actions => SwitcherSection::Tabs,
    }
}

pub open spec fn previous_section(s: SwitcherSection) -> SwitcherSection {
    match s {
        SwitcherSection::Tabs => SwitcherSection::Actions,
        SwitcherSection::Favorites => SwitcherSection::Tabs,
        SwitcherSection::Actions => SwitcherSection::Favorites,
    }
}

/// The actions the switcher offers.
#[derive(Clone, Copy, PartialEq, Eq, Structural, Debug)]
pub enum ProjectSwitcherAction {
    BrowseProjects,
    BrowseFilesystem,
    EditFavorites,
    RenameCurrentTab,
    ToggleAttentionMode,
    CloseCurrentTab,
    SaveAndQuit,
}

/// The actions in the order the grid shows them.
pub open spec fn action_at(i: int) -> ProjectSwitcherAction {
    if i == 0 {
        ProjectSwitcherAction::BrowseProjects
    } else if i == 1 {
        ProjectSwitcherAction::BrowseFilesystem
    } else if i == 2 {
        ProjectSwitcherAction::EditFavorites
    } else if i == 3 {
        ProjectSwitcherAction::RenameCurrentTab
    } else if i == 4 {
        ProjectSwitcherAction::ToggleAttentionMode
    } else if i == 5 {
        ProjectSwitcherAction::CloseCurrentTab
    } else {
        ProjectSwitcherAction::SaveAndQuit
    }
}

/// The mode after `m` in the cycle off, soft, on.
pub open spec fn next_attention(m: AttentionMode) -> AttentionMode {
    match m {
        AttentionMode::Off => AttentionMode::Soft,
        AttentionMode::Soft => AttentionMode::On,
        AttentionMode::On => AttentionMode::Off,
    }
}

pub open spec fn attention_label(m: AttentionMode) -> Seq<char> {
    match m {
        AttentionMode::Off => "off"@,
        AttentionMode::Soft => "soft"@,
        AttentionMode::On => "on"@,
    }
}

impl ProjectSwitcherAction {
    pub open spec fn label_spec(self, attention_mode: AttentionMode) -> Seq<char> {
        match self {
            ProjectSwitcherAction::BrowseProjects => "Browse projects"@,
            ProjectSwitcherAction::BrowseFilesystem => "Browse /"@,
            ProjectSwitcherAction::EditFavorites => "Edit favorites"@,
            ProjectSwitcherAction::RenameCurrentTab => "Rename tab"@,
            ProjectSwitcherAction::ToggleAttentionMode => "Attention "@ + attention_label(
                next_attention(attention_mode),
            ),
            ProjectSwitcherAction::CloseCurrentTab => "Close tab"@,
            ProjectSwitcherAction::SaveAndQuit => "Save + quit"@,
        }
    }

    /// The tile's label; the attention toggle names the mode it switches to.
    pub fn label(self, attention_mode: AttentionMode) -> (s: String)
        ensures
            s@ == self.label_spec(attention_mode),
    {
        match self {
            ProjectSwitcherAction::BrowseProjects => String::from_str("Browse projects"),
            ProjectSwitcherAction::BrowseFilesystem => String::from_str("Browse /"),
            ProjectSwitcherAction::EditFavorites => String::from_str("Edit favorites"),
            ProjectSwitcherAction::RenameCurrentTab => String::from_str("Rename tab"),
            ProjectSwitcherAction::ToggleAttentionMode => {
                let mut s = String::from_str("Attention ");
                text::push_str(&mut s, attention_mode.next().label());
                s
            },
            ProjectSwitcherAction::CloseCurrentTab => String::from_str("Close tab"),
            ProjectSwitcherAction::SaveAndQuit => String::from_str("Save + quit"),
        }
    }
}

/// The action at position `i` of the grid, if there is one.
pub fn action_item(i: usize) -> (r: Option<ProjectSwitcherAction>)
    ensures
        r == if i < ACTION_COUNT { Some(action_at(i as int)) } else { None },
{
    if i == 0 {
        Some(ProjectSwitcherAction::BrowseProjects)
    } else if i == 1 {
        Some(ProjectSwitcherAction::BrowseFilesystem)
    } else if i == 2 {
        Some(ProjectSwitcherAction::EditFavorites)
    } else if i == 3 {
        Some(ProjectSwitcherAction::RenameCurrentTab)
    } else if i == 4 {
        Some(ProjectSwitcherAction::ToggleAttentionMode)
    } else if i == 5 {
        Some(ProjectSwitcherAction::CloseCurrentTab)
    } else if i == 6 {
        Some(ProjectSwitcherAction::SaveAndQuit)
    } else {
        None
    }
}

/// An open project tab as the switcher shows it.
#[derive(Clone, Debug)]
pub struct ProjectSwitcherTabTile {
    pub thread_id: u64,
    pub label: String,
    pub cwd: String,
    pub summary: Option<String>,
    pub is_active: bool,
    pub attention: Option<ProjectAttentionLevel>,
}

/// A favorite project as the switcher shows it.
#[derive(Clone, Debug)]
pub struct FavoriteProjectTile {
    pub cwd: String,
    pub label: String,
    pub description: Option<String>,
    pub is_open: bool,
}

/// Position of the first active tab.
pub open spec fn first_active(tabs: Seq<ProjectSwitcherTabTile>) -> Option<int>
    decreases tabs.len(),
{
    if tabs.len() == 0 {
        None
    } else if tabs[0].is_active {
        Some(0)
    } else {
        match first_active(tabs.drop_first()) {
            Some(i) => Some(i + 1),
            None => None,
        }
    }
}

proof fn lemma_first_active(tabs: Seq<ProjectSwitcherTabTile>, k: int)
    requires
        0 <= k <= tabs.len(),
        forall|t: int| 0 <= t < k ==> !(#[trigger] tabs[t]).is_active,
    ensures
        k < tabs.len() && tabs[k].is_active ==> first_active(tabs) == Some(k),
        k == tabs.len() ==> first_active(tabs) is None,
        first_active(tabs) matches Some(i) ==> 0 <= i < tabs.len() && tabs[i].is_active,
    decreases k,
{
    if k > 0 {
        let d = tabs.drop_first();
        assert forall|t: int| 0 <= t < k - 1 implies !(#[trigger] d[t]).is_active by {
            assert(d[t] == tabs[t + 1]);
        }
        lemma_first_active(d, k - 1);
    } else {
        lemma_first_active_some(tabs);
    }
}

proof fn lemma_first_active_some(tabs: Seq<ProjectSwitcherTabTile>)
    ensures
        first_active(tabs) matches Some(i) ==> 0 <= i < tabs.len() && tabs[i].is_active,
    decreases tabs.len(),
{
    if tabs.len() > 0 {
        lemma_first_active_some(tabs.drop_first());
    }
}

/// Position of the active tab, if any.
pub fn active_tab_position(tabs: &Vec<ProjectSwitcherTabTile>) -> (r: Option<usize>)
    ensures
        r == match first_active(tabs@) {
            Some(i) => Some(i as usize),
            None => None,
        },
        r matches Some(i) ==> i < tabs.len() && tabs@[i as int].is_active,
        first_active(tabs@) matches Some(i) ==> 0 <= i < tabs.len(),
{
    let mut i: usize = 0;
    while i < tabs.len()
        invariant
            i <= tabs.len(),
            forall|t: int| 0 <= t < i ==> !(#[trigger] tabs@[t]).is_active,
        decreases tabs.len() - i,
    {
        if tabs[i].is_active {
            proof {
                lemma_first_active(tabs@, i as int);
            }
            return Some(i);
        }
        i += 1;
    }
    proof {
        lemma_first_active(tabs@, i as int);
    }
    None
}

/// Where the switcher opens a favorite: a new tab to the right.
pub open spec fn right_tab() -> ProjectOpenTarget {
    ProjectOpenTarget::Tab(NewTabPlacement::Right)
}

/// What a key does in the switcher.
#[derive(Clone, Copy, PartialEq, Eq, Structural, Debug)]
pub enum SwitcherKey {
    Left,
    Right,
    Up,
    Down,
    Confirm,
    Context,
    Close,
    Ignore,
}

/// Arrows and h/j/k/l move, Enter confirms, x acts on the selection, Esc
/// closes; the letters count only without modifiers.
pub open spec fn switcher_key(code: KeyCode, mods: Modifiers) -> SwitcherKey {
    if code == KeyCode::Left || (code == KeyCode::Char('h') && mods.is_none()) {
        SwitcherKey::Left
    } else if code == KeyCode::Right || (code == KeyCode::Char('l') && mods.is_none()) {
        SwitcherKey::Right
    } else if code == KeyCode::Up || (code == KeyCode::Char('k') && mods.is_none()) {
        SwitcherKey::Up
    } else if code == KeyCode::Down || (code == KeyCode::Char('j') && mods.is_none()) {
        SwitcherKey::Down
    } else if code == KeyCode::Enter {
        SwitcherKey::Confirm
    } else if code == KeyCode::Char('x') && mods.is_none() {
        SwitcherKey::Context
    } else if code == KeyCode::Esc {
        SwitcherKey::Close
    } else {
        SwitcherKey::Ignore
    }
}

/// The key a popup reads for a gamepad button: confirm is Enter, context is
/// x, the rest go elsewhere.
pub fn popup_gamepad_key(action: GamepadAction) -> (r: Option<KeyCode>)
    ensures
        r == match action {
            GamepadAction::Confirm => Some(KeyCode::Enter),
            GamepadAction::Context => Some(KeyCode::Char('x')),
            _ => None,
        },
{
    match action {
        GamepadAction::Confirm => Some(KeyCode::Enter),
        GamepadAction::Context => Some(KeyCode::Char('x')),
        _ => None,
    }
}

pub fn classify_switcher_key(code: KeyCode, mods: Modifiers) -> (k: SwitcherKey)
    ensures
        k == switcher_key(code, mods),
{
    let none = !mods.control && !mods.alt && !mods.shift && !mods.other;
    match code {
        KeyCode::Left => SwitcherKey::Left,
        KeyCode::Right => SwitcherKey::Right,
        KeyCode::Up => SwitcherKey::Up,
        KeyCode::Down => SwitcherKey::Down,
        KeyCode::Enter => SwitcherKey::Confirm,
        KeyCode::Esc => SwitcherKey::Close,
        KeyCode::Char(c) => {
            if c == 'h' && none {
                SwitcherKey::Left
            } else if c == 'l' && none {
                SwitcherKey::Right
            } else if c == 'k' && none {
                SwitcherKey::Up
            } else if c == 'j' && none {
                SwitcherKey::Down
            } else if c == 'x' && none {
                SwitcherKey::Context
            } else {
                SwitcherKey::Ignore
            }
        },
        _ => SwitcherKey::Ignore,
    }
}

/// The project switcher. `*_columns` hold how many columns each grid had
/// when last laid out, which the up and down moves step by.
pub struct ProjectSwitcherView {
    pub complete: bool,
    pub workspace_name: String,
    pub workspace_index: usize,
    pub workspace_count: usize,
    pub attention_mode: AttentionMode,
    pub tabs: Vec<ProjectSwitcherTabTile>,
    pub favorites: Vec<FavoriteProjectTile>,
    pub current_cwd: String,
    pub selected_section: SwitcherSection,
    pub selected_tab_idx: usize,
    pub selected_favorite_idx: usize,
    pub selected_action_idx: usize,
    pub tab_columns: usize,
    pub favorite_columns: usize,
    pub action_columns: usize,
}

/// The directory the switcher browses for projects: `projects` in the home
/// directory.
pub open spec fn projects_root(home: Seq<char>) -> Seq<char> {
    edit::joined_path(home, "projects"@)
}

impl ProjectSwitcherView {
    /// The switcher over the given tabs and favorites, with the active tab
    /// selected (the first tab if none is active) in the tabs section.
    pub fn new(
        workspace_name: String,
        workspace_index: usize,
        workspace_count: usize,
        attention_mode: AttentionMode,
        tabs: Vec<ProjectSwitcherTabTile>,
        favorites: Vec<FavoriteProjectTile>,
        current_cwd: String,
    ) -> (v: ProjectSwitcherView)
        ensures
            v == (ProjectSwitcherView {
                complete: false,
                workspace_name,
                workspace_index,
                workspace_count,
                attention_mode,
                tabs,
                favorites,
                current_cwd,
                selected_section: SwitcherSection::Tabs,
                selected_tab_idx: match first_active(tabs@) {
                    Some(i) => i as usize,
                    None => 0,
                },
                selected_favorite_idx: 0,
                selected_action_idx: 0,
                tab_columns: 1,
                favorite_columns: 1,
                action_columns: 1,
            }),
    {
        let selected_tab_idx = match active_tab_position(&tabs) {
            Some(i) => i,
            None => 0,
        };
        ProjectSwitcherView {
            complete: false,
            workspace_name,
            workspace_index,
            workspace_count,
            attention_mode,
            tabs,
            favorites,
            current_cwd,
            selected_section: SwitcherSection::Tabs,
            selected_tab_idx,
            selected_favorite_idx: 0,
            selected_action_idx: 0,
            tab_columns: 1,
            favorite_columns: 1,
            action_columns: 1,
        }
    }

    /// The grid of `item_count` tiles of `item_width` (gap included) in
    /// `area_width`.
    pub fn grid_layout(item_count: usize, area_width: u16, item_width: u16) -> (l: TileGridLayout)
        requires
            item_width > 0,
        ensures
            l == grid_spec(item_count, area_width, item_width),
    {
        let c0 = area_width.saturating_add(TILE_GAP) / item_width;
        let columns: usize = if c0 >= 1 { c0 as usize } else { 1 };
        let n: usize = if item_count >= 1 { item_count } else { 1 };
        proof {
            lemma_ceil_div_bounds(n as int, columns as int);
        }
        let q = n / columns;
        let rows = if n % columns == 0 { q } else { q + 1 };
        let tile_width = if columns == 1 {
            if area_width >= 1 { area_width } else { 1 }
        } else {
            item_width.saturating_sub(TILE_GAP)
        };
        TileGridLayout { columns, rows, tile_width }
    }

    /// The grid of project tiles in `area_width`.
    pub fn tile_grid_layout(item_count: usize, area_width: u16) -> (l: TileGridLayout)
        ensures
            l == grid_spec(item_count, area_width, TILE_WIDTH),
    {
        Self::grid_layout(item_count, area_width, TILE_WIDTH)
    }

    /// Height of a section of project tiles in a popup of `popup_width`.
    pub fn tile_grid_section_height(item_count: usize, popup_width: u16, min_height: u16) -> (h: u16)
        requires
            SECTION_CHROME_HEIGHT + (tile_section_grid(item_count, popup_width).rows as u16) * TILE_HEIGHT <= u16::MAX,
        ensures
            h == tile_section_height(item_count, popup_width, min_height),
    {
        let layout = Self::tile_grid_layout(item_count, popup_width.saturating_sub(2));
        let grid_height = SECTION_CHROME_HEIGHT + (layout.rows as u16) * TILE_HEIGHT;
        if grid_height >= min_height { grid_height } else { min_height }
    }

    /// The grid of the action tiles in `area_width`.
    pub fn action_grid_layout(&self, area_width: u16) -> (l: TileGridLayout)
        ensures
            l == grid_spec(ACTION_COUNT, area_width, ACTION_TILE_WIDTH),
    {
        Self::grid_layout(ACTION_COUNT, area_width, ACTION_TILE_WIDTH)
    }

    /// Height of the actions section in a popup of `popup_width`.
    pub fn action_grid_section_height(&self, popup_width: u16) -> (h: u16)
        ensures
            h == action_section_height(popup_width),
    {
        let layout = self.action_grid_layout(popup_width);
        proof {
            lemma_ceil_div_bounds(ACTION_COUNT as int, layout.columns as int);
        }
        let grid = (layout.rows as u16) * ACTION_TILE_HEIGHT;
        if grid >= MIN_ACTIONS_SECTION_HEIGHT { grid } else { MIN_ACTIONS_SECTION_HEIGHT }
    }

    /// Height of the whole switcher: header, the three sections, footer.
    pub open spec fn height_spec(self, width: u16) -> int {
        HEADER_HEIGHT + tile_section_height(self.tabs.len(), width, MIN_TABS_SECTION_HEIGHT)
            + tile_section_height(self.favorites.len(), width, MIN_FAVORITES_SECTION_HEIGHT)
            + action_section_height(width) + FOOTER_HEIGHT
    }

    /// The height fits a terminal's coordinates.
    pub open spec fn height_fits(self, width: u16) -> bool {
        &&& SECTION_CHROME_HEIGHT + (tile_section_grid(self.tabs.len(), width).rows as u16) * TILE_HEIGHT <= u16::MAX
        &&& SECTION_CHROME_HEIGHT + (tile_section_grid(self.favorites.len(), width).rows as u16) * TILE_HEIGHT <= u16::MAX
        &&& self.height_spec(width) <= u16::MAX
    }

    /// Rows the switcher wants at `width`.
    pub fn desired_height(&self, width: u16) -> (h: u16)
        requires
            self.height_fits(width),
        ensures
            h == self.height_spec(width),
    {
        let tabs = Self::tile_grid_section_height(self.tabs.len(), width, MIN_TABS_SECTION_HEIGHT);
        let favorites = Self::tile_grid_section_height(self.favorites.len(), width, MIN_FAVORITES_SECTION_HEIGHT);
        let actions = self.action_grid_section_height(width);
        HEADER_HEIGHT + tabs + favorites + actions + FOOTER_HEIGHT
    }

    /// Number of tiles in a section.
    pub open spec fn section_len(self, s: SwitcherSection) -> int {
        match s {
            SwitcherSection::Tabs => self.tabs.len() as int,
            SwitcherSection::Favorites => self.favorites.len() as int,
            SwitcherSection::Actions => ACTION_COUNT as int,
        }
    }

    /// The selected tile of a section.
    pub open spec fn selected_in(self, s: SwitcherSection) -> usize {
        match s {
            SwitcherSection::Tabs => self.selected_tab_idx,
            SwitcherSection::Favorites => self.selected_favorite_idx,
            SwitcherSection::Actions => self.selected_action_idx,
        }
    }

    /// Columns a section's grid steps by: as last laid out, at least one.
    pub open spec fn columns_of(self, s: SwitcherSection) -> usize {
        let c = match s {
            SwitcherSection::Tabs => self.tab_columns,
            SwitcherSection::Favorites => self.favorite_columns,
            SwitcherSection::Actions => self.action_columns,
        };
        if c >= 1 { c } else { 1 }
    }

    /// The view with the selection of section `s` at `i`.
    pub open spec fn with_selected(self, s: SwitcherSection, i: usize) -> Self {
        match s {
            SwitcherSection::Tabs => ProjectSwitcherView { selected_tab_idx: i, ..self },
            SwitcherSection::Favorites => ProjectSwitcherView { selected_favorite_idx: i, ..self },
            SwitcherSection::Actions => ProjectSwitcherView { selected_action_idx: i, ..self },
        }
    }

    pub open spec fn with_section(self, s: SwitcherSection) -> Self {
        ProjectSwitcherView { selected_section: s, ..self }
    }

    pub open spec fn completed(self) -> Self {
        ProjectSwitcherView { complete: true, ..self }
    }

    /// Left: the previous tile of the section, if there is one.
    pub open spec fn after_left(self) -> Self {
        let s = self.selected_section;
        let i = self.selected_in(s);
        if i > 0 { self.with_selected(s, (i - 1) as usize) } else { self }
    }

    /// Right: the next tile of the section, if there is one.
    pub open spec fn after_right(self) -> Self {
        let s = self.selected_section;
        let i = self.selected_in(s);
        if i + 1 < self.section_len(s) { self.with_selected(s, (i + 1) as usize) } else { self }
    }

    /// The view after `k` presses of Right.
    pub open spec fn after_rights(self, k: nat) -> Self
        decreases k,
    {
        if k == 0 { self } else { self.after_right().after_rights((k - 1) as nat) }
    }

    /// Up: the tile a row up, or from the top row the previous section.
    pub open spec fn after_up(self) -> Self {
        let s = self.selected_section;
        let i = self.selected_in(s);
        let c = self.columns_of(s);
        if i >= c { self.with_selected(s, (i - c) as usize) } else { self.with_section(previous_section(s)) }
    }

    /// Down: the tile a row down, or from the bottom row the next section.
    pub open spec fn after_down(self) -> Self {
        let s = self.selected_section;
        let i = self.selected_in(s);
        let c = self.columns_of(s);
        if i + c < self.section_len(s) {
            self.with_selected(s, (i + c) as usize)
        } else {
            self.with_section(next_section(s))
        }
    }

    /// Focuses the next section.
    pub fn focus_next_section(&mut self)
        ensures
            *final(self) == old(self).with_section(next_section(old(self).selected_section)),
    {
        self.selected_section = match self.selected_section {
            SwitcherSection::Tabs => SwitcherSection::Favorites,
            SwitcherSection::Favorites => SwitcherSection::Actions,
            SwitcherSection::Actions => SwitcherSection::Tabs,
        };
    }

    /// Focuses the previous section.
    pub fn focus_previous_section(&mut self)
        ensures
            *final(self) == old(self).with_section(previous_section(old(self).selected_section)),
    {
        self.selected_section = match self.selected_section {
            SwitcherSection::Tabs => SwitcherSection::Actions,
            SwitcherSection::Favorites => SwitcherSection::Tabs,
            SwitcherSection::Actions => SwitcherSection::Favorites,
        };
    }

    pub fn move_left(&mut self)
        ensures
            *final(self) == old(self).after_left(),
    {
        match self.selected_section {
            SwitcherSection::Tabs => {
                if self.selected_tab_idx > 0 {
                    self.selected_tab_idx -= 1;
                }
            },
            SwitcherSection::Favorites => {
                if self.selected_favorite_idx > 0 {
                    self.selected_favorite_idx -= 1;
                }
            },
            SwitcherSection::Actions => {
                if self.selected_action_idx > 0 {
                    self.selected_action_idx -= 1;
                }
            },
        }
    }

    pub fn move_right(&mut self)
        ensures
            *final(self) == old(self).after_right(),
    {
        match self.selected_section {
            SwitcherSection::Tabs => {
                if self.tabs.len() > 0 && self.selected_tab_idx < self.tabs.len() - 1 {
                    self.selected_tab_idx += 1;
                }
            },
            SwitcherSection::Favorites => {
                if self.favorites.len() > 0 && self.selected_favorite_idx < self.favorites.len() - 1 {
                    self.selected_favorite_idx += 1;
                }
            },
            SwitcherSection::Actions => {
                if self.selected_action_idx < ACTION_COUNT - 1 {
                    self.selected_action_idx += 1;
                }
            },
        }
    }

    pub fn move_up(&mut self)
        ensures
            *final(self) == old(self).after_up(),
    {
        match self.selected_section {
            SwitcherSection::Tabs => {
                let columns = if self.tab_columns >= 1 { self.tab_columns } else { 1 };
                if self.selected_tab_idx >= columns {
                    self.selected_tab_idx -= columns;
                } else {
                    self.focus_previous_section();
                }
            },
            SwitcherSection::Favorites => {
                let columns = if self.favorite_columns >= 1 { self.favorite_columns } else { 1 };
                if self.selected_favorite_idx >= columns {
                    self.selected_favorite_idx -= columns;
                } else {
                    self.focus_previous_section();
                }
            },
            SwitcherSection::Actions => {
                let columns = if self.action_columns >= 1 { self.action_columns } else { 1 };
                if self.selected_action_idx >= columns {
                    self.selected_action_idx -= columns;
                } else {
                    self.focus_previous_section();
                }
            },
        }
    }

    pub fn move_down(&mut self)
        ensures
            *final(self) == old(self).after_down(),
    {
        match self.selected_section {
            SwitcherSection::Tabs => {
                let columns = if self.tab_columns >= 1 { self.tab_columns } else { 1 };
                if columns < self.tabs.len() && self.selected_tab_idx < self.tabs.len() - columns {
                    self.selected_tab_idx += columns;
                } else {
                    self.focus_next_section();
                }
            },
            SwitcherSection::Favorites => {
                let columns = if self.favorite_columns >= 1 { self.favorite_columns } else { 1 };
                if columns < self.favorites.len() && self.selected_favorite_idx < self.favorites.len() - columns {
                    self.selected_favorite_idx += columns;
                } else {
                    self.focus_next_section();
                }
            },
            SwitcherSection::Actions => {
                let columns = if self.action_columns >= 1 { self.action_columns } else { 1 };
                if columns < ACTION_COUNT && self.selected_action_idx < ACTION_COUNT - columns {
                    self.selected_action_idx += columns;
                } else {
                    self.focus_next_section();
                }
            },
        }
    }
}

/// The right edge of an area, saturating as the terminal's areas do.
pub open spec fn right_edge(a: PaneRect) -> int {
    if a.x + a.width > u16::MAX { u16::MAX as int } else { a.x + a.width }
}

/// The bottom edge of an area, saturating as the terminal's areas do.
pub open spec fn bottom_edge(a: PaneRect) -> int {
    if a.y + a.height > u16::MAX { u16::MAX as int } else { a.y + a.height }
}

/// Where tile `idx` of a grid lies in `area`: row by row, columns apart by
/// the tile width and a one-cell gap; none for a tile that does not fit.
pub open spec fn grid_cell(area: PaneRect, l: TileGridLayout, tile_height: u16, idx: int) -> Option<PaneRect> {
    let row = idx / (l.columns as int);
    let col = idx % (l.columns as int);
    let stride: int = l.tile_width + if l.columns > 1 { 1int } else { 0int };
    let x = area.x + col * stride;
    let y = area.y + row * tile_height;
    if y + tile_height > bottom_edge(area) || x >= right_edge(area) {
        None
    } else {
        let room = right_edge(area) - x;
        Some(
            PaneRect {
                x: x as u16,
                y: y as u16,
                width: (if l.tile_width <= room { l.tile_width as int } else { room }) as u16,
                height: tile_height,
            },
        )
    }
}

/// The tiles among the first `n` that fit, in order, with their areas.
pub open spec fn grid_cells(area: PaneRect, l: TileGridLayout, tile_height: u16, n: int) -> Seq<(int, PaneRect)>
    decreases n,
{
    if n <= 0 {
        seq![]
    } else {
        let prev = grid_cells(area, l, tile_height, n - 1);
        match grid_cell(area, l, tile_height, n - 1) {
            Some(r) => prev.push((n - 1, r)),
            None => prev,
        }
    }
}

pub open spec fn cells_view(v: Seq<(usize, PaneRect)>) -> Seq<(int, PaneRect)> {
    v.map_values(|c: (usize, PaneRect)| (c.0 as int, c.1))
}

/// The tiles of a grid of `count` items that fit in `area`, with the grid.
pub fn grid_cells_in(area: PaneRect, count: usize, item_width: u16, tile_height: u16) -> (r: (
    TileGridLayout,
    Vec<(usize, PaneRect)>,
))
    requires
        item_width > 0,
    ensures
        r.0 == grid_spec(count, area.width, item_width),
        cells_view(r.1@) == grid_cells(area, r.0, tile_height, count as int),
{
    let l = ProjectSwitcherView::grid_layout(count, area.width, item_width);
    let right: u64 = if area.x as u64 + area.width as u64 > 65535 { 65535 } else { area.x as u64 + area.width as u64 };
    let bottom: u128 = if area.y as u128 + area.height as u128 > 65535 {
        65535
    } else {
        area.y as u128 + area.height as u128
    };
    let stride: u64 = l.tile_width as u64 + if l.columns > 1 { 1u64 } else { 0u64 };
    let mut cells: Vec<(usize, PaneRect)> = Vec::new();
    let mut idx: usize = 0;
    while idx < count
        invariant
            idx <= count,
            l == grid_spec(count, area.width, item_width),
            l.columns >= 1,
            l.columns <= u16::MAX + 1,
            right == right_edge(area),
            bottom == bottom_edge(area),
            stride == l.tile_width + if l.columns > 1 { 1int } else { 0int },
            cells_view(cells@) == grid_cells(area, l, tile_height, idx as int),
        decreases count - idx,
    {
        let row = idx / l.columns;
        let col = idx % l.columns;
        assert(col < l.columns);
        assert(col as int * stride <= (u16::MAX + 1) * (u16::MAX + 1)) by (nonlinear_arith)
            requires
                col < l.columns,
                l.columns <= u16::MAX + 1,
                stride <= u16::MAX + 1,
        ;
        let x: u64 = area.x as u64 + col as u64 * stride;
        assert(row as int * tile_height <= usize::MAX * u16::MAX) by (nonlinear_arith)
            requires
                row <= usize::MAX,
        ;
        let y: u128 = area.y as u128 + row as u128 * tile_height as u128;
        let ghost before = cells_view(cells@);
        if !(y + tile_height as u128 > bottom || x >= right) {
            let room = right - x;
            let w: u16 = if l.tile_width as u64 <= room { l.tile_width } else { room as u16 };
            cells.push((idx, PaneRect { x: x as u16, y: y as u16, width: w, height: tile_height }));
            assert(cells_view(cells@) =~= before.push((idx as int, grid_cell(area, l, tile_height, idx as int)->0)));
        }
        idx += 1;
    }
    (l, cells)
}

/// Characters of a tile's summary or description line that are shown.
pub const TILE_TEXT_CHARS: usize = 140;

pub open spec fn plain() -> SpanStyle {
    styled(Tint::Default, false, false)
}

pub open spec fn dim() -> SpanStyle {
    styled(Tint::Default, false, true)
}

pub open spec fn bold() -> SpanStyle {
    styled(Tint::Default, true, false)
}

pub type LineSpec = Seq<(Seq<char>, SpanStyle)>;

/// The three lines of an open tab's tile: attention marker and name (cyan
/// and bold when active), directory, and the summary ("Ready" when there is
/// none) cut to its first characters.
pub open spec fn tab_tile_lines(t: ProjectSwitcherTabTile) -> Seq<LineSpec> {
    let marker: LineSpec = match t.attention {
        Some(a) => seq![a.marker_spec(), (" "@, plain())],
        None => seq![],
    };
    let name = if t.is_active { (t.label@, styled(Tint::Cyan, true, false)) } else { (t.label@, plain()) };
    let summary = match t.summary {
        Some(s) => s@,
        None => "Ready"@,
    };
    seq![marker.push(name), seq![(t.cwd@, dim())], seq![(text::prefix_chars(summary, TILE_TEXT_CHARS as nat), dim())]]
}

/// Frame colour of an open tab's tile: cyan and bold when selected, cyan
/// when active, else dim.
pub open spec fn tab_tile_style(t: ProjectSwitcherTabTile, selected: bool) -> SpanStyle {
    if selected {
        styled(Tint::Cyan, true, false)
    } else if t.is_active {
        styled(Tint::Cyan, false, false)
    } else {
        dim()
    }
}

/// The three lines of a favorite's tile: name (marked and magenta when the
/// project is open), directory, and the description (a hint when there is
/// none) cut to its first characters.
pub open spec fn favorite_tile_lines(t: FavoriteProjectTile) -> Seq<LineSpec> {
    let title: LineSpec = if t.is_open {
        seq![("● "@, styled(Tint::Magenta, true, false)), (t.label@, styled(Tint::Magenta, true, false))]
    } else {
        seq![(t.label@, plain())]
    };
    let description = match t.description {
        Some(d) => d@,
        None => "Press X to edit favorites"@,
    };
    seq![title, seq![(t.cwd@, dim())], seq![(text::prefix_chars(description, TILE_TEXT_CHARS as nat), dim())]]
}

/// Frame colour of a favorite's tile: magenta and bold when selected,
/// magenta when open, else dim.
pub open spec fn favorite_tile_style(t: FavoriteProjectTile, selected: bool) -> SpanStyle {
    if selected {
        styled(Tint::Magenta, true, false)
    } else if t.is_open {
        styled(Tint::Magenta, false, false)
    } else {
        dim()
    }
}

/// A tile: a frame, double when selected, round lines of text.
pub open spec fn tile_panel(area: PaneRect, selected: bool, style: SpanStyle, lines: Seq<LineSpec>) -> PanelSpec {
    PanelSpec {
        area,
        clear: false,
        frame: Some(FrameSpec { double: selected, style, title: None }),
        lines,
        scroll: 0,
    }
}

pub open spec fn tab_tile_panel(t: ProjectSwitcherTabTile, selected: bool, area: PaneRect) -> PanelSpec {
    tile_panel(area, selected, tab_tile_style(t, selected), tab_tile_lines(t))
}

pub open spec fn favorite_tile_panel(t: FavoriteProjectTile, selected: bool, area: PaneRect) -> PanelSpec {
    tile_panel(area, selected, favorite_tile_style(t, selected), favorite_tile_lines(t))
}

/// An action's tile: its label in a frame, cyan and double when selected.
pub open spec fn action_tile_panel(a: ProjectSwitcherAction, mode: AttentionMode, selected: bool, area: PaneRect) -> PanelSpec {
    tile_panel(
        area,
        selected,
        if selected { styled(Tint::Cyan, true, false) } else { dim() },
        seq![seq![(a.label_spec(mode), plain())]],
    )
}

fn style(tint: Tint, bold: bool, dim: bool) -> (s: SpanStyle)
    ensures
        s == styled(tint, bold, dim),
{
    SpanStyle { tint, bold, dim }
}

fn framed(area: PaneRect, double: bool, style: SpanStyle, title: Option<String>, lines: Vec<StyledLine>) -> (p: Panel)
    ensures
        p.area == area && p.clear == false && p.scroll == 0,
        p.frame matches Some(f) && f.double == double && f.style == style && f.title == title,
        p.lines == lines,
{
    Panel { area, clear: false, frame: Some(Frame { double, style, title }), lines, scroll: 0 }
}

/// The panel of an open tab's tile.
pub fn tab_tile(t: &ProjectSwitcherTabTile, selected: bool, area: PaneRect) -> (p: Panel)
    ensures
        ui::panel_view(p) == tab_tile_panel(*t, selected, area),
{
    let mut title = StyledLine { spans: Vec::new() };
    assert(ui::line_view(title) =~= seq![]);
    match t.attention {
        Some(a) => {
            let (m, ms) = a.marker();
            ui::push_span(&mut title, m, ms);
            ui::push_span(&mut title, String::from_str(" "), style(Tint::Default, false, false));
        },
        None => {},
    }
    if t.is_active {
        ui::push_span(&mut title, t.label.clone(), style(Tint::Cyan, true, false));
    } else {
        ui::push_span(&mut title, t.label.clone(), style(Tint::Default, false, false));
    }
    let summary = match &t.summary {
        Some(s) => text::take_chars(s.as_str(), TILE_TEXT_CHARS),
        None => text::take_chars("Ready", TILE_TEXT_CHARS),
    };
    let mut lines: Vec<StyledLine> = Vec::new();
    ui::push_line(&mut lines, title);
    ui::push_line(&mut lines, ui::line1(t.cwd.clone(), style(Tint::Default, false, true)));
    ui::push_line(&mut lines, ui::line1(summary, style(Tint::Default, false, true)));
    let frame_style = if selected {
        style(Tint::Cyan, true, false)
    } else if t.is_active {
        style(Tint::Cyan, false, false)
    } else {
        style(Tint::Default, false, true)
    };
    let p = framed(area, selected, frame_style, None, lines);
    assert(ui::lines_view(p.lines@) =~~= tab_tile_lines(*t));
    p
}

/// The panel of a favorite's tile.
pub fn favorite_tile(t: &FavoriteProjectTile, selected: bool, area: PaneRect) -> (p: Panel)
    ensures
        ui::panel_view(p) == favorite_tile_panel(*t, selected, area),
{
    let title = if t.is_open {
        let mut l = ui::line1(String::from_str("● "), style(Tint::Magenta, true, false));
        ui::push_span(&mut l, t.label.clone(), style(Tint::Magenta, true, false));
        l
    } else {
        ui::line1(t.label.clone(), style(Tint::Default, false, false))
    };
    let description = match &t.description {
        Some(d) => text::take_chars(d.as_str(), TILE_TEXT_CHARS),
        None => text::take_chars("Press X to edit favorites", TILE_TEXT_CHARS),
    };
    let mut lines: Vec<StyledLine> = Vec::new();
    ui::push_line(&mut lines, title);
    ui::push_line(&mut lines, ui::line1(t.cwd.clone(), style(Tint::Default, false, true)));
    ui::push_line(&mut lines, ui::line1(description, style(Tint::Default, false, true)));
    let frame_style = if selected {
        style(Tint::Magenta, true, false)
    } else if t.is_open {
        style(Tint::Magenta, false, false)
    } else {
        style(Tint::Default, false, true)
    };
    let p = framed(area, selected, frame_style, None, lines);
    assert(ui::lines_view(p.lines@) =~~= favorite_tile_lines(*t));
    p
}

/// The panel of an action's tile.
pub fn action_tile(a: ProjectSwitcherAction, mode: AttentionMode, selected: bool, area: PaneRect) -> (p: Panel)
    ensures
        ui::panel_view(p) == action_tile_panel(a, mode, selected, area),
{
    let mut lines: Vec<StyledLine> = Vec::new();
    ui::push_line(&mut lines, ui::line1(a.label(mode), style(Tint::Default, false, false)));
    let frame_style = if selected { style(Tint::Cyan, true, false) } else { style(Tint::Default, false, true) };
    let p = framed(area, selected, frame_style, None, lines);
    assert(ui::lines_view(p.lines@) =~= seq![seq![(a.label_spec(mode), plain())]]);
    p
}

proof fn lemma_grid_cells_indices(area: PaneRect, l: TileGridLayout, tile_height: u16, n: int)
    ensures
        forall|k: int| 0 <= k < grid_cells(area, l, tile_height, n).len() ==> 0 <= #[trigger] grid_cells(
            area,
            l,
            tile_height,
            n,
        )[k].0 < n,
    decreases n,
{
    if n > 0 {
        lemma_grid_cells_indices(area, l, tile_height, n - 1);
        let prev = grid_cells(area, l, tile_height, n - 1);
        let cur = grid_cells(area, l, tile_height, n);
        assert forall|k: int| 0 <= k < cur.len() implies 0 <= #[trigger] cur[k].0 < n by {
            if k < prev.len() {
                assert(cur[k] == prev[k]);
            }
        }
    }
}

/// The panels of the open tabs' tiles at the given cells; `selected` is the
/// selected tab when the tabs section has the focus.
pub open spec fn tab_panels(tabs: Seq<ProjectSwitcherTabTile>, cells: Seq<(int, PaneRect)>, selected: Option<int>) -> Seq<
    PanelSpec,
> {
    Seq::new(cells.len(), |k: int| tab_tile_panel(tabs[cells[k].0], selected == Some(cells[k].0), cells[k].1))
}

/// The panels of the favorites' tiles at the given cells.
pub open spec fn favorite_panels(favorites: Seq<FavoriteProjectTile>, cells: Seq<(int, PaneRect)>, selected: Option<int>) -> Seq<
    PanelSpec,
> {
    Seq::new(cells.len(), |k: int| favorite_tile_panel(favorites[cells[k].0], selected == Some(cells[k].0), cells[k].1))
}

/// The panels of the action tiles at the given cells.
pub open spec fn action_panels(mode: AttentionMode, cells: Seq<(int, PaneRect)>, selected: Option<int>) -> Seq<PanelSpec> {
    Seq::new(cells.len(), |k: int| action_tile_panel(action_at(cells[k].0), mode, selected == Some(cells[k].0), cells[k].1))
}

pub open spec fn opt_index(o: Option<usize>) -> Option<int> {
    match o {
        Some(i) => Some(i as int),
        None => None,
    }
}

fn push_tab_tiles(
    panels: &mut Vec<Panel>,
    tabs: &Vec<ProjectSwitcherTabTile>,
    cells: &Vec<(usize, PaneRect)>,
    selected: Option<usize>,
)
    requires
        forall|k: int| 0 <= k < cells.len() ==> (#[trigger] cells@[k]).0 < tabs.len(),
    ensures
        ui::panels_view(final(panels)@) == ui::panels_view(old(panels)@) + tab_panels(
            tabs@,
            cells_view(cells@),
            opt_index(selected),
        ),
{
    let ghost base = ui::panels_view(panels@);
    let ghost cv = cells_view(cells@);
    let mut k: usize = 0;
    while k < cells.len()
        invariant
            k <= cells.len(),
            cv == cells_view(cells@),
            forall|j: int| 0 <= j < cells.len() ==> (#[trigger] cells@[j]).0 < tabs.len(),
            ui::panels_view(panels@) == base + tab_panels(tabs@, cv, opt_index(selected)).take(k as int),
        decreases cells.len() - k,
    {
        let (idx, area) = cells[k];
        let sel = match selected {
            Some(s) => s == idx,
            None => false,
        };
        let p = tab_tile(&tabs[idx], sel, area);
        ui::push_panel(panels, p);
        assert(tab_panels(tabs@, cv, opt_index(selected)).take(k + 1) =~= tab_panels(tabs@, cv, opt_index(selected)).take(
            k as int,
        ).push(tab_tile_panel(tabs@[idx as int], sel, area)));
        k += 1;
    }
    assert(tab_panels(tabs@, cv, opt_index(selected)).take(k as int) =~= tab_panels(tabs@, cv, opt_index(selected)));
}

fn push_favorite_tiles(
    panels: &mut Vec<Panel>,
    favorites: &Vec<FavoriteProjectTile>,
    cells: &Vec<(usize, PaneRect)>,
    selected: Option<usize>,
)
    requires
        forall|k: int| 0 <= k < cells.len() ==> (#[trigger] cells@[k]).0 < favorites.len(),
    ensures
        ui::panels_view(final(panels)@) == ui::panels_view(old(panels)@) + favorite_panels(
            favorites@,
            cells_view(cells@),
            opt_index(selected),
        ),
{
    let ghost base = ui::panels_view(panels@);
    let ghost cv = cells_view(cells@);
    let mut k: usize = 0;
    while k < cells.len()
        invariant
            k <= cells.len(),
            cv == cells_view(cells@),
            forall|j: int| 0 <= j < cells.len() ==> (#[trigger] cells@[j]).0 < favorites.len(),
            ui::panels_view(panels@) == base + favorite_panels(favorites@, cv, opt_index(selected)).take(k as int),
        decreases cells.len() - k,
    {
        let (idx, area) = cells[k];
        let sel = match selected {
            Some(s) => s == idx,
            None => false,
        };
        let p = favorite_tile(&favorites[idx], sel, area);
        ui::push_panel(panels, p);
        assert(favorite_panels(favorites@, cv, opt_index(selected)).take(k + 1) =~= favorite_panels(
            favorites@,
            cv,
            opt_index(selected),
        ).take(k as int).push(favorite_tile_panel(favorites@[idx as int], sel, area)));
        k += 1;
    }
    assert(favorite_panels(favorites@, cv, opt_index(selected)).take(k as int) =~= favorite_panels(
        favorites@,
        cv,
        opt_index(selected),
    ));
}

fn push_action_tiles(panels: &mut Vec<Panel>, mode: AttentionMode, cells: &Vec<(usize, PaneRect)>, selected: Option<usize>)
    requires
        forall|k: int| 0 <= k < cells.len() ==> (#[trigger] cells@[k]).0 < ACTION_COUNT,
    ensures
        ui::panels_view(final(panels)@) == ui::panels_view(old(panels)@) + action_panels(
            mode,
            cells_view(cells@),
            opt_index(selected),
        ),
{
    let ghost base = ui::panels_view(panels@);
    let ghost cv = cells_view(cells@);
    let mut k: usize = 0;
    while k < cells.len()
        invariant
            k <= cells.len(),
            cv == cells_view(cells@),
            forall|j: int| 0 <= j < cells.len() ==> (#[trigger] cells@[j]).0 < ACTION_COUNT,
            ui::panels_view(panels@) == base + action_panels(mode, cv, opt_index(selected)).take(k as int),
        decreases cells.len() - k,
    {
        let (idx, area) = cells[k];
        let sel = match selected {
            Some(s) => s == idx,
            None => false,
        };
        let a = match action_item(idx) {
            Some(a) => a,
            None => ProjectSwitcherAction::SaveAndQuit,
        };
        let p = action_tile(a, mode, sel, area);
        ui::push_panel(panels, p);
        assert(action_panels(mode, cv, opt_index(selected)).take(k + 1) =~= action_panels(mode, cv, opt_index(selected)).take(
            k as int,
        ).push(action_tile_panel(action_at(idx as int), mode, sel, area)));
        k += 1;
    }
    assert(action_panels(mode, cv, opt_index(selected)).take(k as int) =~= action_panels(mode, cv, opt_index(selected)));
}

/// The grid of a section's tiles in `area`: its columns and the tiles that
/// fit; an empty area holds one column and no tile.
pub open spec fn section_grid(area: PaneRect, count: usize, item_width: u16, tile_height: u16) -> (usize, Seq<(int, PaneRect)>) {
    if area.width == 0 || area.height == 0 {
        (1, seq![])
    } else {
        let l = grid_spec(count, area.width, item_width);
        (l.columns, grid_cells(area, l, tile_height, count as int))
    }
}

fn section_cells(area: PaneRect, count: usize, item_width: u16, tile_height: u16) -> (r: (usize, Vec<(usize, PaneRect)>))
    requires
        item_width > 0,
    ensures
        (r.0, cells_view(r.1@)) == section_grid(area, count, item_width, tile_height),
        forall|k: int| 0 <= k < r.1.len() ==> (#[trigger] r.1@[k]).0 < count,
{
    if area.width == 0 || area.height == 0 {
        let v: Vec<(usize, PaneRect)> = Vec::new();
        assert(cells_view(v@) =~= seq![]);
        return (1, v);
    }
    let (l, cells) = grid_cells_in(area, count, item_width, tile_height);
    proof {
        lemma_grid_cells_indices(area, l, tile_height, count as int);
        assert forall|k: int| 0 <= k < cells.len() implies (#[trigger] cells@[k]).0 < count by {
            assert(cells_view(cells@)[k].0 == cells@[k].0 as int);
        }
    }
    (l.columns, cells)
}


impl ProjectSwitcherView {
    /// The rows of the switcher, top to bottom: header, open tabs,
    /// favorites, actions, footer.
    pub open spec fn switcher_constraints(self, width: u16) -> Seq<LayoutConstraint> {
        seq![
            LayoutConstraint::Length(HEADER_HEIGHT),
            LayoutConstraint::Length(tile_section_height(self.tabs.len(), width, MIN_TABS_SECTION_HEIGHT) as u16),
            LayoutConstraint::Length(
                tile_section_height(self.favorites.len(), width, MIN_FAVORITES_SECTION_HEIGHT) as u16,
            ),
            LayoutConstraint::Length(action_section_height(width) as u16),
            LayoutConstraint::Length(FOOTER_HEIGHT),
        ]
    }

    /// The header: the title and the workspace with its position, then the
    /// current directory and the attention mode.
    pub open spec fn header_lines(self) -> Seq<LineSpec> {
        seq![
            seq![
                ("Project Switcher"@, bold()),
                ("  "@, plain()),
                (self.workspace_name@ + " ("@ + text::decimal((self.workspace_index + 1) as nat) + "/"@
                    + text::decimal(self.workspace_count as nat) + ")"@, dim()),
            ],
            seq![
                (self.current_cwd@, dim()),
                ("  "@, plain()),
                ("Attention "@ + attention_label(self.attention_mode), dim()),
            ],
        ]
    }

    /// The panels under the tiles: the cleared area, the header, and the
    /// frames of the two project sections, double and coloured when focused.
    pub open spec fn fixed_panels_spec(self, area: PaneRect, parts: Seq<PaneRect>) -> Seq<PanelSpec> {
        let tabs_focused = self.selected_section == SwitcherSection::Tabs;
        let favorites_focused = self.selected_section == SwitcherSection::Favorites;
        seq![
            PanelSpec { area, clear: true, frame: None, lines: seq![], scroll: 0 },
            PanelSpec { area: parts[0], clear: false, frame: None, lines: self.header_lines(), scroll: 0 },
            PanelSpec {
                area: parts[1],
                clear: false,
                frame: Some(
                    FrameSpec {
                        double: tabs_focused,
                        style: if tabs_focused { styled(Tint::Cyan, true, false) } else { plain() },
                        title: Some("Open Tabs"@),
                    },
                ),
                lines: seq![],
                scroll: 0,
            },
            PanelSpec {
                area: parts[2],
                clear: false,
                frame: Some(
                    FrameSpec {
                        double: favorites_focused,
                        style: if favorites_focused { styled(Tint::Magenta, true, false) } else { plain() },
                        title: Some("Favorites"@),
                    },
                ),
                lines: seq![],
                scroll: 0,
            },
        ]
    }

    fn header(&self) -> (v: Vec<StyledLine>)
        requires
            self.workspace_index < usize::MAX,
        ensures
            ui::lines_view(v@) == self.header_lines(),
    {
        let mut name = text::chars_of(self.workspace_name.as_str());
        text::push_chars(&mut name, " (");
        text::push_decimal(&mut name, self.workspace_index + 1);
        text::push_chars(&mut name, "/");
        text::push_decimal(&mut name, self.workspace_count);
        text::push_chars(&mut name, ")");
        let mut first = ui::line1(String::from_str("Project Switcher"), style(Tint::Default, true, false));
        ui::push_span(&mut first, String::from_str("  "), style(Tint::Default, false, false));
        ui::push_span(&mut first, text::string_of(name.as_slice()), style(Tint::Default, false, true));
        let mut attention = String::from_str("Attention ");
        text::push_str(&mut attention, self.attention_mode.label());
        let mut second = ui::line1(self.current_cwd.clone(), style(Tint::Default, false, true));
        ui::push_span(&mut second, String::from_str("  "), style(Tint::Default, false, false));
        ui::push_span(&mut second, attention, style(Tint::Default, false, true));
        let mut header: Vec<StyledLine> = Vec::new();
        ui::push_line(&mut header, first);
        ui::push_line(&mut header, second);
        assert(ui::lines_view(header@) =~~= self.header_lines());
        header
    }

    fn fixed_panels(&self, area: PaneRect, parts: &Vec<PaneRect>) -> (v: Vec<Panel>)
        requires
            self.workspace_index < usize::MAX,
            parts.len() == 5,
        ensures
            ui::panels_view(v@) == self.fixed_panels_spec(area, parts@),
    {
        let tabs_focused = match self.selected_section {
            SwitcherSection::Tabs => true,
            _ => false,
        };
        let favorites_focused = match self.selected_section {
            SwitcherSection::Favorites => true,
            _ => false,
        };
        let mut panels: Vec<Panel> = Vec::new();
        ui::push_panel(&mut panels, Panel { area, clear: true, frame: None, lines: Vec::new(), scroll: 0 });
        ui::push_panel(&mut panels, Panel { area: parts[0], clear: false, frame: None, lines: self.header(), scroll: 0 });
        let tabs_style = if tabs_focused { style(Tint::Cyan, true, false) } else { style(Tint::Default, false, false) };
        ui::push_panel(
            &mut panels,
            framed(parts[1], tabs_focused, tabs_style, Some(String::from_str("Open Tabs")), Vec::new()),
        );
        let favorites_style = if favorites_focused {
            style(Tint::Magenta, true, false)
        } else {
            style(Tint::Default, false, false)
        };
        ui::push_panel(
            &mut panels,
            framed(parts[2], favorites_focused, favorites_style, Some(String::from_str("Favorites")), Vec::new()),
        );
        assert(ui::panels_view(panels@) =~~= self.fixed_panels_spec(area, parts@));
        panels
    }

    /// What the switcher draws in `area`, and the view with the columns of
    /// its grids recorded: the area cleared, the header, the two framed
    /// sections (double and coloured when focused) with their tiles inside
    /// the frames, and the action tiles; the footer row is returned for the
    /// key hints. Nothing is drawn in an empty area.
    pub open spec fn render_spec(self, area: PaneRect, parts: Seq<PaneRect>) -> (Self, Seq<PanelSpec>, Option<PaneRect>) {
        if area.width == 0 || area.height == 0 {
            (self, seq![], None)
        } else {
            let tabs_focused = self.selected_section == SwitcherSection::Tabs;
            let favorites_focused = self.selected_section == SwitcherSection::Favorites;
            let actions_focused = self.selected_section == SwitcherSection::Actions;
            let tabs_grid = section_grid(layout::inner_area(parts[1]), self.tabs.len(), TILE_WIDTH, TILE_HEIGHT);
            let favorites_grid = section_grid(
                layout::inner_area(parts[2]),
                self.favorites.len(),
                TILE_WIDTH,
                TILE_HEIGHT,
            );
            let actions_grid = section_grid(parts[3], ACTION_COUNT, ACTION_TILE_WIDTH, ACTION_TILE_HEIGHT);
            let fixed = self.fixed_panels_spec(area, parts);
            let view = ProjectSwitcherView {
                tab_columns: tabs_grid.0,
                favorite_columns: favorites_grid.0,
                action_columns: actions_grid.0,
                ..self
            };
            (
                view,
                fixed + tab_panels(
                    self.tabs@,
                    tabs_grid.1,
                    if tabs_focused { Some(self.selected_tab_idx as int) } else { None },
                ) + favorite_panels(
                    self.favorites@,
                    favorites_grid.1,
                    if favorites_focused { Some(self.selected_favorite_idx as int) } else { None },
                ) + action_panels(
                    self.attention_mode,
                    actions_grid.1,
                    if actions_focused { Some(self.selected_action_idx as int) } else { None },
                ),
                Some(parts[4]),
            )
        }
    }

    /// The section heights fit the terminal's coordinates at `width`.
    pub open spec fn sections_fit(self, width: u16) -> bool {
        &&& SECTION_CHROME_HEIGHT + (tile_section_grid(self.tabs.len(), width).rows as u16) * TILE_HEIGHT <= u16::MAX
        &&& SECTION_CHROME_HEIGHT + (tile_section_grid(self.favorites.len(), width).rows as u16) * TILE_HEIGHT <= u16::MAX
    }

    /// Lays the switcher out in `area`: the layout cuts it into header, open
    /// tabs, favorites, actions and footer rows, and the panels and footer
    /// row are those `render_in` gives for the rows the layout gave; the
    /// grids' columns are recorded for the moves.
    pub fn render(&mut self, area: PaneRect) -> (r: (Vec<Panel>, Option<PaneRect>))
        requires
            old(self).sections_fit(area.width),
            old(self).workspace_index < usize::MAX,
        ensures
            area.width == 0 || area.height == 0 ==> *final(self) == *old(self) && ui::panels_view(r.0@)
                == Seq::<PanelSpec>::empty() && r.1 is None,
            area.width > 0 && area.height > 0 ==> exists|parts: Seq<PaneRect>|
                layout::split_by(area, true, old(self).switcher_constraints(area.width), parts) && (
                *final(self),
                ui::panels_view(r.0@),
                r.1,
            ) == #[trigger] old(self).render_spec(area, parts),
    {
        if area.width == 0 || area.height == 0 {
            let panels: Vec<Panel> = Vec::new();
            assert(ui::panels_view(panels@) =~= seq![]);
            return (panels, None);
        }
        let cs = self.switcher_constraint_list(area.width);
        let parts = layout::split_area(area, true, cs.as_slice());
        let ghost before = *self;
        let r = self.render_in(area, &parts);
        assert((*self, ui::panels_view(r.0@), r.1) == before.render_spec(area, parts@));
        r
    }

    /// The switcher's rows as handed to the layout.
    pub fn switcher_constraint_list(&self, width: u16) -> (v: Vec<LayoutConstraint>)
        requires
            self.sections_fit(width),
        ensures
            v@ == self.switcher_constraints(width),
    {
        let tabs_height = Self::tile_grid_section_height(self.tabs.len(), width, MIN_TABS_SECTION_HEIGHT);
        let favorites_height = Self::tile_grid_section_height(self.favorites.len(), width, MIN_FAVORITES_SECTION_HEIGHT);
        let actions_height = self.action_grid_section_height(width);
        let mut cs: Vec<LayoutConstraint> = Vec::new();
        cs.push(LayoutConstraint::Length(HEADER_HEIGHT));
        cs.push(LayoutConstraint::Length(tabs_height));
        cs.push(LayoutConstraint::Length(favorites_height));
        cs.push(LayoutConstraint::Length(actions_height));
        cs.push(LayoutConstraint::Length(FOOTER_HEIGHT));
        assert(cs@ =~= self.switcher_constraints(width));
        cs
    }

    /// What the switcher draws in `area` when the layout cut it into the
    /// five rows `parts`: the panels, in order, and the footer row; the
    /// grids' columns are recorded for the moves.
    pub fn render_in(&mut self, area: PaneRect, parts: &Vec<PaneRect>) -> (r: (Vec<Panel>, Option<PaneRect>))
        requires
            parts@.len() == 5,
            old(self).workspace_index < usize::MAX,
        ensures
            (*final(self), ui::panels_view(r.0@), r.1) == old(self).render_spec(area, parts@),
    {
        if area.width == 0 || area.height == 0 {
            let panels: Vec<Panel> = Vec::new();
            assert(ui::panels_view(panels@) =~= seq![]);
            return (panels, None);
        }
        let tabs_focused = match self.selected_section {
            SwitcherSection::Tabs => true,
            _ => false,
        };
        let favorites_focused = match self.selected_section {
            SwitcherSection::Favorites => true,
            _ => false,
        };
        let actions_focused = match self.selected_section {
            SwitcherSection::Actions => true,
            _ => false,
        };
        let ghost old_view = *self;
        let mut panels = self.fixed_panels(area, parts);
        let ghost fixed = ui::panels_view(panels@);
        let (tab_columns, tab_cells) = section_cells(
            layout::bordered_inner(parts[1]),
            self.tabs.len(),
            TILE_WIDTH,
            TILE_HEIGHT,
        );
        let (favorite_columns, favorite_cells) = section_cells(
            layout::bordered_inner(parts[2]),
            self.favorites.len(),
            TILE_WIDTH,
            TILE_HEIGHT,
        );
        let (action_columns, action_cells) = section_cells(parts[3], ACTION_COUNT, ACTION_TILE_WIDTH, ACTION_TILE_HEIGHT);
        push_tab_tiles(&mut panels, &self.tabs, &tab_cells, if tabs_focused { Some(self.selected_tab_idx) } else { None });
        push_favorite_tiles(
            &mut panels,
            &self.favorites,
            &favorite_cells,
            if favorites_focused { Some(self.selected_favorite_idx) } else { None },
        );
        push_action_tiles(
            &mut panels,
            self.attention_mode,
            &action_cells,
            if actions_focused { Some(self.selected_action_idx) } else { None },
        );
        self.tab_columns = tab_columns;
        self.favorite_columns = favorite_columns;
        self.action_columns = action_columns;
        proof {
            let spec = old_view.render_spec(area, parts@);
            assert(ui::panels_view(panels@) =~= spec.1);
        }
        (panels, Some(parts[4]))
    }
}

/// Right moves to the next tile of the focused section whenever there is
/// one, and otherwise leaves the view as it is; it never changes the
/// section or another section's tile.
pub proof fn lemma_right_steps_to_next_tile(v: ProjectSwitcherView)
    ensures
        v.selected_section == SwitcherSection::Tabs && v.selected_tab_idx + 1 < v.tabs.len() ==> v.after_right()
            == (ProjectSwitcherView { selected_tab_idx: (v.selected_tab_idx + 1) as usize, ..v }),
        v.selected_section == SwitcherSection::Favorites && v.selected_favorite_idx + 1 < v.favorites.len()
            ==> v.after_right() == (ProjectSwitcherView {
            selected_favorite_idx: (v.selected_favorite_idx + 1) as usize,
            ..v
        }),
        v.selected_section == SwitcherSection::Actions && v.selected_action_idx + 1 < ACTION_COUNT
            ==> v.after_right() == (ProjectSwitcherView { selected_action_idx: (v.selected_action_idx + 1) as usize, ..v }),
        v.selected_section == SwitcherSection::Tabs && v.selected_tab_idx + 1 >= v.tabs.len() ==> v.after_right() == v,
        v.selected_section == SwitcherSection::Favorites && v.selected_favorite_idx + 1 >= v.favorites.len()
            ==> v.after_right() == v,
        v.selected_section == SwitcherSection::Actions && v.selected_action_idx + 1 >= ACTION_COUNT ==> v.after_right()
            == v,
{
}

/// Left undoes Right and Right undoes Left, inside a section: from a tile
/// with a next one, Right then Left comes back; from a tile with a previous
/// one, Left then Right comes back. Left from the first tile stays.
pub proof fn lemma_left_right_undo(v: ProjectSwitcherView)
    requires
        v.selected_in(v.selected_section) < v.section_len(v.selected_section),
    ensures
        v.selected_in(v.selected_section) + 1 < v.section_len(v.selected_section) ==> v.after_right().after_left() == v,
        v.selected_in(v.selected_section) > 0 ==> v.after_left().after_right() == v,
        v.selected_in(v.selected_section) > 0 ==> v.after_left().selected_in(v.selected_section) + 1 == v.selected_in(
            v.selected_section,
        ),
        v.selected_in(v.selected_section) == 0 ==> v.after_left() == v,
{
}

/// Down undoes Up and Up undoes Down, inside a section: a tile with a row
/// below comes back after Down then Up, a tile with a row above after Up
/// then Down; Down moves by one row of the section's grid.
pub proof fn lemma_up_down_undo(v: ProjectSwitcherView)
    requires
        v.selected_in(v.selected_section) < v.section_len(v.selected_section),
    ensures
        v.selected_in(v.selected_section) + v.columns_of(v.selected_section) < v.section_len(v.selected_section)
            ==> v.after_down().after_up() == v && v.after_down().selected_in(v.selected_section) == v.selected_in(
            v.selected_section,
        ) + v.columns_of(v.selected_section),
        v.selected_in(v.selected_section) >= v.columns_of(v.selected_section) ==> v.after_up().after_down() == v,
        v.selected_in(v.selected_section) + v.columns_of(v.selected_section) >= v.section_len(v.selected_section)
            ==> v.after_down() == v.with_section(next_section(v.selected_section)),
{
}

/// From the first favourite, `k` presses of Right reach favourite `k`, for
/// every favourite of the section: each tile is reachable.
pub proof fn lemma_right_reaches_every_favorite(v: ProjectSwitcherView, k: nat)
    requires
        v.selected_section == SwitcherSection::Favorites,
        v.selected_favorite_idx == 0,
        k < v.favorites.len(),
    ensures
        v.after_rights(k).selected_favorite_idx == k,
        v.after_rights(k).selected_section == SwitcherSection::Favorites,
        v.after_rights(k).favorites == v.favorites,
    decreases k,
{
    if k > 0 {
        lemma_right_reaches_every_favorite(v, (k - 1) as nat);
        lemma_after_rights_last(v, (k - 1) as nat);
        let w = v.after_rights((k - 1) as nat);
        lemma_right_steps_to_next_tile(w);
    }
}

/// From the first open tab, `k` presses of Right reach tab `k`.
pub proof fn lemma_right_reaches_every_tab(v: ProjectSwitcherView, k: nat)
    requires
        v.selected_section == SwitcherSection::Tabs,
        v.selected_tab_idx == 0,
        k < v.tabs.len(),
    ensures
        v.after_rights(k).selected_tab_idx == k,
        v.after_rights(k).selected_section == SwitcherSection::Tabs,
        v.after_rights(k).tabs == v.tabs,
    decreases k,
{
    if k > 0 {
        lemma_right_reaches_every_tab(v, (k - 1) as nat);
        lemma_after_rights_last(v, (k - 1) as nat);
        let w = v.after_rights((k - 1) as nat);
        lemma_right_steps_to_next_tile(w);
    }
}

/// Pressing Right `k + 1` times is pressing it `k` times and once more.
proof fn lemma_after_rights_last(v: ProjectSwitcherView, k: nat)
    ensures
        v.after_rights(k + 1) == v.after_rights(k).after_right(),
    decreases k,
{
    let w = v.after_right();
    assert(v.after_rights(k + 1) == w.after_rights(k));
    if k > 0 {
        lemma_after_rights_last(w, (k - 1) as nat);
        assert(w.after_rights(k) == w.after_rights((k - 1) as nat).after_right());
        assert(v.after_rights(k) == w.after_rights((k - 1) as nat));
    } else {
        assert(w.after_rights(0) == w);
        assert(v.after_rights(0) == v);
    }
}

/// The home directory, as `dirs::home_dir` finds it for this process and
/// user. It depends on the environment, so nothing is claimed of it.
#[verifier::external_body]
fn home_dir() -> (r: Option<String>)
{
    dirs::home_dir().map(|p| p.to_string_lossy().into_owned())
}

impl ProjectSwitcherView {
    /// What the selected action asks for, `home` being the home directory.
    pub open spec fn action_event(self, home: Option<Seq<char>>) -> Option<EventSpec> {
        match action_at(self.selected_action_idx as int) {
            ProjectSwitcherAction::BrowseProjects => match home {
                Some(h) => Some(EventSpec::OpenProjectDirectoryBrowser { root: projects_root(h) }),
                None => None,
            },
            ProjectSwitcherAction::BrowseFilesystem => Some(EventSpec::OpenProjectDirectoryBrowser { root: "/"@ }),
            ProjectSwitcherAction::EditFavorites => Some(EventSpec::OpenProjectFavoritesManager { initial_path: None }),
            ProjectSwitcherAction::RenameCurrentTab => Some(EventSpec::OpenRenameCurrentTabPrompt),
            ProjectSwitcherAction::ToggleAttentionMode => Some(
                EventSpec::SetAttentionMode { mode: next_attention(self.attention_mode) },
            ),
            ProjectSwitcherAction::CloseCurrentTab => match first_active(self.tabs@) {
                Some(i) => Some(EventSpec::CloseProjectTab { thread_id: self.tabs@[i].thread_id }),
                None => None,
            },
            ProjectSwitcherAction::SaveAndQuit => Some(EventSpec::SaveWorkspaceAndExit),
        }
    }

    /// Running the selected action: the switcher closes once an action ran.
    pub open spec fn action_outcome(self, home: Option<Seq<char>>) -> (Self, Option<EventSpec>) {
        if self.selected_action_idx < ACTION_COUNT {
            (self.completed(), self.action_event(home))
        } else {
            (self, None)
        }
    }

    /// Enter: switch to the selected tab, resume the selected favorite in a
    /// new tab to the right, or run the selected action.
    pub open spec fn confirm_outcome(self, home: Option<Seq<char>>) -> (Self, Option<EventSpec>) {
        match self.selected_section {
            SwitcherSection::Tabs => if self.selected_tab_idx < self.tabs.len() {
                (
                    self.completed(),
                    Some(EventSpec::SelectAgentThread(self.tabs@[self.selected_tab_idx as int].thread_id)),
                )
            } else {
                (self, None)
            },
            SwitcherSection::Favorites => if self.selected_favorite_idx < self.favorites.len() {
                (
                    self.completed(),
                    Some(
                        EventSpec::ResumeProjectAtTarget {
                            cwd: self.favorites@[self.selected_favorite_idx as int].cwd@,
                            target: right_tab(),
                        },
                    ),
                )
            } else {
                (self, None)
            },
            SwitcherSection::Actions => self.action_outcome(home),
        }
    }

    /// x: close the selected tab, start a fresh session of the selected
    /// favorite in a new tab to the right, or run the selected action.
    pub open spec fn context_outcome(self, home: Option<Seq<char>>) -> (Self, Option<EventSpec>) {
        match self.selected_section {
            SwitcherSection::Tabs => if self.selected_tab_idx < self.tabs.len() {
                (
                    self.completed(),
                    Some(EventSpec::CloseProjectTab { thread_id: self.tabs@[self.selected_tab_idx as int].thread_id }),
                )
            } else {
                (self, None)
            },
            SwitcherSection::Favorites => if self.selected_favorite_idx < self.favorites.len() {
                (
                    self.completed(),
                    Some(
                        EventSpec::OpenNewProjectSessionAtTarget {
                            cwd: self.favorites@[self.selected_favorite_idx as int].cwd@,
                            target: right_tab(),
                        },
                    ),
                )
            } else {
                (self, None)
            },
            SwitcherSection::Actions => self.action_outcome(home),
        }
    }

    /// What a key does: the new view and the request it sends.
    pub open spec fn key_outcome(self, code: KeyCode, mods: Modifiers, home: Option<Seq<char>>) -> (
        Self,
        Option<EventSpec>,
    ) {
        match switcher_key(code, mods) {
            SwitcherKey::Left => (self.after_left(), None),
            SwitcherKey::Right => (self.after_right(), None),
            SwitcherKey::Up => (self.after_up(), None),
            SwitcherKey::Down => (self.after_down(), None),
            SwitcherKey::Confirm => self.confirm_outcome(home),
            SwitcherKey::Context => self.context_outcome(home),
            SwitcherKey::Close => (self.completed(), None),
            SwitcherKey::Ignore => (self, None),
        }
    }

    /// The key reads the home directory: it runs the browse-projects action.
    pub open spec fn key_needs_home(self, code: KeyCode, mods: Modifiers) -> bool {
        (switcher_key(code, mods) == SwitcherKey::Confirm || switcher_key(code, mods) == SwitcherKey::Context)
            && self.selected_section == SwitcherSection::Actions && self.selected_action_idx == 0
    }

    /// Runs the selected action, `home` being the home directory.
    pub fn run_action_with_home(&mut self, home: Option<String>) -> (r: Option<ViewEvent>)
        ensures
            (*final(self), opt_event_view(r)) == old(self).action_outcome(paths::opt_string_view(home)),
    {
        let action = match action_item(self.selected_action_idx) {
            Some(a) => a,
            None => {
                return None;
            },
        };
        let event = match action {
            ProjectSwitcherAction::BrowseProjects => match home {
                Some(h) => Some(ViewEvent::OpenProjectDirectoryBrowser { root: edit::resolve_path(h.as_str(), "projects") }),
                None => None,
            },
            ProjectSwitcherAction::BrowseFilesystem => Some(ViewEvent::OpenProjectDirectoryBrowser { root: String::from_str("/") }),
            ProjectSwitcherAction::EditFavorites => Some(ViewEvent::OpenProjectFavoritesManager { initial_path: None }),
            ProjectSwitcherAction::RenameCurrentTab => Some(ViewEvent::OpenRenameCurrentTabPrompt),
            ProjectSwitcherAction::ToggleAttentionMode => Some(ViewEvent::SetAttentionMode { mode: self.attention_mode.next() }),
            ProjectSwitcherAction::CloseCurrentTab => match active_tab_position(&self.tabs) {
                Some(i) => Some(ViewEvent::CloseProjectTab { thread_id: self.tabs[i].thread_id }),
                None => None,
            },
            ProjectSwitcherAction::SaveAndQuit => Some(ViewEvent::SaveWorkspaceAndExit),
        };
        self.complete = true;
        proof {
            reveal_strlit("/");
            assert(*self == old(self).completed());
            assert(opt_event_view(event) == old(self).action_event(paths::opt_string_view(home)));
        }
        event
    }

    /// Runs the selected action; browsing projects reads the home directory.
    pub fn run_action(&mut self) -> (r: Option<ViewEvent>)
        ensures
            exists|h: Option<Seq<char>>| (*final(self), opt_event_view(r)) == old(self).action_outcome(h),
            old(self).selected_action_idx != 0 ==> (*final(self), opt_event_view(r)) == old(self).action_outcome(None),
    {
        let home = if self.selected_action_idx == 0 { home_dir() } else { None };
        self.run_action_with_home(home)
    }

    fn confirm_with_home(&mut self, home: Option<String>) -> (r: Option<ViewEvent>)
        ensures
            (*final(self), opt_event_view(r)) == old(self).confirm_outcome(paths::opt_string_view(home)),
    {
        match self.selected_section {
            SwitcherSection::Tabs => {
                if self.selected_tab_idx < self.tabs.len() {
                    let t = self.tabs[self.selected_tab_idx].thread_id;
                    self.complete = true;
                    Some(ViewEvent::SelectAgentThread(t))
                } else {
                    None
                }
            },
            SwitcherSection::Favorites => {
                if self.selected_favorite_idx < self.favorites.len() {
                    let cwd = self.favorites[self.selected_favorite_idx].cwd.clone();
                    self.complete = true;
                    Some(ViewEvent::ResumeProjectAtTarget { cwd, target: ProjectOpenTarget::Tab(NewTabPlacement::Right) })
                } else {
                    None
                }
            },
            SwitcherSection::Actions => self.run_action_with_home(home),
        }
    }

    fn context_with_home(&mut self, home: Option<String>) -> (r: Option<ViewEvent>)
        ensures
            (*final(self), opt_event_view(r)) == old(self).context_outcome(paths::opt_string_view(home)),
    {
        match self.selected_section {
            SwitcherSection::Tabs => {
                if self.selected_tab_idx < self.tabs.len() {
                    let t = self.tabs[self.selected_tab_idx].thread_id;
                    self.complete = true;
                    Some(ViewEvent::CloseProjectTab { thread_id: t })
                } else {
                    None
                }
            },
            SwitcherSection::Favorites => {
                if self.selected_favorite_idx < self.favorites.len() {
                    let cwd = self.favorites[self.selected_favorite_idx].cwd.clone();
                    self.complete = true;
                    Some(
                        ViewEvent::OpenNewProjectSessionAtTarget {
                            cwd,
                            target: ProjectOpenTarget::Tab(NewTabPlacement::Right),
                        },
                    )
                } else {
                    None
                }
            },
            SwitcherSection::Actions => self.run_action_with_home(home),
        }
    }

    /// Enter on the selection.
    pub fn confirm(&mut self) -> (r: Option<ViewEvent>)
        ensures
            exists|h: Option<Seq<char>>| (*final(self), opt_event_view(r)) == old(self).confirm_outcome(h),
    {
        let needs_home = match self.selected_section {
            SwitcherSection::Actions => self.selected_action_idx == 0,
            _ => false,
        };
        let home = if needs_home { home_dir() } else { None };
        self.confirm_with_home(home)
    }

    /// x on the selection.
    pub fn context_action(&mut self) -> (r: Option<ViewEvent>)
        ensures
            exists|h: Option<Seq<char>>| (*final(self), opt_event_view(r)) == old(self).context_outcome(h),
    {
        let needs_home = match self.selected_section {
            SwitcherSection::Actions => self.selected_action_idx == 0,
            _ => false,
        };
        let home = if needs_home { home_dir() } else { None };
        self.context_with_home(home)
    }

    /// Handles a key, `home` being the home directory.
    pub fn handle_key_event_with_home(&mut self, code: KeyCode, mods: Modifiers, home: Option<String>) -> (r: Option<
        ViewEvent,
    >)
        ensures
            (*final(self), opt_event_view(r)) == old(self).key_outcome(code, mods, paths::opt_string_view(home)),
    {
        match classify_switcher_key(code, mods) {
            SwitcherKey::Left => {
                self.move_left();
                None
            },
            SwitcherKey::Right => {
                self.move_right();
                None
            },
            SwitcherKey::Up => {
                self.move_up();
                None
            },
            SwitcherKey::Down => {
                self.move_down();
                None
            },
            SwitcherKey::Confirm => self.confirm_with_home(home),
            SwitcherKey::Context => self.context_with_home(home),
            SwitcherKey::Close => {
                self.complete = true;
                None
            },
            SwitcherKey::Ignore => None,
        }
    }

    /// Handles a key: moves the selection, acts on it, or closes the
    /// switcher. Only the browse-projects action reads the home directory.
    pub fn handle_key_event(&mut self, code: KeyCode, mods: Modifiers) -> (r: Option<ViewEvent>)
        ensures
            exists|h: Option<Seq<char>>| (*final(self), opt_event_view(r)) == old(self).key_outcome(code, mods, h),
            !old(self).key_needs_home(code, mods) ==> (*final(self), opt_event_view(r)) == old(self).key_outcome(
                code,
                mods,
                None,
            ),
    {
        let key = classify_switcher_key(code, mods);
        let acts = match key {
            SwitcherKey::Confirm | SwitcherKey::Context => true,
            _ => false,
        };
        let needs_home = acts && match self.selected_section {
            SwitcherSection::Actions => self.selected_action_idx == 0,
            _ => false,
        };
        let home = if needs_home { home_dir() } else { None };
        self.handle_key_event_with_home(code, mods, home)
    }

    pub fn is_complete(&self) -> (b: bool)
        ensures
            b == self.complete,
    {
        self.complete
    }

    /// Ctrl-C closes the switcher.
    pub fn on_ctrl_c(&mut self)
        ensures
            *final(self) == old(self).completed(),
    {
        self.complete = true;
    }

    /// The id the bottom pane knows the switcher by.
    pub fn view_id(&self) -> (s: &'static str)
        ensures
            s@ == "project-switcher-grid"@,
    {
        "project-switcher-grid"
    }

    /// The key a gamepad button stands for in the switcher.
    pub fn map_gamepad_action(&self, action: GamepadAction) -> (r: Option<KeyCode>)
        ensures
            r == match action {
                GamepadAction::Confirm => Some(KeyCode::Enter),
                GamepadAction::Context => Some(KeyCode::Char('x')),
                _ => None,
            },
    {
        popup_gamepad_key(action)
    }
}

/// The favorites editor: the favorites beside a directory browser, for
/// adding and removing favorites and opening projects.
pub struct FavoritesEditorView {
    pub complete: bool,
    pub initial_path: Option<String>,
    pub favorites: Vec<FavoriteProjectTile>,
    pub recents: Vec<String>,
    pub browser_root: String,
    pub browser_items: Vec<BrowserItem>,
    pub focused_pane: BrowserPane,
    pub selected_favorite_idx: usize,
    pub selected_browser_idx: usize,
}

/// Where the favorites editor starts browsing: the given path, else the
/// home directory, else `/`.
pub open spec fn editor_root(initial_path: Option<Seq<char>>, home: Option<Seq<char>>) -> Seq<char> {
    match initial_path {
        Some(p) => p,
        None => match home {
            Some(h) => h,
            None => "/"@,
        },
    }
}

/// The directory the favorites editor starts in, `home` being the home
/// directory.
pub fn editor_root_with_home(initial_path: Option<String>, home: Option<String>) -> (r: String)
    ensures
        r@ == editor_root(paths::opt_string_view(initial_path), paths::opt_string_view(home)),
{
    match initial_path {
        Some(p) => p,
        None => match home {
            Some(h) => h,
            None => {
                proof {
                    reveal_strlit("/");
                }
                String::from_str("/")
            },
        },
    }
}

/// The directory the favorites editor starts in; without a given path it
/// reads the home directory.
pub fn favorites_editor_root(initial_path: Option<String>) -> (r: String)
    ensures
        exists|h: Option<Seq<char>>| r@ == editor_root(paths::opt_string_view(initial_path), h),
        initial_path matches Some(p) ==> r@ == p@,
{
    let home = match initial_path {
        Some(_) => None,
        None => home_dir(),
    };
    editor_root_with_home(initial_path, home)
}

/// `n` copies of `true`.
pub open spec fn all_true(n: nat) -> Seq<bool> {
    Seq::new(n, |i: int| true)
}

impl FavoritesEditorView {
    /// The editor over the favorites, browsing the listed directory (every
    /// recent project listed), with the favorites focused.
    pub fn new(
        favorites: Vec<FavoriteProjectTile>,
        recents: Vec<String>,
        initial_path: Option<String>,
        listing: DirectoryListing,
    ) -> (v: FavoritesEditorView)
        ensures
            v.complete == false,
            v.initial_path == initial_path,
            v.favorites == favorites,
            v.recents == recents,
            v.browser_root == listing.root,
            project_chooser::items_view(v.browser_items@) == project_chooser::browser_entries(
                listing.root@,
                text::strings_view(recents@),
                all_true(recents.len() as nat),
                project_chooser::opt_strings_view(listing.children),
            ),
            v.focused_pane == BrowserPane::Favorites,
            v.selected_favorite_idx == 0,
            v.selected_browser_idx == 0,
    {
        let keep = project_chooser::all_kept(recents.len());
        assert(keep@ =~= all_true(recents.len() as nat));
        let browser_items = project_chooser::build_browser_items(
            listing.root.as_str(),
            &recents,
            &keep,
            &listing.children,
        );
        FavoritesEditorView {
            complete: false,
            initial_path,
            favorites,
            recents,
            browser_root: listing.root,
            browser_items,
            focused_pane: BrowserPane::Favorites,
            selected_favorite_idx: 0,
            selected_browser_idx: 0,
        }
    }

    /// Browses the listed directory, from its first entry.
    pub fn rebuild_browser(&mut self, listing: DirectoryListing)
        ensures
            final(self).browser_root == listing.root,
            project_chooser::items_view(final(self).browser_items@) == project_chooser::browser_entries(
                listing.root@,
                text::strings_view(old(self).recents@),
                all_true(old(self).recents.len() as nat),
                project_chooser::opt_strings_view(listing.children),
            ),
            final(self).selected_browser_idx == 0,
            final(self).complete == old(self).complete,
            final(self).initial_path == old(self).initial_path,
            final(self).favorites == old(self).favorites,
            final(self).recents == old(self).recents,
            final(self).focused_pane == old(self).focused_pane,
            final(self).selected_favorite_idx == old(self).selected_favorite_idx,
    {
        let keep = project_chooser::all_kept(self.recents.len());
        assert(keep@ =~= all_true(self.recents.len() as nat));
        self.browser_items = project_chooser::build_browser_items(
            listing.root.as_str(),
            &self.recents,
            &keep,
            &listing.children,
        );
        self.browser_root = listing.root;
        self.selected_browser_idx = 0;
    }

    /// The path of the selected browser entry.
    pub open spec fn browser_path(self) -> Option<Seq<char>> {
        if self.selected_browser_idx < self.browser_items.len() {
            Some(self.browser_items@[self.selected_browser_idx as int].path@)
        } else {
            None
        }
    }

    pub fn current_browser_path(&self) -> (r: Option<String>)
        ensures
            paths::opt_string_view(r) == self.browser_path(),
    {
        if self.selected_browser_idx < self.browser_items.len() {
            Some(self.browser_items[self.selected_browser_idx].path.clone())
        } else {
            None
        }
    }

    /// The path the selection stands for in the focused pane.
    pub open spec fn selected_path(self) -> Option<Seq<char>> {
        match self.focused_pane {
            BrowserPane::Favorites => if self.selected_favorite_idx < self.favorites.len() {
                Some(self.favorites@[self.selected_favorite_idx as int].cwd@)
            } else {
                None
            },
            BrowserPane::Browser => self.browser_path(),
        }
    }

    pub open spec fn completed(self) -> Self {
        FavoritesEditorView { complete: true, ..self }
    }

    /// Opening the selection: focus or open that project.
    pub open spec fn open_outcome(self) -> (Self, Option<EventSpec>) {
        match self.selected_path() {
            Some(p) => (self.completed(), Some(EventSpec::FocusOrOpenProject { cwd: p })),
            None => (self, None),
        }
    }

    /// x: add the selected project to the favorites, or remove it.
    pub open spec fn toggle_outcome(self) -> (Self, Option<EventSpec>) {
        match self.selected_path() {
            Some(p) => (self.completed(), Some(EventSpec::ToggleFavoriteProject { cwd: p })),
            None => (self, None),
        }
    }

    /// What a key does: the new view and the result.
    pub open spec fn key_outcome(self, code: KeyCode, mods: Modifiers) -> (Self, PaneKeySpec) {
        match switcher_key(code, mods) {
            SwitcherKey::Left => (
                FavoritesEditorView { focused_pane: BrowserPane::Favorites, ..self },
                PaneKeySpec::Handled(None),
            ),
            SwitcherKey::Right => (
                FavoritesEditorView { focused_pane: BrowserPane::Browser, ..self },
                PaneKeySpec::Handled(None),
            ),
            SwitcherKey::Up => (
                match self.focused_pane {
                    BrowserPane::Favorites => FavoritesEditorView {
                        selected_favorite_idx: if self.selected_favorite_idx > 0 {
                            (self.selected_favorite_idx - 1) as usize
                        } else {
                            0
                        },
                        ..self
                    },
                    BrowserPane::Browser => FavoritesEditorView {
                        selected_browser_idx: if self.selected_browser_idx > 0 {
                            (self.selected_browser_idx - 1) as usize
                        } else {
                            0
                        },
                        ..self
                    },
                },
                PaneKeySpec::Handled(None),
            ),
            SwitcherKey::Down => (
                match self.focused_pane {
                    BrowserPane::Favorites => if self.selected_favorite_idx + 1 < self.favorites.len() {
                        FavoritesEditorView { selected_favorite_idx: (self.selected_favorite_idx + 1) as usize, ..self }
                    } else {
                        self
                    },
                    BrowserPane::Browser => if self.selected_browser_idx + 1 < self.browser_items.len() {
                        FavoritesEditorView { selected_browser_idx: (self.selected_browser_idx + 1) as usize, ..self }
                    } else {
                        self
                    },
                },
                PaneKeySpec::Handled(None),
            ),
            SwitcherKey::Confirm => if self.focused_pane == BrowserPane::Browser && self.browser_path() is Some {
                (self, PaneKeySpec::BrowseOrOpen(self.browser_path()->0))
            } else {
                (self.open_outcome().0, PaneKeySpec::Handled(self.open_outcome().1))
            },
            SwitcherKey::Context => (self.toggle_outcome().0, PaneKeySpec::Handled(self.toggle_outcome().1)),
            SwitcherKey::Close => (self.completed(), PaneKeySpec::Handled(None)),
            SwitcherKey::Ignore => (self, PaneKeySpec::Handled(None)),
        }
    }

    fn selection_path(&self) -> (r: Option<String>)
        ensures
            paths::opt_string_view(r) == self.selected_path(),
    {
        match self.focused_pane {
            BrowserPane::Favorites => {
                if self.selected_favorite_idx < self.favorites.len() {
                    Some(self.favorites[self.selected_favorite_idx].cwd.clone())
                } else {
                    None
                }
            },
            BrowserPane::Browser => self.current_browser_path(),
        }
    }

    /// Opens the selected project: the application focuses its tab or
    /// opens it.
    pub fn open_current_project(&mut self) -> (r: Option<ViewEvent>)
        ensures
            (*final(self), opt_event_view(r)) == old(self).open_outcome(),
    {
        match self.selection_path() {
            Some(cwd) => {
                self.complete = true;
                Some(ViewEvent::FocusOrOpenProject { cwd })
            },
            None => None,
        }
    }

    /// Adds the selected project to the favorites, or removes it.
    pub fn toggle_current_favorite(&mut self) -> (r: Option<ViewEvent>)
        ensures
            (*final(self), opt_event_view(r)) == old(self).toggle_outcome(),
    {
        match self.selection_path() {
            Some(cwd) => {
                self.complete = true;
                Some(ViewEvent::ToggleFavoriteProject { cwd })
            },
            None => None,
        }
    }

    /// Handles a key: switches panes, moves the selection, toggles or opens
    /// the selected project, or asks whether the selected entry is a
    /// directory to browse into.
    pub fn handle_key_event(&mut self, code: KeyCode, mods: Modifiers) -> (r: PaneKeyResult)
        ensures
            (*final(self), project_chooser::pane_key_view(r)) == old(self).key_outcome(code, mods),
    {
        match classify_switcher_key(code, mods) {
            SwitcherKey::Left => {
                self.focused_pane = BrowserPane::Favorites;
                PaneKeyResult::Handled(None)
            },
            SwitcherKey::Right => {
                self.focused_pane = BrowserPane::Browser;
                PaneKeyResult::Handled(None)
            },
            SwitcherKey::Up => {
                match self.focused_pane {
                    BrowserPane::Favorites => {
                        self.selected_favorite_idx = self.selected_favorite_idx.saturating_sub(1);
                    },
                    BrowserPane::Browser => {
                        self.selected_browser_idx = self.selected_browser_idx.saturating_sub(1);
                    },
                }
                PaneKeyResult::Handled(None)
            },
            SwitcherKey::Down => {
                match self.focused_pane {
                    BrowserPane::Favorites => {
                        if self.favorites.len() > 0 && self.selected_favorite_idx < self.favorites.len() - 1 {
                            self.selected_favorite_idx += 1;
                        }
                    },
                    BrowserPane::Browser => {
                        if self.browser_items.len() > 0 && self.selected_browser_idx < self.browser_items.len() - 1 {
                            self.selected_browser_idx += 1;
                        }
                    },
                }
                PaneKeyResult::Handled(None)
            },
            SwitcherKey::Confirm => {
                let browsing = match self.focused_pane {
                    BrowserPane::Browser => true,
                    _ => false,
                };
                if browsing {
                    match self.current_browser_path() {
                        Some(p) => {
                            return PaneKeyResult::BrowseOrOpen(p);
                        },
                        None => {},
                    }
                }
                PaneKeyResult::Handled(self.open_current_project())
            },
            SwitcherKey::Context => PaneKeyResult::Handled(self.toggle_current_favorite()),
            SwitcherKey::Close => {
                self.complete = true;
                PaneKeyResult::Handled(None)
            },
            SwitcherKey::Ignore => PaneKeyResult::Handled(None),
        }
    }

    pub fn is_complete(&self) -> (b: bool)
        ensures
            b == self.complete,
    {
        self.complete
    }

    /// Ctrl-C closes the editor.
    pub fn on_ctrl_c(&mut self)
        ensures
            *final(self) == old(self).completed(),
    {
        self.complete = true;
    }

    /// The id the bottom pane knows the editor by.
    pub fn view_id(&self) -> (s: &'static str)
        ensures
            s@ == "favorites-editor-grid"@,
    {
        "favorites-editor-grid"
    }

    /// The key a gamepad button stands for in the editor.
    pub fn map_gamepad_action(&self, action: GamepadAction) -> (r: Option<KeyCode>)
        ensures
            r == match action {
                GamepadAction::Confirm => Some(KeyCode::Enter),
                GamepadAction::Context => Some(KeyCode::Char('x')),
                _ => None,
            },
    {
        popup_gamepad_key(action)
    }

    /// Rows the editor wants, whatever the width.
    pub fn desired_height(&self, width: u16) -> (h: u16)
        ensures
            h == 20,
    {
        20
    }

    /// The header: the title, then the starting path or a hint.
    pub open spec fn header_lines(self) -> Seq<LineSpec> {
        seq![
            seq![("Edit Favorites"@, bold())],
            seq![
                (match self.initial_path {
                    Some(p) => p@,
                    None => "Use left/right to switch panes"@,
                }, dim()),
            ],
        ]
    }

    /// What the editor draws in `area`: the area cleared, the header, the
    /// favorites and the browser side by side, each in a frame (coloured when
    /// focused) and scrolled to its selection; the footer row is returned
    /// for the key hints. Nothing is drawn in an empty area.
    pub open spec fn render_spec(self, area: PaneRect, parts: (PaneRect, PaneRect, PaneRect, PaneRect)) -> (
        Seq<PanelSpec>,
        Option<PaneRect>,
    ) {
        if area.width == 0 || area.height == 0 {
            (seq![], None)
        } else {
            let (header_area, favorites_area, browser_area, footer_area) = parts;
            let favorites_focused = self.focused_pane == BrowserPane::Favorites;
            let browser_focused = self.focused_pane == BrowserPane::Browser;
            (
                seq![
                    project_chooser::clear_panel(area),
                    project_chooser::text_panel(header_area, self.header_lines()),
                    project_chooser::frame_panel(favorites_area, favorites_focused, false, Tint::Cyan, "Favorites"@),
                    project_chooser::list_panel(
                        favorites_area,
                        project_chooser::favorite_lines(
                            self.favorites@,
                            if favorites_focused { Some(self.selected_favorite_idx as int) } else { None },
                            false,
                        ),
                        self.selected_favorite_idx,
                        self.favorites.len(),
                    ),
                    project_chooser::frame_panel(
                        browser_area,
                        browser_focused,
                        false,
                        Tint::Magenta,
                        "Browser: "@ + self.browser_root@,
                    ),
                    project_chooser::list_panel(
                        browser_area,
                        project_chooser::entry_lines(
                            project_chooser::items_view(self.browser_items@),
                            if browser_focused { Some(self.selected_browser_idx as int) } else { None },
                        ),
                        self.selected_browser_idx,
                        self.browser_items.len(),
                    ),
                ],
                Some(footer_area),
            )
        }
    }

    /// Lays the editor out in `area`: the layout cuts its popup into header,
    /// favorites and browser columns, and footer, and the panels and footer
    /// row are those `render_in` gives for the parts the layout gave.
    pub fn render(&self, area: PaneRect) -> (r: (Vec<Panel>, Option<PaneRect>))
        ensures
            area.width == 0 || area.height == 0 ==> ui::panels_view(r.0@) == Seq::<PanelSpec>::empty() && r.1 is None,
            area.width > 0 && area.height > 0 ==> exists|parts: (PaneRect, PaneRect, PaneRect, PaneRect)|
                project_chooser::popup_split(area, 2, 1, 48, 52, parts) && (ui::panels_view(r.0@), r.1)
                    == #[trigger] self.render_spec(area, parts),
    {
        let parts = if area.width == 0 || area.height == 0 {
            (area, area, area, area)
        } else {
            project_chooser::popup_areas(area, 2, 1, 48, 52)
        };
        let r = self.render_in(area, parts);
        assert((ui::panels_view(r.0@), r.1) == self.render_spec(area, parts));
        r
    }

    /// What the editor draws in `area` when its popup is cut into `parts`:
    /// header, favorites column, browser column and footer; the panels, in
    /// order, and the footer row.
    pub fn render_in(&self, area: PaneRect, parts: (PaneRect, PaneRect, PaneRect, PaneRect)) -> (r: (
        Vec<Panel>,
        Option<PaneRect>,
    ))
        ensures
            (ui::panels_view(r.0@), r.1) == self.render_spec(area, parts),
    {
        let mut panels: Vec<Panel> = Vec::new();
        if area.width == 0 || area.height == 0 {
            assert(ui::panels_view(panels@) =~= seq![]);
            return (panels, None);
        }
        let (header_area, favorites_area, browser_area, footer_area) = parts;
        let favorites_focused = match self.focused_pane {
            BrowserPane::Favorites => true,
            _ => false,
        };
        let browser_focused = !favorites_focused;
        ui::push_panel(&mut panels, Panel { area, clear: true, frame: None, lines: Vec::new(), scroll: 0 });
        let mut header: Vec<StyledLine> = Vec::new();
        ui::push_line(&mut header, ui::line1(String::from_str("Edit Favorites"), style(Tint::Default, true, false)));
        let second = match &self.initial_path {
            Some(p) => p.clone(),
            None => String::from_str("Use left/right to switch panes"),
        };
        ui::push_line(&mut header, ui::line1(second, style(Tint::Default, false, true)));
        ui::push_panel(&mut panels, Panel { area: header_area, clear: false, frame: None, lines: header, scroll: 0 });
        ui::push_panel(
            &mut panels,
            project_chooser::titled_frame(favorites_area, favorites_focused, false, Tint::Cyan, String::from_str("Favorites")),
        );
        let favorite_lines = project_chooser::favorites_list(
            &self.favorites,
            if favorites_focused { Some(self.selected_favorite_idx) } else { None },
            false,
        );
        ui::push_panel(
            &mut panels,
            project_chooser::list_in_frame(favorites_area, favorite_lines, self.selected_favorite_idx, self.favorites.len()),
        );
        let mut title = String::from_str("Browser: ");
        text::push_str(&mut title, self.browser_root.as_str());
        ui::push_panel(&mut panels, project_chooser::titled_frame(browser_area, browser_focused, false, Tint::Magenta, title));
        let browser_lines = project_chooser::browser_list(
            &self.browser_items,
            if browser_focused { Some(self.selected_browser_idx) } else { None },
        );
        ui::push_panel(
            &mut panels,
            project_chooser::list_in_frame(browser_area, browser_lines, self.selected_browser_idx, self.browser_items.len()),
        );
        assert(ui::panels_view(panels@) =~~= self.render_spec(area, parts).0);
        (panels, Some(footer_area))
    }
}

} // verus!
