//! The project tabs bar: one line naming the open project tabs, the
//! attention markers and the workspace.
use vstd::prelude::*;
use crate::project_navigation::AttentionMode;
use crate::text;
use crate::ui;
use crate::ui::Span;
use crate::ui::SpanStyle;
use crate::ui::StyledLine;
use crate::ui::Tint;
use crate::ui::styled;

verus! {

/// Why a project tab wants attention.
#[derive(Clone, Copy, PartialEq, Eq, Structural, Debug)]
pub enum ProjectAttentionLevel {
    Approval,
    UserInput,
    Error,
}

impl ProjectAttentionLevel {
    pub open spec fn marker_spec(self) -> (Seq<char>, SpanStyle) {
        match self {
            ProjectAttentionLevel::Approval => ("!"@, styled(Tint::Red, true, false)),
            ProjectAttentionLevel::UserInput => ("?"@, styled(Tint::Cyan, true, false)),
            ProjectAttentionLevel::Error => ("x"@, styled(Tint::Red, true, false)),
        }
    }

    /// The marker shown before the tab's name: a red `!` for an approval, a
    /// cyan `?` for a question, a red `x` for an error, all bold.
    pub fn marker(self) -> (r: (String, SpanStyle))
        ensures
            (r.0@, r.1) == self.marker_spec(),
    {
        match self {
            ProjectAttentionLevel::Approval => (String::from_str("!"), SpanStyle { tint: Tint::Red, bold: true, dim: false }),
            ProjectAttentionLevel::UserInput => (String::from_str("?"), SpanStyle { tint: Tint::Cyan, bold: true, dim: false }),
            ProjectAttentionLevel::Error => (String::from_str("x"), SpanStyle { tint: Tint::Red, bold: true, dim: false }),
        }
    }
}

/// A tab as the bar shows it.
#[derive(Clone, Debug)]
pub struct ProjectTabChromeEntry {
    pub label: String,
    pub attention: Option<ProjectAttentionLevel>,
    pub is_active: bool,
}

/// What the bar shows: the workspace, the attention mode and the tabs.
#[derive(Clone, Debug)]
pub struct ProjectTabsChromeState {
    pub workspace_custom_name: Option<String>,
    pub workspace_index: usize,
    pub workspace_count: usize,
    pub attention_mode: AttentionMode,
    pub tabs: Vec<ProjectTabChromeEntry>,
}

/// The project tabs bar.
pub struct ProjectTabsBar {
    pub state: Option<ProjectTabsChromeState>,
}

pub type LineSpec = Seq<(Seq<char>, SpanStyle)>;

pub open spec fn plain() -> SpanStyle {
    styled(Tint::Default, false, false)
}

pub open spec fn dim() -> SpanStyle {
    styled(Tint::Default, false, true)
}

pub open spec fn has_attention(tabs: Seq<ProjectTabChromeEntry>) -> bool {
    exists|i: int| 0 <= i < tabs.len() && (#[trigger] tabs[i]).attention is Some
}

/// The bar is worth a row: several tabs or workspaces, attention fully on,
/// or a tab that wants attention.
pub open spec fn relevant(state: ProjectTabsChromeState) -> bool {
    state.tabs.len() > 1 || state.workspace_count > 1 || state.attention_mode == AttentionMode::On || has_attention(
        state.tabs@,
    )
}

/// The pieces of tab `t`'s entry: a dim bar between tabs, the attention
/// marker when markers are shown, and the name (cyan and bold when active,
/// else dim).
pub open spec fn tab_spans(t: ProjectTabChromeEntry, first: bool, mode: AttentionMode) -> LineSpec {
    let sep: LineSpec = if first { seq![] } else { seq![("│"@, dim())] };
    let marker: LineSpec = match t.attention {
        Some(a) => if mode != AttentionMode::Off { seq![a.marker_spec(), (" "@, plain())] } else { seq![] },
        None => seq![],
    };
    let name = if t.is_active { (t.label@, styled(Tint::Cyan, true, false)) } else { (t.label@, dim()) };
    sep + marker + seq![name]
}

/// The entries of the first `n` tabs.
pub open spec fn tabs_spans(tabs: Seq<ProjectTabChromeEntry>, mode: AttentionMode, n: int) -> LineSpec
    decreases n,
{
    if n <= 0 {
        seq![]
    } else {
        tabs_spans(tabs, mode, n - 1) + tab_spans(tabs[n - 1], n - 1 == 0, mode)
    }
}

/// The summary: the attention mode as `//`, `/A/` or a bold `/A/`, then
/// the workspace's position and its name when it has one.
pub open spec fn summary_spans(state: ProjectTabsChromeState) -> LineSpec {
    let mode: LineSpec = match state.attention_mode {
        AttentionMode::Off => seq![("// "@, dim())],
        AttentionMode::Soft => seq![("/"@, dim()), ("A"@, styled(Tint::Red, false, false)), ("/ "@, dim())],
        AttentionMode::On => seq![("/"@, dim()), ("A"@, styled(Tint::Red, true, false)), ("/ "@, dim())],
    };
    let position = ("workspace "@ + text::decimal((state.workspace_index + 1) as nat) + "/"@ + text::decimal(
        state.workspace_count as nat,
    ), dim());
    let name: LineSpec = match state.workspace_custom_name {
        Some(n) => seq![(" ("@ + n@ + ")"@, dim())],
        None => seq![],
    };
    mode + seq![position] + name
}

/// Cells a line takes: one per character.
pub open spec fn line_width(l: LineSpec) -> nat
    decreases l.len(),
{
    if l.len() == 0 {
        0
    } else {
        l[0].0.len() + line_width(l.drop_first())
    }
}

/// The pieces of a line that fit `budget` cells, the last one cut.
pub open spec fn take_width(l: LineSpec, budget: nat) -> LineSpec
    decreases l.len(),
{
    if l.len() == 0 || budget == 0 {
        seq![]
    } else if l[0].0.len() <= budget {
        seq![l[0]] + take_width(l.drop_first(), (budget - l[0].0.len()) as nat)
    } else {
        seq![(l[0].0.take(budget as int), l[0].1)]
    }
}

/// A line cut to `max` cells: unchanged when it fits, else what fits in one
/// cell less followed by an ellipsis.
pub open spec fn fit_line(l: LineSpec, max: nat) -> LineSpec {
    if line_width(l) <= max {
        l
    } else if max == 0 {
        seq![]
    } else {
        take_width(l, (max - 1) as nat).push(("…"@, plain()))
    }
}

/// The bar's line at `width`: the summary alone (cut) when it takes the
/// whole width, else the tabs cut to what the summary leaves, a space, and
/// the summary.
pub open spec fn bar_line(state: ProjectTabsChromeState, width: u16) -> LineSpec {
    let summary = summary_spans(state);
    let sw = line_width(summary);
    if sw >= width {
        fit_line(summary, width as nat)
    } else {
        let tabs = fit_line(tabs_spans(state.tabs@, state.attention_mode, state.tabs.len() as int), (width - (sw + 1)) as nat);
        if tabs.len() > 0 { tabs.push((" "@, plain())) + summary } else { summary }
    }
}

fn style(tint: Tint, bold: bool, dim: bool) -> (s: SpanStyle)
    ensures
        s == styled(tint, bold, dim),
{
    SpanStyle { tint, bold, dim }
}

proof fn lemma_line_width_push(l: LineSpec, x: (Seq<char>, SpanStyle))
    ensures
        line_width(l.push(x)) == line_width(l) + x.0.len(),
    decreases l.len(),
{
    if l.len() > 0 {
        assert(l.push(x).drop_first() =~= l.drop_first().push(x));
        assert(l.push(x)[0] == l[0]);
        lemma_line_width_push(l.drop_first(), x);
    } else {
        assert(l.push(x).drop_first() =~= seq![]);
        assert(line_width(l.push(x).drop_first()) == 0);
        assert(l.push(x)[0] == x);
    }
}

/// Cells the line takes, if at most `cap`.
pub fn bounded_width(l: &StyledLine, cap: usize) -> (r: Option<usize>)
    ensures
        match r {
            Some(n) => n == line_width(ui::line_view(*l)) && n <= cap,
            None => line_width(ui::line_view(*l)) > cap,
        },
{
    let ghost lv = ui::line_view(*l);
    let mut n: usize = 0;
    let mut i: usize = 0;
    while i < l.spans.len()
        invariant
            i <= l.spans.len(),
            lv == ui::line_view(*l),
            n == line_width(lv.take(i as int)),
            n <= cap,
        decreases l.spans.len() - i,
    {
        proof {
            assert(lv.take(i + 1) =~= lv.take(i as int).push(lv[i as int]));
            lemma_line_width_push(lv.take(i as int), lv[i as int]);
        }
        let k = l.spans[i].text.as_str().unicode_len();
        if k > cap - n {
            proof {
                lemma_prefix_width(lv, i + 1);
            }
            return None;
        }
        n = n + k;
        i += 1;
    }
    assert(lv.take(i as int) =~= lv);
    Some(n)
}

proof fn lemma_prefix_width(l: LineSpec, k: int)
    requires
        0 <= k <= l.len(),
    ensures
        line_width(l.take(k)) <= line_width(l),
    decreases l.len() - k,
{
    if k < l.len() {
        lemma_prefix_width(l, k + 1);
        assert(l.take(k + 1) =~= l.take(k).push(l[k]));
        lemma_line_width_push(l.take(k), l[k]);
    } else {
        assert(l.take(k) =~= l);
    }
}

proof fn lemma_take_width_step(l: LineSpec, i: int, budget: nat)
    requires
        0 <= i < l.len(),
        budget > 0,
        l[i].0.len() <= budget,
    ensures
        take_width(l.skip(i), budget) == seq![l[i]] + take_width(l.skip(i + 1), (budget - l[i].0.len()) as nat),
{
    assert(l.skip(i).drop_first() =~= l.skip(i + 1));
    assert(l.skip(i)[0] == l[i]);
}

/// The pieces of a line that fit `budget` cells, the last one cut.
pub fn take_line_width(l: &StyledLine, budget: usize) -> (r: StyledLine)
    ensures
        ui::line_view(r) == take_width(ui::line_view(*l), budget as nat),
{
    let ghost lv = ui::line_view(*l);
    let mut out = StyledLine { spans: Vec::new() };
    let mut left = budget;
    let mut i: usize = 0;
    assert(lv.skip(0) =~= lv);
    assert(ui::line_view(out) =~= seq![]);
    while i < l.spans.len()
        invariant
            i <= l.spans.len(),
            lv == ui::line_view(*l),
            ui::line_view(out) + take_width(lv.skip(i as int), left as nat) == take_width(lv, budget as nat),
        decreases l.spans.len() - i,
    {
        if left == 0 {
            assert(take_width(lv.skip(i as int), 0) =~= seq![]);
            assert(ui::line_view(out) =~= ui::line_view(out) + take_width(lv.skip(i as int), left as nat));
            return out;
        }
        let k = l.spans[i].text.as_str().unicode_len();
        let ghost before = ui::line_view(out);
        if k <= left {
            proof {
                lemma_take_width_step(lv, i as int, left as nat);
            }
            ui::push_span(&mut out, l.spans[i].text.clone(), l.spans[i].style);
            assert(before + take_width(lv.skip(i as int), left as nat) =~= ui::line_view(out) + take_width(
                lv.skip(i + 1),
                (left - k) as nat,
            ));
            left = left - k;
            i += 1;
        } else {
            let cut = text::take_chars(l.spans[i].text.as_str(), left);
            proof {
                assert(lv.skip(i as int)[0] == lv[i as int]);
                assert(take_width(lv.skip(i as int), left as nat) =~= seq![(lv[i as int].0.take(left as int), lv[i as int].1)]);
            }
            ui::push_span(&mut out, cut, l.spans[i].style);
            return out;
        }
    }
    assert(lv.skip(i as int) =~= seq![]);
    assert(ui::line_view(out) =~= ui::line_view(out) + take_width(lv.skip(i as int), left as nat));
    out
}

/// The line cut to `max` cells, with an ellipsis when it did not fit.
pub fn fit_line_exec(l: StyledLine, max: usize) -> (r: StyledLine)
    ensures
        ui::line_view(r) == fit_line(ui::line_view(l), max as nat),
{
    match bounded_width(&l, max) {
        Some(_) => l,
        None => {
            if max == 0 {
                let e = StyledLine { spans: Vec::new() };
                assert(ui::line_view(e) =~= seq![]);
                e
            } else {
                let mut t = take_line_width(&l, max - 1);
                ui::push_span(&mut t, String::from_str("…"), style(Tint::Default, false, false));
                t
            }
        },
    }
}

impl Default for ProjectTabsBar {
    /// A bar with nothing to show.
    fn default() -> (b: ProjectTabsBar)
        ensures
            b.state is None,
    {
        ProjectTabsBar { state: None }
    }
}

impl ProjectTabsBar {
    /// A bar with nothing to show.
    pub fn new() -> (b: ProjectTabsBar)
        ensures
            b.state is None,
    {
        ProjectTabsBar { state: None }
    }

    pub fn set_state(&mut self, state: Option<ProjectTabsChromeState>)
        ensures
            final(self).state == state,
    {
        self.state = state;
    }

    /// Whether the bar is worth a row.
    pub fn is_relevant(state: &ProjectTabsChromeState) -> (b: bool)
        ensures
            b == relevant(*state),
    {
        if state.tabs.len() > 1 || state.workspace_count > 1 {
            return true;
        }
        match state.attention_mode {
            AttentionMode::On => {
                return true;
            },
            _ => {},
        }
        let mut i: usize = 0;
        while i < state.tabs.len()
            invariant
                i <= state.tabs.len(),
                forall|j: int| 0 <= j < i ==> (#[trigger] state.tabs@[j]).attention is None,
            decreases state.tabs.len() - i,
        {
            if state.tabs[i].attention.is_some() {
                assert(state.tabs@[i as int].attention is Some);
                return true;
            }
            i += 1;
        }
        false
    }

    /// The tabs' line.
    pub fn tabs_line(state: &ProjectTabsChromeState) -> (l: StyledLine)
        ensures
            ui::line_view(l) == tabs_spans(state.tabs@, state.attention_mode, state.tabs.len() as int),
    {
        let mut l = StyledLine { spans: Vec::new() };
        assert(ui::line_view(l) =~= seq![]);
        let shows = state.attention_mode.shows_markers();
        let mut i: usize = 0;
        while i < state.tabs.len()
            invariant
                i <= state.tabs.len(),
                shows == (state.attention_mode != AttentionMode::Off),
                ui::line_view(l) == tabs_spans(state.tabs@, state.attention_mode, i as int),
            decreases state.tabs.len() - i,
        {
            let ghost before = ui::line_view(l);
            let t = &state.tabs[i];
            if i > 0 {
                ui::push_span(&mut l, String::from_str("│"), style(Tint::Default, false, true));
            }
            match t.attention {
                Some(a) => {
                    if shows {
                        let (m, ms) = a.marker();
                        ui::push_span(&mut l, m, ms);
                        ui::push_span(&mut l, String::from_str(" "), style(Tint::Default, false, false));
                    }
                },
                None => {},
            }
            if t.is_active {
                ui::push_span(&mut l, t.label.clone(), style(Tint::Cyan, true, false));
            } else {
                ui::push_span(&mut l, t.label.clone(), style(Tint::Default, false, true));
            }
            assert(ui::line_view(l) =~= before + tab_spans(state.tabs@[i as int], i == 0, state.attention_mode));
            i += 1;
        }
        l
    }

    /// The summary's line.
    pub fn summary_line(state: &ProjectTabsChromeState) -> (l: StyledLine)
        requires
            state.workspace_index < usize::MAX,
        ensures
            ui::line_view(l) == summary_spans(*state),
    {
        let mut l = match state.attention_mode {
            AttentionMode::Off => ui::line1(String::from_str("// "), style(Tint::Default, false, true)),
            AttentionMode::Soft => {
                let mut l = ui::line1(String::from_str("/"), style(Tint::Default, false, true));
                ui::push_span(&mut l, String::from_str("A"), style(Tint::Red, false, false));
                ui::push_span(&mut l, String::from_str("/ "), style(Tint::Default, false, true));
                l
            },
            AttentionMode::On => {
                let mut l = ui::line1(String::from_str("/"), style(Tint::Default, false, true));
                ui::push_span(&mut l, String::from_str("A"), style(Tint::Red, true, false));
                ui::push_span(&mut l, String::from_str("/ "), style(Tint::Default, false, true));
                l
            },
        };
        let mut pos = text::chars_of("workspace ");
        text::push_decimal(&mut pos, state.workspace_index + 1);
        text::push_chars(&mut pos, "/");
        text::push_decimal(&mut pos, state.workspace_count);
        ui::push_span(&mut l, text::string_of(pos.as_slice()), style(Tint::Default, false, true));
        match &state.workspace_custom_name {
            Some(n) => {
                let mut t = text::chars_of(" (");
                text::push_chars(&mut t, n.as_str());
                text::push_chars(&mut t, ")");
                ui::push_span(&mut l, text::string_of(t.as_slice()), style(Tint::Default, false, true));
            },
            None => {},
        }
        assert(ui::line_view(l) =~= summary_spans(*state));
        l
    }

    /// The bar's line at `width`.
    pub fn render_line(state: &ProjectTabsChromeState, width: u16) -> (l: StyledLine)
        requires
            state.workspace_index < usize::MAX,
        ensures
            ui::line_view(l) == bar_line(*state, width),
    {
        let summary = Self::summary_line(state);
        let sw = match bounded_width(&summary, width as usize) {
            Some(n) => n,
            None => {
                return fit_line_exec(summary, width as usize);
            },
        };
        if sw >= width as usize {
            return fit_line_exec(summary, width as usize);
        }
        let tabs = fit_line_exec(Self::tabs_line(state), width as usize - (sw + 1));
        let mut spans = tabs;
        if spans.spans.len() > 0 {
            ui::push_span(&mut spans, String::from_str(" "), style(Tint::Default, false, false));
        }
        let ghost head = ui::line_view(spans);
        let mut i: usize = 0;
        while i < summary.spans.len()
            invariant
                i <= summary.spans.len(),
                ui::line_view(spans) == head + ui::line_view(summary).take(i as int),
            decreases summary.spans.len() - i,
        {
            ui::push_span(&mut spans, summary.spans[i].text.clone(), summary.spans[i].style);
            assert(ui::line_view(summary).take(i + 1) =~= ui::line_view(summary).take(i as int).push(
                ui::line_view(summary)[i as int],
            ));
            i += 1;
        }
        assert(ui::line_view(summary).take(i as int) =~= ui::line_view(summary));
        spans
    }

    /// The bar's line at `width`, when there is a state worth a row.
    pub fn render_line_for_width(&self, width: u16) -> (r: Option<StyledLine>)
        requires
            self.state matches Some(s) ==> s.workspace_index < usize::MAX,
        ensures
            match self.state {
                Some(s) => if relevant(s) {
                    r matches Some(l) && ui::line_view(l) == bar_line(s, width)
                } else {
                    r is None
                },
                None => r is None,
            },
    {
        match &self.state {
            Some(s) => if Self::is_relevant(s) {
                Some(Self::render_line(s, width))
            } else {
                None
            },
            None => None,
        }
    }

    /// One row when there is a state worth showing, else none.
    pub fn desired_height(&self, width: u16) -> (h: u16)
        ensures
            h == match self.state {
                Some(s) => if relevant(s) { 1u16 } else { 0u16 },
                None => 0u16,
            },
    {
        match &self.state {
            Some(s) => if Self::is_relevant(s) { 1 } else { 0 },
            None => 0,
        }
    }
}

} // verus!
