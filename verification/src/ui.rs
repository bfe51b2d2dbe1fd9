//! Styled text as the views lay it out, for the terminal to draw.
use vstd::prelude::*;
use crate::split_pane::PaneRect;

verus! {

/// A foreground colour.
#[derive(Clone, Copy, PartialEq, Eq, Structural, Debug)]
pub enum Tint {
    Default,
    Red,
    Cyan,
    Magenta,
}

/// How a piece of text is drawn: its colour, and whether it is bold or dim.
#[derive(Clone, Copy, PartialEq, Eq, Structural, Debug)]
pub struct SpanStyle {
    pub tint: Tint,
    pub bold: bool,
    pub dim: bool,
}

pub open spec fn styled(tint: Tint, bold: bool, dim: bool) -> SpanStyle {
    SpanStyle { tint, bold, dim }
}

/// A style of the given colour, bold or dim as asked.
pub fn style_of(tint: Tint, bold: bool, dim: bool) -> (s: SpanStyle)
    ensures
        s == styled(tint, bold, dim),
{
    SpanStyle { tint, bold, dim }
}

/// A piece of text with its style.
pub struct Span {
    pub text: String,
    pub style: SpanStyle,
}

/// A line of styled pieces.
pub struct StyledLine {
    pub spans: Vec<Span>,
}

pub open spec fn span_view(s: Span) -> (Seq<char>, SpanStyle) {
    (s.text@, s.style)
}

pub open spec fn line_view(l: StyledLine) -> Seq<(Seq<char>, SpanStyle)> {
    l.spans@.map_values(|s: Span| span_view(s))
}

pub open spec fn lines_view(v: Seq<StyledLine>) -> Seq<Seq<(Seq<char>, SpanStyle)>> {
    v.map_values(|l: StyledLine| line_view(l))
}

/// A line of one piece.
pub fn line1(text: String, style: SpanStyle) -> (l: StyledLine)
    ensures
        line_view(l) == seq![(text@, style)],
{
    let mut spans: Vec<Span> = Vec::new();
    spans.push(Span { text, style });
    let l = StyledLine { spans };
    assert(line_view(l) =~= seq![(text@, style)]);
    l
}

/// Appends a piece to a line.
pub fn push_span(l: &mut StyledLine, text: String, style: SpanStyle)
    ensures
        line_view(*final(l)) == line_view(*old(l)).push((text@, style)),
{
    let ghost before = line_view(*l);
    l.spans.push(Span { text, style });
    assert(line_view(*l) =~= before.push((text@, style)));
}

/// Appends a line to a list of lines.
pub fn push_line(v: &mut Vec<StyledLine>, l: StyledLine)
    ensures
        lines_view(final(v)@) == lines_view(old(v)@).push(line_view(l)),
{
    let ghost before = lines_view(v@);
    v.push(l);
    assert(lines_view(v@) =~= before.push(line_view(l)));
}

/// A frame drawn round a panel: single or double line, its style, and a
/// title on its top edge.
pub struct Frame {
    pub double: bool,
    pub style: SpanStyle,
    pub title: Option<String>,
}

/// A rectangle to fill: cleared first when `clear`, an optional frame, and
/// lines of text inside it, scrolled down by `scroll` lines.
pub struct Panel {
    pub area: PaneRect,
    pub clear: bool,
    pub frame: Option<Frame>,
    pub lines: Vec<StyledLine>,
    pub scroll: u16,
}

/// A frame as the contracts speak of it.
#[verifier::ext_equal]
pub struct FrameSpec {
    pub double: bool,
    pub style: SpanStyle,
    pub title: Option<Seq<char>>,
}

/// A panel as the contracts speak of it.
#[verifier::ext_equal]
pub struct PanelSpec {
    pub area: PaneRect,
    pub clear: bool,
    pub frame: Option<FrameSpec>,
    pub lines: Seq<Seq<(Seq<char>, SpanStyle)>>,
    pub scroll: u16,
}

pub open spec fn frame_view(f: Frame) -> FrameSpec {
    FrameSpec {
        double: f.double,
        style: f.style,
        title: match f.title {
            Some(t) => Some(t@),
            None => None,
        },
    }
}

pub open spec fn panel_view(p: Panel) -> PanelSpec {
    PanelSpec {
        area: p.area,
        clear: p.clear,
        frame: match p.frame {
            Some(f) => Some(frame_view(f)),
            None => None,
        },
        lines: lines_view(p.lines@),
        scroll: p.scroll,
    }
}

pub open spec fn panels_view(v: Seq<Panel>) -> Seq<PanelSpec> {
    v.map_values(|p: Panel| panel_view(p))
}

/// Appends a panel to a list of panels.
pub fn push_panel(v: &mut Vec<Panel>, p: Panel)
    ensures
        panels_view(final(v)@) == panels_view(old(v)@).push(panel_view(p)),
{
    let ghost before = panels_view(v@);
    v.push(p);
    assert(panels_view(v@) =~= before.push(panel_view(p)));
}

} // verus!
