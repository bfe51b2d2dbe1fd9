//! Screen areas: how a rectangle is cut into parts, and what a bordered
//! block leaves inside its frame.
use vstd::prelude::*;
use crate::split_pane::PaneRect;
use ratatui::layout::Constraint;
use ratatui::layout::Layout;
use ratatui::layout::Rect;
use ratatui::widgets::Block;
use ratatui::widgets::Borders;

verus! {

/// How much of an area one part takes.
#[derive(Clone, Copy, PartialEq, Eq, Structural, Debug)]
pub enum LayoutConstraint {
    /// Exactly this many cells.
    Length(u16),
    /// A share of what is left, by weight.
    Fill(u16),
    /// This percentage of the area.
    Percentage(u16),
}

/// Whether `parts` is a split that `Layout::split` may give of `area` by
/// the constraints, top to bottom when `vertical`, else left to right. The
/// layout's solver may settle conflicting constraints differently from one
/// process to the next, so this names the splits it may answer with, not
/// one split.
pub uninterp spec fn layout_may_split(
    area: PaneRect,
    vertical: bool,
    constraints: Seq<LayoutConstraint>,
    parts: Seq<PaneRect>,
) -> bool;

/// Each part spans the area across the split: a vertical split keeps the
/// area's `x` and `width`, a horizontal one its `y` and `height`.
pub open spec fn spans_across(area: PaneRect, vertical: bool, parts: Seq<PaneRect>) -> bool {
    forall|i: int|
        0 <= i < parts.len() ==> if vertical {
            (#[trigger] parts[i]).x == area.x && parts[i].width == area.width
        } else {
            parts[i].y == area.y && parts[i].height == area.height
        }
}

/// `parts` is what splitting `area` by the constraints gave: a split the
/// layout may give, one part per constraint, each spanning the area across
/// the split.
pub open spec fn split_by(area: PaneRect, vertical: bool, constraints: Seq<LayoutConstraint>, parts: Seq<PaneRect>) -> bool {
    &&& layout_may_split(area, vertical, constraints, parts)
    &&& parts.len() == constraints.len()
    &&& spans_across(area, vertical, parts)
}

/// `Layout::vertical` or `Layout::horizontal` with the constraints, split on
/// `area`. Claimed: the parts are a split the layout may give for these
/// constraints (which one is left to the solver), one part per constraint,
/// and each part keeps the area's extent across the split, as the layout
/// builds every part from the area's cross-axis position and size.
#[verifier::external_body]
pub fn split_area(area: PaneRect, vertical: bool, constraints: &[LayoutConstraint]) -> (r: Vec<PaneRect>)
    ensures
        layout_may_split(area, vertical, constraints@, r@),
        r.len() == constraints.len(),
        spans_across(area, vertical, r@),
{
    let rect = Rect { x: area.x, y: area.y, width: area.width, height: area.height };
    let cs = constraints.iter().map(|c| match *c {
        LayoutConstraint::Length(n) => Constraint::Length(n),
        LayoutConstraint::Fill(n) => Constraint::Fill(n),
        LayoutConstraint::Percentage(n) => Constraint::Percentage(n),
    });
    let parts = if vertical { Layout::vertical(cs).split(rect) } else { Layout::horizontal(cs).split(rect) };
    parts.iter().map(|r| PaneRect { x: r.x, y: r.y, width: r.width, height: r.height }).collect()
}

pub open spec fn sat_add(a: u16, b: u16) -> u16 {
    if a + b > u16::MAX { u16::MAX } else { (a + b) as u16 }
}

pub open spec fn sat_sub(a: u16, b: u16) -> u16 {
    if a >= b { (a - b) as u16 } else { 0 }
}

pub open spec fn min_u16(a: u16, b: u16) -> u16 {
    if a <= b { a } else { b }
}

/// What is left inside a frame drawn on all four sides.
pub open spec fn inner_area(area: PaneRect) -> PaneRect {
    PaneRect {
        x: min_u16(sat_add(area.x, 1), sat_add(area.x, area.width)),
        y: min_u16(sat_add(area.y, 1), sat_add(area.y, area.height)),
        width: sat_sub(sat_sub(area.width, 1), 1),
        height: sat_sub(sat_sub(area.height, 1), 1),
    }
}

/// `Block::inner` of a block with all borders and no padding. Claimed, as
/// the source computes it: one cell comes off each side, saturating.
#[verifier::external_body]
pub fn bordered_inner(area: PaneRect) -> (r: PaneRect)
    ensures
        r == inner_area(area),
{
    let rect = Rect { x: area.x, y: area.y, width: area.width, height: area.height };
    let r = Block::default().borders(Borders::ALL).inner(rect);
    PaneRect { x: r.x, y: r.y, width: r.width, height: r.height }
}

} // verus!
