//! Split panes: a binary tree of panes, each showing one thread, with one
//! pane focused. Panes are split, focused in order, and closed when their
//! thread goes away; their screen areas come from a fill/divider/fill layout.
use vstd::prelude::*;
use crate::layout;
use crate::layout::LayoutConstraint;

verus! {

/// Thickness of the line between two panes.
pub const PANE_DIVIDER_THICKNESS: u16 = 1;

/// Narrowest pane a split may leave.
pub const MIN_PANE_WIDTH: u16 = 48;

/// Lowest pane a split may leave.
pub const MIN_PANE_HEIGHT: u16 = 12;

/// Direction of a split: `Horizontal` stacks the panes, `Vertical` puts them
/// side by side.
#[derive(Clone, Copy, PartialEq, Eq, Structural, Debug)]
pub enum SplitAxis {
    Horizontal,
    Vertical,
}

/// A rectangle of the terminal.
#[derive(Clone, Copy, PartialEq, Eq, Structural, Debug)]
pub struct PaneRect {
    pub x: u16,
    pub y: u16,
    pub width: u16,
    pub height: u16,
}

/// A node of the pane tree.
pub enum SplitPaneNode {
    Leaf { pane_id: u64, thread_id: u64 },
    Split { axis: SplitAxis, first: Box<SplitPaneNode>, second: Box<SplitPaneNode> },
}

/// How the layout cut the split nodes of a pane tree: for each split, the
/// first pane, the divider and the second pane, and the cuts inside each
/// side. `Whole` stands for a node that was not cut.
pub enum PaneCuts {
    Whole,
    Cut { parts: (PaneRect, PaneRect, PaneRect), first: Box<PaneCuts>, second: Box<PaneCuts> },
}

/// The three parts of a cut, or `area` three times for an uncut node.
pub open spec fn cut_parts(c: PaneCuts, area: PaneRect) -> (PaneRect, PaneRect, PaneRect) {
    match c {
        PaneCuts::Cut { parts, .. } => parts,
        PaneCuts::Whole => (area, area, area),
    }
}

/// The cuts inside the first side.
pub open spec fn cut_first(c: PaneCuts) -> PaneCuts {
    match c {
        PaneCuts::Cut { first, .. } => *first,
        PaneCuts::Whole => PaneCuts::Whole,
    }
}

/// The cuts inside the second side.
pub open spec fn cut_second(c: PaneCuts) -> PaneCuts {
    match c {
        PaneCuts::Cut { second, .. } => *second,
        PaneCuts::Whole => PaneCuts::Whole,
    }
}

impl SplitPaneNode {
    /// The cuts are those the layout made of every split of the tree when it
    /// fills `area`.
    pub open spec fn cuts_fit(self, area: PaneRect, c: PaneCuts) -> bool
        decreases self,
    {
        match self {
            SplitPaneNode::Leaf { .. } => true,
            SplitPaneNode::Split { axis, first, second } => match c {
                PaneCuts::Cut { parts, first: cf, second: cs } => {
                    &&& split_parts(area, axis, parts)
                    &&& first.cuts_fit(parts.0, *cf)
                    &&& second.cuts_fit(parts.2, *cs)
                },
                PaneCuts::Whole => false,
            },
        }
    }

    /// The cuts are those the layout made on the way to pane `target`: each
    /// split passed, and the second side only when the first does not hold
    /// the pane.
    pub open spec fn cuts_fit_toward(self, target: u64, area: PaneRect, c: PaneCuts) -> bool
        decreases self,
    {
        match self {
            SplitPaneNode::Leaf { .. } => true,
            SplitPaneNode::Split { axis, first, second } => match c {
                PaneCuts::Cut { parts, first: cf, second: cs } => {
                    &&& split_parts(area, axis, parts)
                    &&& first.cuts_fit_toward(target, parts.0, *cf)
                    &&& (first.area_of(target, parts.0, *cf) is None ==> second.cuts_fit_toward(target, parts.2, *cs))
                },
                PaneCuts::Whole => false,
            },
        }
    }
}

pub open spec fn split_constraints() -> Seq<LayoutConstraint> {
    seq![LayoutConstraint::Fill(1), LayoutConstraint::Length(PANE_DIVIDER_THICKNESS), LayoutConstraint::Fill(1)]
}

/// `r` (first pane, divider, second pane) is what splitting `area` along
/// `axis` gives: the layout's split by `split_constraints()`, stacked for a
/// horizontal split, side by side for a vertical one.
pub open spec fn split_parts(area: PaneRect, axis: SplitAxis, r: (PaneRect, PaneRect, PaneRect)) -> bool {
    layout::split_by(area, axis == SplitAxis::Horizontal, split_constraints(), seq![r.0, r.1, r.2])
}

/// The constraints of a split, as handed to the layout.
pub fn split_constraint_list() -> (v: Vec<LayoutConstraint>)
    ensures
        v@ == split_constraints(),
{
    let mut cs: Vec<LayoutConstraint> = Vec::new();
    cs.push(LayoutConstraint::Fill(1));
    cs.push(LayoutConstraint::Length(PANE_DIVIDER_THICKNESS));
    cs.push(LayoutConstraint::Fill(1));
    assert(cs@ =~= split_constraints());
    cs
}

/// The split of `area` into fill, a one-cell divider, and fill, along the
/// axis: stacked for a horizontal split, side by side for a vertical one.
pub fn split_regions(area: PaneRect, axis: SplitAxis) -> (r: (PaneRect, PaneRect, PaneRect))
    ensures
        split_parts(area, axis, r),
{
    let cs = split_constraint_list();
    let vertical = match axis {
        SplitAxis::Horizontal => true,
        SplitAxis::Vertical => false,
    };
    let parts = layout::split_area(area, vertical, cs.as_slice());
    let r = (parts[0], parts[1], parts[2]);
    assert(parts@ =~= seq![r.0, r.1, r.2]);
    r
}

impl SplitPaneNode {
    /// The panes of the tree in order, as (pane, thread).
    pub open spec fn leaves(self) -> Seq<(u64, u64)>
        decreases self,
    {
        match self {
            SplitPaneNode::Leaf { pane_id, thread_id } => seq![(pane_id, thread_id)],
            SplitPaneNode::Split { first, second, .. } => first.leaves() + second.leaves(),
        }
    }

    /// The thread of pane `target`.
    pub open spec fn thread_of(self, target: u64) -> Option<u64>
        decreases self,
    {
        match self {
            SplitPaneNode::Leaf { pane_id, thread_id } => if pane_id == target {
                Some(thread_id)
            } else {
                None
            },
            SplitPaneNode::Split { first, second, .. } => match first.thread_of(target) {
                Some(t) => Some(t),
                None => second.thread_of(target),
            },
        }
    }

    /// The pane that shows `thread`.
    pub open spec fn pane_of(self, thread: u64) -> Option<u64>
        decreases self,
    {
        match self {
            SplitPaneNode::Leaf { pane_id, thread_id } => if thread_id == thread {
                Some(pane_id)
            } else {
                None
            },
            SplitPaneNode::Split { first, second, .. } => match first.pane_of(thread) {
                Some(p) => Some(p),
                None => second.pane_of(thread),
            },
        }
    }

    /// The tree with pane `target` showing `thread`.
    pub open spec fn with_thread(self, target: u64, thread: u64) -> SplitPaneNode
        decreases self,
    {
        match self {
            SplitPaneNode::Leaf { pane_id, thread_id } => if pane_id == target {
                SplitPaneNode::Leaf { pane_id, thread_id: thread }
            } else {
                self
            },
            SplitPaneNode::Split { axis, first, second } => if first.thread_of(target) is Some {
                SplitPaneNode::Split { axis, first: Box::new(first.with_thread(target, thread)), second }
            } else {
                SplitPaneNode::Split { axis, first, second: Box::new(second.with_thread(target, thread)) }
            },
        }
    }

    /// The tree with pane `target` split along `axis`, the new pane `new_pane`
    /// showing `thread` after it.
    pub open spec fn split_at(self, target: u64, new_pane: u64, thread: u64, axis: SplitAxis) -> SplitPaneNode
        decreases self,
    {
        match self {
            SplitPaneNode::Leaf { pane_id, thread_id } => if pane_id == target {
                SplitPaneNode::Split {
                    axis,
                    first: Box::new(self),
                    second: Box::new(SplitPaneNode::Leaf { pane_id: new_pane, thread_id: thread }),
                }
            } else {
                self
            },
            SplitPaneNode::Split { axis: a, first, second } => if first.thread_of(target) is Some {
                SplitPaneNode::Split { axis: a, first: Box::new(first.split_at(target, new_pane, thread, axis)), second }
            } else {
                SplitPaneNode::Split { axis: a, first, second: Box::new(second.split_at(target, new_pane, thread, axis)) }
            },
        }
    }

    /// The tree without the panes showing `thread`, a split with one side
    /// left collapsing to that side; `None` when no pane is left.
    pub open spec fn without(self, thread: u64) -> Option<SplitPaneNode>
        decreases self,
    {
        match self {
            SplitPaneNode::Leaf { thread_id, .. } => if thread_id == thread {
                None
            } else {
                Some(self)
            },
            SplitPaneNode::Split { axis, first, second } => match (first.without(thread), second.without(thread)) {
                (Some(f), Some(s)) => Some(SplitPaneNode::Split { axis, first: Box::new(f), second: Box::new(s) }),
                (Some(n), None) => Some(n),
                (None, Some(n)) => Some(n),
                (None, None) => None,
            },
        }
    }

    /// The area of pane `target` when the tree fills `area`, cut as `c`.
    pub open spec fn area_of(self, target: u64, area: PaneRect, c: PaneCuts) -> Option<PaneRect>
        decreases self,
    {
        match self {
            SplitPaneNode::Leaf { pane_id, .. } => if pane_id == target {
                Some(area)
            } else {
                None
            },
            SplitPaneNode::Split { axis, first, second } => {
                let (a, _, b) = cut_parts(c, area);
                match first.area_of(target, a, cut_first(c)) {
                    Some(r) => Some(r),
                    None => second.area_of(target, b, cut_second(c)),
                }
            },
        }
    }

    /// Each pane with its area when the tree fills `area`, cut as `c`, in
    /// order.
    pub open spec fn leaf_areas(self, area: PaneRect, c: PaneCuts) -> Seq<(u64, u64, PaneRect)>
        decreases self,
    {
        match self {
            SplitPaneNode::Leaf { pane_id, thread_id } => seq![(pane_id, thread_id, area)],
            SplitPaneNode::Split { axis, first, second } => {
                let (a, _, b) = cut_parts(c, area);
                first.leaf_areas(a, cut_first(c)) + second.leaf_areas(b, cut_second(c))
            },
        }
    }
}

impl SplitPaneNode {
    /// The thread of pane `target`.
    pub fn thread_for_pane(&self, target: u64) -> (r: Option<u64>)
        ensures
            r == self.thread_of(target),
        decreases self,
    {
        match self {
            SplitPaneNode::Leaf { pane_id, thread_id } => if *pane_id == target {
                Some(*thread_id)
            } else {
                None
            },
            SplitPaneNode::Split { first, second, .. } => match first.thread_for_pane(target) {
                Some(t) => Some(t),
                None => second.thread_for_pane(target),
            },
        }
    }

    /// The pane that shows `thread`.
    pub fn pane_for_thread(&self, thread: u64) -> (r: Option<u64>)
        ensures
            r == self.pane_of(thread),
        decreases self,
    {
        match self {
            SplitPaneNode::Leaf { pane_id, thread_id } => if *thread_id == thread {
                Some(*pane_id)
            } else {
                None
            },
            SplitPaneNode::Split { first, second, .. } => match first.pane_for_thread(thread) {
                Some(p) => Some(p),
                None => second.pane_for_thread(thread),
            },
        }
    }

    /// A copy of the tree.
    pub fn duplicate(&self) -> (r: SplitPaneNode)
        ensures
            r == *self,
        decreases self,
    {
        match self {
            SplitPaneNode::Leaf { pane_id, thread_id } => SplitPaneNode::Leaf { pane_id: *pane_id, thread_id: *thread_id },
            SplitPaneNode::Split { axis, first, second } => SplitPaneNode::Split {
                axis: *axis,
                first: Box::new(first.duplicate()),
                second: Box::new(second.duplicate()),
            },
        }
    }

    /// The tree with pane `target` showing `thread`.
    pub fn set_thread_for_pane(&self, target: u64, thread: u64) -> (r: SplitPaneNode)
        ensures
            r == self.with_thread(target, thread),
        decreases self,
    {
        match self {
            SplitPaneNode::Leaf { pane_id, thread_id } => if *pane_id == target {
                SplitPaneNode::Leaf { pane_id: *pane_id, thread_id: thread }
            } else {
                SplitPaneNode::Leaf { pane_id: *pane_id, thread_id: *thread_id }
            },
            SplitPaneNode::Split { axis, first, second } => if first.thread_for_pane(target).is_some() {
                SplitPaneNode::Split {
                    axis: *axis,
                    first: Box::new(first.set_thread_for_pane(target, thread)),
                    second: Box::new(second.duplicate()),
                }
            } else {
                SplitPaneNode::Split {
                    axis: *axis,
                    first: Box::new(first.duplicate()),
                    second: Box::new(second.set_thread_for_pane(target, thread)),
                }
            },
        }
    }

    /// The tree with pane `target` split, the new pane after it.
    pub fn split_pane(&self, target: u64, new_pane: u64, thread: u64, axis: SplitAxis) -> (r: SplitPaneNode)
        ensures
            r == self.split_at(target, new_pane, thread, axis),
        decreases self,
    {
        match self {
            SplitPaneNode::Leaf { pane_id, thread_id } => if *pane_id == target {
                SplitPaneNode::Split {
                    axis,
                    first: Box::new(SplitPaneNode::Leaf { pane_id: *pane_id, thread_id: *thread_id }),
                    second: Box::new(SplitPaneNode::Leaf { pane_id: new_pane, thread_id: thread }),
                }
            } else {
                SplitPaneNode::Leaf { pane_id: *pane_id, thread_id: *thread_id }
            },
            SplitPaneNode::Split { axis: a, first, second } => if first.thread_for_pane(target).is_some() {
                SplitPaneNode::Split {
                    axis: *a,
                    first: Box::new(first.split_pane(target, new_pane, thread, axis)),
                    second: Box::new(second.duplicate()),
                }
            } else {
                SplitPaneNode::Split {
                    axis: *a,
                    first: Box::new(first.duplicate()),
                    second: Box::new(second.split_pane(target, new_pane, thread, axis)),
                }
            },
        }
    }

    /// Number of panes.
    pub fn leaf_count(&self) -> (n: usize)
        requires
            self.leaves().len() <= usize::MAX,
        ensures
            n == self.leaves().len(),
        decreases self,
    {
        match self {
            SplitPaneNode::Leaf { .. } => 1,
            SplitPaneNode::Split { first, second, .. } => first.leaf_count() + second.leaf_count(),
        }
    }

    /// Whether a pane shows `thread`.
    pub fn contains_thread(&self, thread: u64) -> (b: bool)
        ensures
            b == self.pane_of(thread) is Some,
        decreases self,
    {
        match self {
            SplitPaneNode::Leaf { thread_id, .. } => *thread_id == thread,
            SplitPaneNode::Split { first, second, .. } => first.contains_thread(thread) || second.contains_thread(thread),
        }
    }

    /// Whether the tree has pane `target`.
    pub fn contains_pane(&self, target: u64) -> (b: bool)
        ensures
            b == self.thread_of(target) is Some,
        decreases self,
    {
        match self {
            SplitPaneNode::Leaf { pane_id, .. } => *pane_id == target,
            SplitPaneNode::Split { first, second, .. } => first.contains_pane(target) || second.contains_pane(target),
        }
    }

    /// The first pane in order.
    pub fn first_pane_id(&self) -> (p: u64)
        ensures
            p == self.leaves()[0].0,
        decreases self,
    {
        proof {
            lemma_leaves_nonempty(*self);
        }
        match self {
            SplitPaneNode::Leaf { pane_id, .. } => *pane_id,
            SplitPaneNode::Split { first, .. } => {
                proof {
                    lemma_leaves_nonempty(**first);
                }
                first.first_pane_id()
            },
        }
    }

    /// Appends the panes in order to `out`.
    pub fn collect_leaves(&self, out: &mut Vec<(u64, u64)>)
        ensures
            final(out)@ == old(out)@ + self.leaves(),
        decreases self,
    {
        match self {
            SplitPaneNode::Leaf { pane_id, thread_id } => {
                out.push((*pane_id, *thread_id));
            },
            SplitPaneNode::Split { first, second, .. } => {
                first.collect_leaves(out);
                second.collect_leaves(out);
            },
        }
    }

    /// The tree without the panes showing `thread`.
    pub fn without_thread(&self, thread: u64) -> (r: Option<SplitPaneNode>)
        ensures
            r == self.without(thread),
        decreases self,
    {
        match self {
            SplitPaneNode::Leaf { pane_id, thread_id } => if *thread_id == thread {
                None
            } else {
                Some(SplitPaneNode::Leaf { pane_id: *pane_id, thread_id: *thread_id })
            },
            SplitPaneNode::Split { axis, first, second } => match (first.without_thread(thread), second.without_thread(thread)) {
                (Some(f), Some(s)) => Some(SplitPaneNode::Split { axis: *axis, first: Box::new(f), second: Box::new(s) }),
                (Some(n), None) => Some(n),
                (None, Some(n)) => Some(n),
                (None, None) => None,
            },
        }
    }

    /// The area of pane `target` when the tree fills `area`, and the cuts
    /// the layout made on the way.
    pub fn pane_area(&self, target: u64, area: PaneRect) -> (r: (Option<PaneRect>, Ghost<PaneCuts>))
        ensures
            self.cuts_fit_toward(target, area, r.1@),
            r.0 == self.area_of(target, area, r.1@),
        decreases self,
    {
        match self {
            SplitPaneNode::Leaf { pane_id, .. } => if *pane_id == target {
                (Some(area), Ghost(PaneCuts::Whole))
            } else {
                (None, Ghost(PaneCuts::Whole))
            },
            SplitPaneNode::Split { axis, first, second } => {
                let (a, d, b) = split_regions(area, *axis);
                let (found, c1) = first.pane_area(target, a);
                match found {
                    Some(r) => (Some(r), Ghost(PaneCuts::Cut { parts: (a, d, b), first: Box::new(c1@), second: Box::new(PaneCuts::Whole) })),
                    None => {
                        let (r2, c2) = second.pane_area(target, b);
                        (r2, Ghost(PaneCuts::Cut { parts: (a, d, b), first: Box::new(c1@), second: Box::new(c2@) }))
                    },
                }
            },
        }
    }

    /// Appends each pane with its area to `out`; returns the cuts the layout
    /// made on the way.
    pub fn collect_leaf_areas(&self, area: PaneRect, out: &mut Vec<(u64, u64, PaneRect)>) -> (c: Ghost<PaneCuts>)
        ensures
            self.cuts_fit(area, c@),
            final(out)@ == old(out)@ + self.leaf_areas(area, c@),
        decreases self,
    {
        let ghost start = out@;
        match self {
            SplitPaneNode::Leaf { pane_id, thread_id } => {
                out.push((*pane_id, *thread_id, area));
                Ghost(PaneCuts::Whole)
            },
            SplitPaneNode::Split { axis, first, second } => {
                let (a, d, b) = split_regions(area, *axis);
                let c1 = first.collect_leaf_areas(a, out);
                let c2 = second.collect_leaf_areas(b, out);
                let c = Ghost(PaneCuts::Cut { parts: (a, d, b), first: Box::new(c1@), second: Box::new(c2@) });
                assert(self.leaf_areas(area, c@) == first.leaf_areas(a, c1@) + second.leaf_areas(b, c2@));
                assert(out@ =~= start + self.leaf_areas(area, c@));
                c
            },
        }
    }
}

pub proof fn lemma_leaves_nonempty(n: SplitPaneNode)
    ensures
        n.leaves().len() >= 1,
    decreases n,
{
    if let SplitPaneNode::Split { first, second, .. } = n {
        lemma_leaves_nonempty(*first);
        lemma_leaves_nonempty(*second);
    }
}

/// The panes are pairwise distinct.
pub open spec fn distinct_panes(l: Seq<(u64, u64)>) -> bool {
    forall|i: int, j: int| 0 <= i < j < l.len() ==> l[i].0 != l[j].0
}

/// `p` is one of the panes.
pub open spec fn has_pane(l: Seq<(u64, u64)>, p: u64) -> bool {
    exists|i: int| 0 <= i < l.len() && l[i].0 == p
}

pub proof fn lemma_thread_of(n: SplitPaneNode, p: u64)
    ensures
        n.thread_of(p) is Some <==> has_pane(n.leaves(), p),
        n.thread_of(p) matches Some(t) ==> exists|i: int| 0 <= i < n.leaves().len() && n.leaves()[i] == (p, t),
    decreases n,
{
    match n {
        SplitPaneNode::Leaf { pane_id, thread_id } => {
            if has_pane(n.leaves(), p) {
                let i = choose|i: int| 0 <= i < n.leaves().len() && n.leaves()[i].0 == p;
                assert(n.leaves()[i] == (pane_id, thread_id));
            }
            if pane_id == p {
                assert(n.leaves()[0] == (p, thread_id));
            }
        },
        SplitPaneNode::Split { first, second, .. } => {
            lemma_thread_of(*first, p);
            lemma_thread_of(*second, p);
            let a = first.leaves();
            let b = second.leaves();
            let l = n.leaves();
            assert(l == a + b);
            if has_pane(a, p) {
                let i = choose|i: int| 0 <= i < a.len() && a[i].0 == p;
                assert(l[i] == a[i]);
            }
            if has_pane(b, p) {
                let i = choose|i: int| 0 <= i < b.len() && b[i].0 == p;
                assert(l[a.len() + i] == b[i]);
            }
            if has_pane(l, p) {
                let i = choose|i: int| 0 <= i < l.len() && l[i].0 == p;
                if i < a.len() {
                    assert(a[i] == l[i]);
                } else {
                    assert(b[i - a.len()] == l[i]);
                }
            }
            match first.thread_of(p) {
                Some(t) => {
                    let i = choose|i: int| 0 <= i < a.len() && a[i] == (p, t);
                    assert(l[i] == a[i]);
                },
                None => match second.thread_of(p) {
                    Some(t) => {
                        let i = choose|i: int| 0 <= i < b.len() && b[i] == (p, t);
                        assert(l[a.len() + i] == b[i]);
                    },
                    None => {},
                },
            }
        },
    }
}

/// The panes of `l`, in order, without their threads.
pub open spec fn pane_ids(l: Seq<(u64, u64)>) -> Seq<u64> {
    l.map_values(|x: (u64, u64)| x.0)
}

pub proof fn lemma_with_thread_panes(n: SplitPaneNode, target: u64, t: u64)
    ensures
        pane_ids(n.with_thread(target, t).leaves()) == pane_ids(n.leaves()),
        n.with_thread(target, t).thread_of(target) == if n.thread_of(target) is Some {
            Some(t)
        } else {
            None
        },
    decreases n,
{
    match n {
        SplitPaneNode::Leaf { .. } => {
            assert(pane_ids(n.with_thread(target, t).leaves()) =~= pane_ids(n.leaves()));
        },
        SplitPaneNode::Split { first, second, .. } => {
            lemma_with_thread_panes(*first, target, t);
            lemma_with_thread_panes(*second, target, t);
            let m = n.with_thread(target, t);
            if first.thread_of(target) is Some {
                assert(m.leaves() == first.with_thread(target, t).leaves() + second.leaves());
            } else {
                assert(m.leaves() == first.leaves() + second.with_thread(target, t).leaves());
            }
            lemma_pane_ids_add(first.leaves(), second.leaves());
            lemma_pane_ids_add(first.with_thread(target, t).leaves(), second.leaves());
            lemma_pane_ids_add(first.leaves(), second.with_thread(target, t).leaves());
        },
    }
}

pub proof fn lemma_pane_ids_add(a: Seq<(u64, u64)>, b: Seq<(u64, u64)>)
    ensures
        pane_ids(a + b) == pane_ids(a) + pane_ids(b),
{
    assert(pane_ids(a + b) =~= pane_ids(a) + pane_ids(b));
}

/// Index of the first leaf of pane `p`.
pub open spec fn pane_index(l: Seq<(u64, u64)>, p: u64) -> int
    decreases l.len(),
{
    if l.len() == 0 {
        0
    } else if l[0].0 == p {
        0
    } else {
        1 + pane_index(l.drop_first(), p)
    }
}

pub proof fn lemma_pane_index(l: Seq<(u64, u64)>, p: u64)
    ensures
        0 <= pane_index(l, p) <= l.len(),
        has_pane(l, p) ==> pane_index(l, p) < l.len() && l[pane_index(l, p)].0 == p,
        forall|j: int| 0 <= j < pane_index(l, p) ==> l[j].0 != p,
    decreases l.len(),
{
    if l.len() > 0 && l[0].0 != p {
        let t = l.drop_first();
        lemma_pane_index(t, p);
        if has_pane(l, p) {
            let i = choose|i: int| 0 <= i < l.len() && l[i].0 == p;
            assert(t[i - 1] == l[i]);
        }
        assert forall|j: int| 0 <= j < pane_index(l, p) implies l[j].0 != p by {
            if j > 0 {
                assert(l[j] == t[j - 1]);
            }
        }
    }
}

pub proof fn lemma_pane_index_unique(l: Seq<(u64, u64)>, i: int)
    requires
        distinct_panes(l),
        0 <= i < l.len(),
    ensures
        pane_index(l, l[i].0) == i,
{
    lemma_pane_index(l, l[i].0);
    assert(has_pane(l, l[i].0));
}

/// `l` with the leaf `(new_pane, thread)` inserted after pane `target`.
pub open spec fn split_leaves(l: Seq<(u64, u64)>, target: u64, new_pane: u64, thread: u64) -> Seq<(u64, u64)> {
    let i = pane_index(l, target);
    l.take(i + 1) + seq![(new_pane, thread)] + l.skip(i + 1)
}

pub proof fn lemma_split_at_leaves(n: SplitPaneNode, target: u64, new_pane: u64, thread: u64, axis: SplitAxis)
    requires
        has_pane(n.leaves(), target),
    ensures
        n.split_at(target, new_pane, thread, axis).leaves() == split_leaves(n.leaves(), target, new_pane, thread),
    decreases n,
{
    lemma_pane_index(n.leaves(), target);
    match n {
        SplitPaneNode::Leaf { pane_id, thread_id } => {
            let i = choose|i: int| 0 <= i < n.leaves().len() && n.leaves()[i].0 == target;
            assert(n.leaves()[i] == (pane_id, thread_id));
            assert(pane_id == target);
            assert(pane_index(n.leaves(), target) == 0);
            let leaf = SplitPaneNode::Leaf { pane_id: new_pane, thread_id: thread };
            let m = SplitPaneNode::Split { axis, first: Box::new(n), second: Box::new(leaf) };
            assert(n.split_at(target, new_pane, thread, axis) == m);
            assert(leaf.leaves() == seq![(new_pane, thread)]);
            assert(m.leaves() == n.leaves() + leaf.leaves());
            assert(m.leaves() =~= split_leaves(n.leaves(), target, new_pane, thread));
        },
        SplitPaneNode::Split { first, second, .. } => {
            let a = first.leaves();
            let b = second.leaves();
            lemma_thread_of(*first, target);
            lemma_thread_of(*second, target);
            lemma_pane_index(a, target);
            lemma_pane_index(b, target);
            let l = n.leaves();
            if first.thread_of(target) is Some {
                lemma_split_at_leaves(*first, target, new_pane, thread, axis);
                let i = pane_index(a, target);
                assert forall|j: int| 0 <= j < i implies l[j].0 != target by {
                    assert(l[j] == a[j]);
                }
                assert(l[i] == a[i]);
                lemma_pane_index_first(l, target, i);
                assert(n.split_at(target, new_pane, thread, axis).leaves() =~= split_leaves(l, target, new_pane, thread));
            } else {
                lemma_split_at_leaves(*second, target, new_pane, thread, axis);
                let i = pane_index(b, target);
                assert forall|j: int| 0 <= j < a.len() + i implies l[j].0 != target by {
                    if j < a.len() {
                        assert(l[j] == a[j]);
                        if a[j].0 == target {
                            assert(has_pane(a, target));
                        }
                    } else {
                        assert(l[j] == b[j - a.len()]);
                    }
                }
                assert(l[a.len() + i] == b[i]);
                lemma_pane_index_first(l, target, a.len() + i);
                assert(n.split_at(target, new_pane, thread, axis).leaves() =~= split_leaves(l, target, new_pane, thread));
            }
        },
    }
}

pub proof fn lemma_pane_index_first(l: Seq<(u64, u64)>, p: u64, i: int)
    requires
        0 <= i < l.len(),
        l[i].0 == p,
        forall|j: int| 0 <= j < i ==> l[j].0 != p,
    ensures
        pane_index(l, p) == i,
{
    lemma_pane_index(l, p);
    assert(has_pane(l, p));
}

/// The leaves of `l` that do not show `thread`.
pub open spec fn leaves_without(l: Seq<(u64, u64)>, thread: u64) -> Seq<(u64, u64)> {
    l.filter(|x: (u64, u64)| x.1 != thread)
}

pub proof fn lemma_without_leaves(n: SplitPaneNode, thread: u64)
    ensures
        match n.without(thread) {
            Some(m) => m.leaves() == leaves_without(n.leaves(), thread),
            None => leaves_without(n.leaves(), thread).len() == 0,
        },
    decreases n,
{
    broadcast use vstd::seq_lib::group_filter_ensures;
    match n {
        SplitPaneNode::Leaf { thread_id, .. } => {
            reveal_with_fuel(Seq::filter, 2);
            assert(n.leaves().drop_last() =~= seq![]);
        },
        SplitPaneNode::Split { first, second, .. } => {
            lemma_without_leaves(*first, thread);
            lemma_without_leaves(*second, thread);
            Seq::filter_distributes_over_add(first.leaves(), second.leaves(), |x: (u64, u64)| x.1 != thread);
            assert(n.leaves() == first.leaves() + second.leaves());
            let fa = leaves_without(first.leaves(), thread);
            let fb = leaves_without(second.leaves(), thread);
            if fa.len() == 0 {
                assert(fa + fb =~= fb);
            }
            if fb.len() == 0 {
                assert(fa + fb =~= fa);
            }
        },
    }
}

/// The pane tree, the focused pane, and the id the next pane gets.
pub struct SplitPaneState {
    root: SplitPaneNode,
    active_pane_id: u64,
    next_pane_id: u64,
}

/// A divider to draw: its area, the axis of its split, and whether the
/// focused pane is on its first or second side.
#[derive(Clone, Copy, PartialEq, Eq, Structural, Debug)]
pub struct Divider {
    pub area: PaneRect,
    pub axis: SplitAxis,
    pub first_active: bool,
    pub second_active: bool,
}

impl SplitPaneNode {
    /// The dividers of the tree filling `area`, each after those inside its
    /// two sides, with the focus marks for pane `active`.
    pub open spec fn dividers(self, area: PaneRect, active: u64, c: PaneCuts) -> Seq<Divider>
        decreases self,
    {
        match self {
            SplitPaneNode::Leaf { .. } => seq![],
            SplitPaneNode::Split { axis, first, second } => {
                let (a, d, b) = cut_parts(c, area);
                first.dividers(a, active, cut_first(c)) + second.dividers(b, active, cut_second(c)) + seq![
                    Divider {
                        area: d,
                        axis,
                        first_active: first.thread_of(active) is Some,
                        second_active: second.thread_of(active) is Some,
                    },
                ]
            },
        }
    }

    /// Appends the dividers to `out`; returns whether pane `active` is in the tree.
    pub fn collect_dividers(&self, area: PaneRect, active: u64, out: &mut Vec<Divider>) -> (r: (bool, Ghost<PaneCuts>))
        ensures
            self.cuts_fit(area, r.1@),
            r.0 == self.thread_of(active) is Some,
            final(out)@ == old(out)@ + self.dividers(area, active, r.1@),
        decreases self,
    {
        let ghost start = out@;
        match self {
            SplitPaneNode::Leaf { pane_id, .. } => (*pane_id == active, Ghost(PaneCuts::Whole)),
            SplitPaneNode::Split { axis, first, second } => {
                let (a, d, b) = split_regions(area, *axis);
                let (first_active, c1) = first.collect_dividers(a, active, out);
                let (second_active, c2) = second.collect_dividers(b, active, out);
                out.push(Divider { area: d, axis: *axis, first_active, second_active });
                let c = Ghost(PaneCuts::Cut { parts: (a, d, b), first: Box::new(c1@), second: Box::new(c2@) });
                assert(out@ =~= start + self.dividers(area, active, c@));
                (first_active || second_active, c)
            },
        }
    }
}

impl SplitPaneState {
    pub closed spec fn root(self) -> SplitPaneNode {
        self.root
    }

    pub closed spec fn active(self) -> u64 {
        self.active_pane_id
    }

    pub closed spec fn next_id(self) -> u64 {
        self.next_pane_id
    }

    /// The panes in order, as (pane, thread).
    pub open spec fn panes(self) -> Seq<(u64, u64)> {
        self.root().leaves()
    }

    /// Panes are distinct and below the next id, and the focused pane exists.
    pub open spec fn wf(self) -> bool {
        &&& distinct_panes(self.panes())
        &&& has_pane(self.panes(), self.active())
        &&& forall|i: int| 0 <= i < self.panes().len() ==> #[trigger] self.panes()[i].0 < self.next_id()
    }

    /// One pane showing `thread_id`.
    pub fn new(thread_id: u64) -> (s: SplitPaneState)
        ensures
            s.wf(),
            s.panes() == seq![(0u64, thread_id)],
            s.root() == (SplitPaneNode::Leaf { pane_id: 0, thread_id }),
            s.active() == 0,
            s.next_id() == 1,
    {
        let s = SplitPaneState {
            root: SplitPaneNode::Leaf { pane_id: 0, thread_id },
            active_pane_id: 0,
            next_pane_id: 1,
        };
        assert(s.panes()[0] == (0u64, thread_id));
        s
    }

    /// The split view wants all the height it can get.
    pub fn desired_height() -> (h: u16)
        ensures
            h == u16::MAX,
    {
        u16::MAX
    }

    pub fn active_pane_id(&self) -> (p: u64)
        ensures
            p == self.active(),
    {
        self.active_pane_id
    }

    /// The thread of the focused pane.
    pub fn active_thread(&self) -> (t: u64)
        requires
            self.wf(),
        ensures
            self.root().thread_of(self.active()) == Some(t),
            self.panes().contains((self.active(), t)),
    {
        proof {
            lemma_thread_of(self.root, self.active_pane_id);
        }
        let r = self.root.thread_for_pane(self.active_pane_id);
        match r {
            Some(t) => t,
            None => {
                assert(false);
                0
            },
        }
    }

    /// Shows `thread_id` in the focused pane.
    pub fn set_active_thread(&mut self, thread_id: u64)
        requires
            old(self).wf(),
        ensures
            final(self).wf(),
            final(self).root() == old(self).root().with_thread(old(self).active(), thread_id),
            final(self).active() == old(self).active(),
            final(self).next_id() == old(self).next_id(),
            pane_ids(final(self).panes()) == pane_ids(old(self).panes()),
    {
        let root = self.root.set_thread_for_pane(self.active_pane_id, thread_id);
        proof {
            lemma_with_thread_panes(self.root, self.active_pane_id, thread_id);
            lemma_panes_same(self.root.leaves(), root.leaves());
        }
        self.root = root;
    }

    /// Splits the focused pane along `axis`; the new pane, which shows
    /// `thread_id`, comes after it and takes the focus. Returns its id.
    pub fn split_active(&mut self, thread_id: u64, axis: SplitAxis) -> (p: u64)
        requires
            old(self).wf(),
            old(self).next_id() < u64::MAX,
        ensures
            final(self).wf(),
            p == old(self).next_id(),
            final(self).panes() == split_leaves(old(self).panes(), old(self).active(), p, thread_id),
            final(self).root() == old(self).root().split_at(old(self).active(), p, thread_id, axis),
            final(self).active() == p,
            final(self).next_id() == p + 1,
    {
        let new_pane_id = self.next_pane_id;
        let root = self.root.split_pane(self.active_pane_id, new_pane_id, thread_id, axis);
        proof {
            let l = self.root.leaves();
            lemma_split_at_leaves(self.root, self.active_pane_id, new_pane_id, thread_id, axis);
            lemma_pane_index(l, self.active_pane_id);
            let i = pane_index(l, self.active_pane_id);
            let m = root.leaves();
            assert(m.len() == l.len() + 1);
            assert forall|j: int| 0 <= j < m.len() implies (#[trigger] m[j]).0 < new_pane_id + 1 && (j != i + 1 ==> m[j].0 < new_pane_id) by {
                if j <= i {
                    assert(m[j] == l[j]);
                } else if j > i + 1 {
                    assert(m[j] == l[j - 1]);
                }
            }
            assert forall|a: int, b: int| 0 <= a < b < m.len() implies m[a].0 != m[b].0 by {
                if b == i + 1 {
                } else if a == i + 1 {
                } else {
                    let a0 = if a <= i { a } else { a - 1 };
                    let b0 = if b <= i { b } else { b - 1 };
                    assert(m[a] == l[a0]);
                    assert(m[b] == l[b0]);
                }
            }
            assert(m[i + 1].0 == new_pane_id);
        }
        self.root = root;
        self.active_pane_id = new_pane_id;
        self.next_pane_id = new_pane_id + 1;
        new_pane_id
    }

    /// Focuses pane `pane_id` if it exists; returns its thread.
    pub fn focus_pane(&mut self, pane_id: u64) -> (r: Option<u64>)
        requires
            old(self).wf(),
        ensures
            final(self).wf(),
            r == old(self).root().thread_of(pane_id),
            final(self).root() == old(self).root(),
            final(self).next_id() == old(self).next_id(),
            final(self).active() == if r is Some {
                pane_id
            } else {
                old(self).active()
            },
    {
        proof {
            lemma_thread_of(self.root, pane_id);
        }
        let r = self.root.thread_for_pane(pane_id);
        if r.is_some() {
            self.active_pane_id = pane_id;
        }
        r
    }

    /// The panes in order, as (pane, thread).
    pub fn leaves(&self) -> (v: Vec<(u64, u64)>)
        ensures
            v@ == self.panes(),
    {
        let mut v = Vec::new();
        self.root.collect_leaves(&mut v);
        assert(v@ =~= self.panes());
        v
    }

    /// Number of panes.
    pub fn leaf_count(&self) -> (n: usize)
        ensures
            n == self.panes().len(),
    {
        self.leaves().len()
    }

    /// Whether a pane shows `thread_id`.
    pub fn contains_thread(&self, thread_id: u64) -> (b: bool)
        ensures
            b == self.root().pane_of(thread_id) is Some,
    {
        self.root.contains_thread(thread_id)
    }

    /// The pane that shows `thread_id`.
    pub fn pane_for_thread(&self, thread_id: u64) -> (r: Option<u64>)
        ensures
            r == self.root().pane_of(thread_id),
    {
        self.root.pane_for_thread(thread_id)
    }

    /// The panes other than the focused one, in order.
    pub fn inactive_leaves(&self) -> (v: Vec<(u64, u64)>)
        ensures
            v@ == self.panes().filter(|x: (u64, u64)| x.0 != self.active()),
    {
        let all = self.leaves();
        let ghost pred = |x: (u64, u64)| x.0 != self.active();
        let mut v: Vec<(u64, u64)> = Vec::new();
        let mut i: usize = 0;
        assert(all@.take(0).filter(pred) =~= seq![]);
        while i < all.len()
            invariant
                i <= all@.len(),
                pred == (|x: (u64, u64)| x.0 != self.active()),
                v@ == all@.take(i as int).filter(pred),
            decreases all.len() - i,
        {
            let x = all[i];
            if x.0 != self.active_pane_id {
                v.push(x);
            }
            proof {
                let t = all@.take(i + 1);
                assert(t.drop_last() =~= all@.take(i as int));
                reveal_with_fuel(Seq::filter, 1);
            }
            i = i + 1;
        }
        assert(all@.take(all@.len() as int) =~= all@);
        v
    }

    /// The area of the focused pane when the panes fill `area`, for the cuts
    /// the layout made.
    pub fn active_pane_area(&self, area: PaneRect) -> (r: Option<PaneRect>)
        ensures
            exists|c: PaneCuts|
                self.root().cuts_fit_toward(self.active(), area, c) && r == #[trigger] self.root().area_of(self.active(), area, c),
    {
        let (r, c) = self.root.pane_area(self.active_pane_id, area);
        assert(r == self.root().area_of(self.active(), area, c@));
        r
    }

    /// Whether splitting the focused pane along `axis` leaves both halves at
    /// least `MIN_PANE_WIDTH` wide and `MIN_PANE_HEIGHT` high, for the cuts
    /// the layout made: `b` is what `split_fits` says of the focused pane's
    /// area and of the parts its split would have.
    pub fn can_split_active(&self, area: PaneRect, axis: SplitAxis) -> (b: bool)
        ensures
            exists|c: PaneCuts, p: (PaneRect, PaneRect, PaneRect)|
                self.root().cuts_fit_toward(self.active(), area, c) && (self.root().area_of(self.active(), area, c) matches Some(
                    a,
                ) ==> split_parts(a, axis, p)) && b == #[trigger] split_fits(self.root().area_of(self.active(), area, c), p),
    {
        let (found, c) = self.root.pane_area(self.active_pane_id, area);
        match found {
            None => {
                assert(false == split_fits(self.root().area_of(self.active(), area, c@), (area, area, area)));
                false
            },
            Some(r) => {
                let (f, d, s) = split_regions(r, axis);
                let b = f.width >= MIN_PANE_WIDTH && s.width >= MIN_PANE_WIDTH && f.height >= MIN_PANE_HEIGHT
                    && s.height >= MIN_PANE_HEIGHT;
                assert(b == split_fits(self.root().area_of(self.active(), area, c@), (f, d, s)));
                b
            },
        }
    }

    /// Each pane with its thread and area when the panes fill `area`, for
    /// the cuts the layout made.
    pub fn leaf_areas(&self, area: PaneRect) -> (v: Vec<(u64, u64, PaneRect)>)
        ensures
            exists|c: PaneCuts| self.root().cuts_fit(area, c) && v@ == #[trigger] self.root().leaf_areas(area, c),
    {
        let mut v = Vec::new();
        let c = self.root.collect_leaf_areas(area, &mut v);
        assert(v@ =~= self.root().leaf_areas(area, c@));
        v
    }

    /// The dividers to draw when the panes fill `area`, for the cuts the
    /// layout made.
    pub fn dividers(&self, area: PaneRect) -> (v: Vec<Divider>)
        ensures
            exists|c: PaneCuts| self.root().cuts_fit(area, c) && v@ == #[trigger] self.root().dividers(area, self.active(), c),
    {
        let mut v = Vec::new();
        let (_, c) = self.root.collect_dividers(area, self.active_pane_id, &mut v);
        assert(v@ =~= self.root().dividers(area, self.active(), c@));
        v
    }
}

/// Whether a pane of area `found` may be split into the parts `p`: both
/// sides at least `MIN_PANE_WIDTH` wide and `MIN_PANE_HEIGHT` high; never
/// when there is no such pane.
pub open spec fn split_fits(found: Option<PaneRect>, p: (PaneRect, PaneRect, PaneRect)) -> bool {
    match found {
        None => false,
        Some(_) => p.0.width >= MIN_PANE_WIDTH && p.2.width >= MIN_PANE_WIDTH && p.0.height >= MIN_PANE_HEIGHT
            && p.2.height >= MIN_PANE_HEIGHT,
    }
}

pub proof fn lemma_panes_same(a: Seq<(u64, u64)>, b: Seq<(u64, u64)>)
    requires
        pane_ids(a) == pane_ids(b),
    ensures
        a.len() == b.len(),
        forall|i: int| 0 <= i < a.len() ==> a[i].0 == b[i].0,
        distinct_panes(a) == distinct_panes(b),
        forall|p: u64| has_pane(a, p) == has_pane(b, p),
{
    assert(pane_ids(a).len() == a.len());
    assert forall|i: int| 0 <= i < a.len() implies a[i].0 == b[i].0 by {
        assert(pane_ids(a)[i] == a[i].0);
        assert(pane_ids(b)[i] == b[i].0);
    }
    assert forall|p: u64| has_pane(a, p) == has_pane(b, p) by {
        if has_pane(a, p) {
            let i = choose|i: int| 0 <= i < a.len() && a[i].0 == p;
            assert(b[i].0 == p);
        }
        if has_pane(b, p) {
            let i = choose|i: int| 0 <= i < b.len() && b[i].0 == p;
            assert(a[i].0 == p);
        }
    }
}

/// Index of the pane one step forward (or back) from index `i`, wrapping.
pub open spec fn step_index(i: int, len: int, forward: bool) -> int {
    if forward {
        if i + 1 >= len {
            0
        } else {
            i + 1
        }
    } else {
        if i <= 0 {
            len - 1
        } else {
            i - 1
        }
    }
}

/// The pane one step from the focused one in pane order, if there are two
/// panes or more.
pub open spec fn focus_step(l: Seq<(u64, u64)>, active: u64, forward: bool) -> Option<(u64, u64)> {
    if l.len() <= 1 || !has_pane(l, active) {
        None
    } else {
        Some(l[step_index(pane_index(l, active), l.len() as int, forward)])
    }
}

pub proof fn lemma_filter_keeps(l: Seq<(u64, u64)>, thread: u64)
    ensures
        forall|i: int| 0 <= i < leaves_without(l, thread).len() ==> l.contains(#[trigger] leaves_without(l, thread)[i]),
        forall|i: int| 0 <= i < leaves_without(l, thread).len() ==> (#[trigger] leaves_without(l, thread)[i]).1 != thread,
        distinct_panes(l) ==> distinct_panes(leaves_without(l, thread)),
    decreases l.len(),
{
    broadcast use vstd::seq_lib::group_filter_ensures;
    reveal_with_fuel(Seq::filter, 1);
    if l.len() > 0 {
        let d = l.drop_last();
        lemma_filter_keeps(d, thread);
        let fd = leaves_without(d, thread);
        let f = leaves_without(l, thread);
        assert forall|i: int| 0 <= i < f.len() implies l.contains(#[trigger] f[i]) by {
            if i < fd.len() {
                assert(f[i] == fd[i]);
                let j = choose|j: int| 0 <= j < d.len() && d[j] == fd[i];
                assert(l[j] == d[j]);
            } else {
                assert(f[i] == l.last());
                assert(l[l.len() - 1] == l.last());
            }
        }
        if distinct_panes(l) {
            assert(distinct_panes(d));
            assert forall|a: int, b: int| 0 <= a < b < f.len() implies f[a].0 != f[b].0 by {
                if b < fd.len() {
                    assert(f[a] == fd[a] && f[b] == fd[b]);
                } else {
                    assert(f[b] == l.last());
                    assert(f[a] == fd[a]);
                    let j = choose|j: int| 0 <= j < d.len() && d[j] == fd[a];
                    assert(l[j] == d[j]);
                    assert(l[l.len() - 1] == l.last());
                }
            }
        }
    }
}

impl SplitPaneState {
    fn focus_by_offset(&mut self, forward: bool) -> (r: Option<u64>)
        requires
            old(self).wf(),
        ensures
            final(self).wf(),
            final(self).root() == old(self).root(),
            final(self).next_id() == old(self).next_id(),
            match focus_step(old(self).panes(), old(self).active(), forward) {
                Some((p, t)) => r == Some(t) && final(self).active() == p,
                None => r is None && final(self).active() == old(self).active(),
            },
    {
        let leaves = self.leaves();
        let len = leaves.len();
        if len <= 1 {
            return None;
        }
        let mut i: usize = 0;
        while i < len && leaves[i].0 != self.active_pane_id
            invariant
                i <= len == leaves@.len(),
                leaves@ == self.panes(),
                forall|j: int| 0 <= j < i ==> leaves@[j].0 != self.active(),
            decreases len - i,
        {
            i = i + 1;
        }
        proof {
            lemma_pane_index(leaves@, self.active_pane_id);
        }
        if i == len {
            assert(false);
            return None;
        }
        proof {
            lemma_pane_index_first(leaves@, self.active_pane_id, i as int);
        }
        let next = if forward {
            if i + 1 >= len {
                0
            } else {
                i + 1
            }
        } else {
            if i == 0 {
                len - 1
            } else {
                i - 1
            }
        };
        let (pane_id, thread_id) = leaves[next];
        assert(leaves@[next as int] == self.panes()[next as int]);
        self.active_pane_id = pane_id;
        assert(has_pane(self.panes(), pane_id));
        Some(thread_id)
    }

    /// Focuses the next pane in order, wrapping; returns its thread.
    pub fn focus_next(&mut self) -> (r: Option<u64>)
        requires
            old(self).wf(),
        ensures
            final(self).wf(),
            final(self).root() == old(self).root(),
            final(self).next_id() == old(self).next_id(),
            match focus_step(old(self).panes(), old(self).active(), true) {
                Some((p, t)) => r == Some(t) && final(self).active() == p,
                None => r is None && final(self).active() == old(self).active(),
            },
    {
        self.focus_by_offset(true)
    }

    /// Focuses the previous pane in order, wrapping; returns its thread.
    pub fn focus_previous(&mut self) -> (r: Option<u64>)
        requires
            old(self).wf(),
        ensures
            final(self).wf(),
            final(self).root() == old(self).root(),
            final(self).next_id() == old(self).next_id(),
            match focus_step(old(self).panes(), old(self).active(), false) {
                Some((p, t)) => r == Some(t) && final(self).active() == p,
                None => r is None && final(self).active() == old(self).active(),
            },
    {
        self.focus_by_offset(false)
    }

    /// The panes without those showing `thread_id`; the focus stays where it
    /// was, or moves to the first pane when its pane went away. `None` when
    /// no pane is left.
    pub fn without_thread(self, thread_id: u64) -> (r: Option<SplitPaneState>)
        requires
            self.wf(),
        ensures
            self.root().pane_of(thread_id) is None ==> r == Some(self),
            self.root().pane_of(thread_id) is Some ==> match self.root().without(thread_id) {
                None => r is None,
                Some(m) => r matches Some(s) && s.root() == m && s.next_id() == self.next_id() && s.active() == if m.thread_of(
                    self.active(),
                ) is Some {
                    self.active()
                } else {
                    m.leaves()[0].0
                },
            },
            r matches Some(s) ==> s.wf() && s.panes() == leaves_without(self.panes(), thread_id),
    {
        proof {
            lemma_without_leaves(self.root, thread_id);
            lemma_filter_keeps(self.root.leaves(), thread_id);
        }
        if !self.root.contains_thread(thread_id) {
            proof {
                let l = self.root.leaves();
                assert forall|i: int| 0 <= i < l.len() implies (#[trigger] l[i]).1 != thread_id by {
                    if l[i].1 == thread_id {
                        lemma_pane_of_leaf(self.root, i, thread_id);
                    }
                }
                assert(leaves_without(l, thread_id) =~= l) by {
                    lemma_filter_all(l, thread_id);
                }
            }
            return Some(self);
        }
        let root = match self.root.without_thread(thread_id) {
            Some(r) => r,
            None => return None,
        };
        proof {
            lemma_thread_of(root, self.active_pane_id);
            lemma_leaves_nonempty(root);
        }
        let active = if root.contains_pane(self.active_pane_id) {
            self.active_pane_id
        } else {
            root.first_pane_id()
        };
        let s = SplitPaneState { root, active_pane_id: active, next_pane_id: self.next_pane_id };
        proof {
            let l = self.root.leaves();
            let m = s.root.leaves();
            assert forall|i: int| 0 <= i < m.len() implies #[trigger] m[i].0 < s.next_pane_id by {
                assert(l.contains(m[i]));
            }
            assert(has_pane(m, active));
        }
        Some(s)
    }
}

pub proof fn lemma_pane_of_leaf(n: SplitPaneNode, i: int, thread: u64)
    requires
        0 <= i < n.leaves().len(),
        n.leaves()[i].1 == thread,
    ensures
        n.pane_of(thread) is Some,
    decreases n,
{
    if let SplitPaneNode::Split { first, second, .. } = n {
        let a = first.leaves();
        if i < a.len() {
            assert(n.leaves()[i] == a[i]);
            lemma_pane_of_leaf(*first, i, thread);
        } else {
            assert(n.leaves()[i] == second.leaves()[i - a.len()]);
            lemma_pane_of_leaf(*second, i - a.len(), thread);
        }
    }
}

pub proof fn lemma_filter_all(l: Seq<(u64, u64)>, thread: u64)
    requires
        forall|i: int| 0 <= i < l.len() ==> (#[trigger] l[i]).1 != thread,
    ensures
        leaves_without(l, thread) == l,
    decreases l.len(),
{
    reveal_with_fuel(Seq::filter, 1);
    if l.len() > 0 {
        let d = l.drop_last();
        assert forall|i: int| 0 <= i < d.len() implies (#[trigger] d[i]).1 != thread by {
            assert(d[i] == l[i]);
        }
        lemma_filter_all(d, thread);
        assert(l[l.len() - 1] == l.last());
        assert(d.push(l.last()) =~= l);
    }
}

/// The cells of a divider: every cell of its area along the split, the
/// middle one marking which side holds the focus.
pub open spec fn divider_cells(d: Divider) -> Seq<(u16, u16, char)> {
    let a = d.area;
    if a.width == 0 || a.height == 0 {
        seq![]
    } else {
        match d.axis {
            SplitAxis::Horizontal => {
                let marker = if d.first_active {
                    '^'
                } else if d.second_active {
                    'v'
                } else {
                    '─'
                };
                let mid = vstd::math::min(a.x + a.width / 2, 0xffff);
                let end = vstd::math::min(a.x + a.width, 0xffff);
                Seq::new(
                    (end - a.x) as nat,
                    |k: int| ((a.x + k) as u16, a.y, if a.x + k == mid { marker } else { '─' }),
                )
            },
            SplitAxis::Vertical => {
                let marker = if d.first_active {
                    '<'
                } else if d.second_active {
                    '>'
                } else {
                    '│'
                };
                let mid = vstd::math::min(a.y + a.height / 2, 0xffff);
                let end = vstd::math::min(a.y + a.height, 0xffff);
                Seq::new(
                    (end - a.y) as nat,
                    |k: int| (a.x, (a.y + k) as u16, if a.y + k == mid { marker } else { '│' }),
                )
            },
        }
    }
}

/// Whether a divider is drawn highlighted: it borders the focused pane.
pub open spec fn divider_highlighted(d: Divider) -> bool {
    d.first_active || d.second_active
}

/// The cells to draw for a divider, as (column, row, symbol).
pub fn divider_symbols(d: &Divider) -> (v: Vec<(u16, u16, char)>)
    ensures
        v@ == divider_cells(*d),
{
    let a = d.area;
    let mut v: Vec<(u16, u16, char)> = Vec::new();
    if a.width == 0 || a.height == 0 {
        return v;
    }
    let horizontal = match d.axis {
        SplitAxis::Horizontal => true,
        SplitAxis::Vertical => false,
    };
    let marker = if horizontal {
        if d.first_active {
            '^'
        } else if d.second_active {
            'v'
        } else {
            '─'
        }
    } else {
        if d.first_active {
            '<'
        } else if d.second_active {
            '>'
        } else {
            '│'
        }
    };
    let line = if horizontal {
        '─'
    } else {
        '│'
    };
    let start = if horizontal {
        a.x
    } else {
        a.y
    };
    let len = if horizontal {
        a.width
    } else {
        a.height
    };
    let mid = start.saturating_add(len / 2);
    let end = start.saturating_add(len);
    let mut c = start;
    while c < end
        invariant
            start <= c <= end,
            end == vstd::math::min(start + len, 0xffff),
            v@.len() == c - start,
            forall|k: int|
                0 <= k < v@.len() ==> #[trigger] v@[k] == if horizontal {
                    ((start + k) as u16, a.y, if start + k == mid { marker } else { line })
                } else {
                    (a.x, (start + k) as u16, if start + k == mid { marker } else { line })
                },
        decreases end - c,
    {
        let sym = if c == mid {
            marker
        } else {
            line
        };
        if horizontal {
            v.push((c, a.y, sym));
        } else {
            v.push((a.x, c, sym));
        }
        c = c + 1;
    }
    assert(v@ =~= divider_cells(*d));
    v
}

/// After a split, stepping back from the new pane focuses the pane that was
/// split, with its thread.
pub proof fn lemma_split_then_focus_previous(l: Seq<(u64, u64)>, active: u64, new_pane: u64, thread: u64)
    requires
        distinct_panes(l),
        has_pane(l, active),
        !has_pane(l, new_pane),
    ensures
        focus_step(split_leaves(l, active, new_pane, thread), new_pane, false) == Some(
            l[pane_index(l, active)],
        ),
{
    lemma_pane_index(l, active);
    let i = pane_index(l, active);
    let m = split_leaves(l, active, new_pane, thread);
    assert(m[i + 1] == (new_pane, thread));
    assert forall|j: int| 0 <= j < i + 1 implies m[j].0 != new_pane by {
        assert(m[j] == l[j]);
        if l[j].0 == new_pane {
            assert(has_pane(l, new_pane));
        }
    }
    lemma_pane_index_first(m, new_pane, i + 1);
    assert(has_pane(m, new_pane));
    assert(m[i] == l[i]);
}

/// Stepping forward and then back returns to the pane where focus started.
pub proof fn lemma_focus_next_then_previous(l: Seq<(u64, u64)>, active: u64)
    requires
        distinct_panes(l),
        has_pane(l, active),
        l.len() >= 2,
    ensures
        focus_step(l, active, true) matches Some((p, _)) && focus_step(l, p, false) == Some(
            l[pane_index(l, active)],
        ),
{
    lemma_pane_index(l, active);
    let i = pane_index(l, active);
    let j = step_index(i, l.len() as int, true);
    lemma_pane_index_unique(l, j);
    assert(has_pane(l, l[j].0));
}

/// Stepping back and then forward returns to the pane where focus started.
pub proof fn lemma_focus_previous_then_next(l: Seq<(u64, u64)>, active: u64)
    requires
        distinct_panes(l),
        has_pane(l, active),
        l.len() >= 2,
    ensures
        focus_step(l, active, false) matches Some((p, _)) && focus_step(l, p, true) == Some(
            l[pane_index(l, active)],
        ),
{
    lemma_pane_index(l, active);
    let i = pane_index(l, active);
    let j = step_index(i, l.len() as int, false);
    lemma_pane_index_unique(l, j);
    assert(has_pane(l, l[j].0));
}

} // verus!
