use vstd::prelude::*;

verus! {

/// Generic scroll/selection state for a vertical list menu.
///
/// Holds an optional selection (none when the list is empty), supports
/// wrap-around navigation on up/down and keeps a scroll window (`scroll_top`)
/// so that the selected row stays visible.
#[derive(Debug, Clone, Copy)]
pub struct ScrollState {
    pub selected_idx: Option<usize>,
    pub scroll_top: usize,
}

/// The row that `clamp_selection` keeps for a list of `len` rows.
pub open spec fn clamped_selection(selected: Option<usize>, len: nat) -> Option<usize> {
    if len == 0 {
        None
    } else {
        match selected {
            Some(i) => Some(if i < len { i } else { (len - 1) as usize }),
            None => Some(0usize),
        }
    }
}

/// The row selected after moving up by one with wrap-around.
pub open spec fn wrapped_up(selected: Option<usize>, len: nat) -> usize {
    match selected {
        Some(i) => if i > 0 { (i - 1) as usize } else { (len - 1) as usize },
        None => 0usize,
    }
}

/// The row selected after moving down by one with wrap-around.
pub open spec fn wrapped_down(selected: Option<usize>, len: nat) -> usize {
    match selected {
        Some(i) => if i + 1 < len { (i + 1) as usize } else { 0usize },
        None => 0usize,
    }
}

pub open spec fn min_int(a: int, b: int) -> int {
    if a <= b { a } else { b }
}

pub open spec fn max_int(a: int, b: int) -> int {
    if a >= b { a } else { b }
}

/// The row selected after moving up by a page (at least one row), clamped at the top.
pub open spec fn paged_up(selected: Option<usize>, len: nat, page: nat) -> usize {
    let cur: int = match selected { Some(i) => i as int, None => 0 };
    let step: int = max_int(page as int, 1);
    min_int(max_int(cur - step, 0), len - 1) as usize
}

/// The row selected after moving down by a page (at least one row), clamped at the bottom.
pub open spec fn paged_down(selected: Option<usize>, len: nat, page: nat) -> usize {
    let cur: int = match selected { Some(i) => i as int, None => 0 };
    let step: int = max_int(page as int, 1);
    min_int(cur + step, len - 1) as usize
}

/// The scroll offset `ensure_visible` leaves for the given selection and window.
pub open spec fn visible_top(selected: Option<usize>, top: usize, len: nat, rows: nat) -> usize {
    if len == 0 || rows == 0 {
        0
    } else {
        match selected {
            Some(sel) => if sel < top {
                sel
            } else if sel > top + rows - 1 {
                (sel + 1 - rows) as usize
            } else {
                top
            },
            None => 0,
        }
    }
}

impl ScrollState {
    pub fn new() -> (s: Self)
        ensures
            s.selected_idx.is_none(),
            s.scroll_top == 0,
    {
        ScrollState { selected_idx: None, scroll_top: 0 }
    }

    /// Reset selection and scroll.
    pub fn reset(&mut self)
        ensures
            final(self).selected_idx.is_none(),
            final(self).scroll_top == 0,
    {
        self.selected_idx = None;
        self.scroll_top = 0;
    }

    /// Clamp selection to be within the [0, len-1] range, or None when empty.
    pub fn clamp_selection(&mut self, len: usize)
        ensures
            final(self).selected_idx == clamped_selection(old(self).selected_idx, len as nat),
            final(self).scroll_top == (if len == 0 { 0 } else { old(self).scroll_top }),
    {
        self.selected_idx = if len == 0 {
            None
        } else {
            let cur = match self.selected_idx {
                Some(i) => i,
                None => 0,
            };
            Some(if cur < len { cur } else { len - 1 })
        };
        if len == 0 {
            self.scroll_top = 0;
        }
    }

    /// Move selection up by one, wrapping to the bottom when necessary.
    pub fn move_up_wrap(&mut self, len: usize)
        ensures
            len == 0 ==> final(self).selected_idx.is_none() && final(self).scroll_top == 0,
            len > 0 ==> final(self).selected_idx == Some(wrapped_up(old(self).selected_idx, len as nat))
                && final(self).scroll_top == old(self).scroll_top,
    {
        if len == 0 {
            self.selected_idx = None;
            self.scroll_top = 0;
            return;
        }
        self.selected_idx = Some(match self.selected_idx {
            Some(idx) => if idx > 0 { idx - 1 } else { len - 1 },
            None => 0,
        });
    }

    /// Move selection down by one, wrapping to the top when necessary.
    pub fn move_down_wrap(&mut self, len: usize)
        ensures
            len == 0 ==> final(self).selected_idx.is_none() && final(self).scroll_top == 0,
            len > 0 ==> final(self).selected_idx == Some(wrapped_down(old(self).selected_idx, len as nat))
                && final(self).scroll_top == old(self).scroll_top,
    {
        if len == 0 {
            self.selected_idx = None;
            self.scroll_top = 0;
            return;
        }
        self.selected_idx = Some(match self.selected_idx {
            Some(idx) => if idx < len - 1 { idx + 1 } else { 0 },
            None => 0,
        });
    }

    /// Move selection up by one page, clamping at the first item.
    pub fn move_up_page(&mut self, len: usize, page_size: usize)
        ensures
            len == 0 ==> final(self).selected_idx.is_none() && final(self).scroll_top == 0,
            len > 0 ==> final(self).selected_idx == Some(paged_up(old(self).selected_idx, len as nat, page_size as nat))
                && final(self).scroll_top == old(self).scroll_top,
    {
        if len == 0 {
            self.selected_idx = None;
            self.scroll_top = 0;
            return;
        }
        let page = if page_size > 1 { page_size } else { 1 };
        let cur = match self.selected_idx {
            Some(i) => i,
            None => 0,
        };
        let up = if cur >= page { cur - page } else { 0 };
        self.selected_idx = Some(if up < len - 1 { up } else { len - 1 });
    }

    /// Move selection down by one page, clamping at the last item.
    pub fn move_down_page(&mut self, len: usize, page_size: usize)
        ensures
            len == 0 ==> final(self).selected_idx.is_none() && final(self).scroll_top == 0,
            len > 0 ==> final(self).selected_idx == Some(paged_down(old(self).selected_idx, len as nat, page_size as nat))
                && final(self).scroll_top == old(self).scroll_top,
    {
        if len == 0 {
            self.selected_idx = None;
            self.scroll_top = 0;
            return;
        }
        let page = if page_size > 1 { page_size } else { 1 };
        let cur = match self.selected_idx {
            Some(i) => i,
            None => 0,
        };
        let last = len - 1;
        let down = if cur > last || page > last - cur { last } else { cur + page };
        self.selected_idx = Some(down);
    }

    /// Adjust `scroll_top` so that the current `selected_idx` is visible within
    /// the window of `visible_rows`.
    pub fn ensure_visible(&mut self, len: usize, visible_rows: usize)
        requires
            len > 0 && visible_rows > 0 ==> (old(self).selected_idx matches Some(sel) ==> sel >= old(self).scroll_top
                ==> old(self).scroll_top + visible_rows <= usize::MAX),
        ensures
            final(self).selected_idx == old(self).selected_idx,
            final(self).scroll_top == visible_top(old(self).selected_idx, old(self).scroll_top, len as nat, visible_rows as nat),
    {
        if len == 0 || visible_rows == 0 {
            self.scroll_top = 0;
            return;
        }
        match self.selected_idx {
            Some(sel) => {
                if sel < self.scroll_top {
                    self.scroll_top = sel;
                } else {
                    let bottom = self.scroll_top + visible_rows - 1;
                    if sel > bottom {
                        self.scroll_top = sel - visible_rows + 1;
                    }
                }
            },
            None => {
                self.scroll_top = 0;
            },
        }
    }
}

/// After `ensure_visible` on a non-empty list and window, a selected row lies
/// inside the window `[scroll_top, scroll_top + visible_rows)`.
pub proof fn lemma_ensure_visible_shows_selection(selected: Option<usize>, top: usize, len: nat, rows: nat)
    requires
        len > 0,
        rows > 0,
        selected is Some,
    ensures
        visible_top(selected, top, len, rows) <= selected->0 < visible_top(selected, top, len, rows) + rows,
{
}

/// Moving down with wrap-around and then up with wrap-around returns to the
/// same row, for any row inside a non-empty list.
pub proof fn lemma_wrap_down_then_up(i: usize, len: nat)
    requires
        i < len,
        len <= usize::MAX,
    ensures
        wrapped_up(Some(wrapped_down(Some(i), len)), len) == i,
{
}

/// A clamped selection of a non-empty list always names a row of the list.
pub proof fn lemma_clamped_selection_in_range(selected: Option<usize>, len: nat)
    requires
        len > 0,
        len <= usize::MAX,
    ensures
        clamped_selection(selected, len) matches Some(i) && i < len,
{
}

} // verus!
