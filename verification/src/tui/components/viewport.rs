//! A cursor in a list, and the part of the list that is on screen.

use vstd::prelude::*;

verus! {

/// The selected item and the window of items that is visible.
#[derive(Debug, Clone, Copy, PartialEq, Eq, Structural)]
pub struct Viewport {
    pub selected: usize,
    pub scroll_y: usize,
    pub visible_height: usize,
    pub item_count: usize,
}

/// The smaller of two numbers.
pub open spec fn min(a: int, b: int) -> int {
    if a < b {
        a
    } else {
        b
    }
}

/// A difference, but not below zero.
pub open spec fn minus(a: int, b: int) -> int {
    if a > b {
        a - b
    } else {
        0
    }
}

impl Default for Viewport {
    fn default() -> (r: Self)
        ensures
            r == (Viewport { selected: 0, scroll_y: 0, visible_height: 0, item_count: 0 }),
    {
        Viewport { selected: 0, scroll_y: 0, visible_height: 0, item_count: 0 }
    }
}

impl Viewport {
    /// The selected item exists and lies in the visible window, and the window does
    /// not reach past the end of the list; it begins at the selected item where it has
    /// no height.
    pub open spec fn wf(self) -> bool {
        &&& self.item_count == 0 ==> self.selected == 0 && self.scroll_y == 0
        &&& self.item_count > 0 ==> self.selected < self.item_count
        &&& self.visible_height == 0 ==> self.scroll_y == self.selected
        &&& self.item_count > 0 && self.visible_height > 0 ==> {
            &&& self.scroll_y <= self.selected < self.scroll_y + self.visible_height
            &&& self.scroll_y <= minus(self.item_count as int, self.visible_height as int)
        }
    }

    /// The item that is selected once the selection is brought into the list.
    pub open spec fn fitted_selection(self) -> int {
        min(self.selected as int, minus(self.item_count as int, 1))
    }

    /// Where the window begins once it is brought round the selection: as near
    /// as possible to where it began, but no further down than needed to show
    /// the end of the list.
    pub open spec fn fitted_scroll(self) -> int {
        let sel = self.fitted_selection();
        let h = self.visible_height as int;
        let s = min(self.scroll_y as int, minus(self.item_count as int, h));
        if self.item_count == 0 {
            0
        } else if h == 0 || sel < s {
            sel
        } else if sel >= s + h {
            sel + 1 - h
        } else {
            s
        }
    }

    /// The viewport with selection and window brought into place.
    pub open spec fn clamped(self) -> Viewport {
        Viewport {
            selected: self.fitted_selection() as usize,
            scroll_y: self.fitted_scroll() as usize,
            ..self
        }
    }

    /// A viewport on an empty list.
    pub fn new() -> (r: Self)
        ensures
            r.wf(),
            r == (Viewport { selected: 0, scroll_y: 0, visible_height: 0, item_count: 0 }),
    {
        Viewport { selected: 0, scroll_y: 0, visible_height: 0, item_count: 0 }
    }

    /// Takes over the length of the list and the height of the screen.
    pub fn set_dims(&mut self, item_count: usize, visible_height: usize)
        ensures
            final(self).wf(),
            *final(self) == (Viewport { item_count, visible_height, ..*old(self) }).clamped(),
    {
        self.item_count = item_count;
        self.visible_height = visible_height;
        self.clamp();
    }

    /// Brings selection and window into place.
    pub fn clamp(&mut self)
        ensures
            final(self).wf(),
            *final(self) == old(self).clamped(),
    {
        if self.item_count == 0 {
            self.selected = 0;
            self.scroll_y = 0;
            return ;
        }
        if self.selected >= self.item_count {
            self.selected = self.item_count - 1;
        }
        if self.visible_height == 0 {
            self.scroll_y = self.selected;
            return ;
        }
        let max_scroll: usize = if self.item_count > self.visible_height {
            self.item_count - self.visible_height
        } else {
            0
        };
        if self.scroll_y > max_scroll {
            self.scroll_y = max_scroll;
        }
        if self.selected < self.scroll_y {
            self.scroll_y = self.selected;
        } else if self.selected >= self.scroll_y + self.visible_height {
            self.scroll_y = self.selected + 1 - self.visible_height;
        }
    }

    /// Selects the item above.
    pub fn move_up(&mut self)
        requires
            old(self).wf(),
        ensures
            final(self).wf(),
            *final(self) == old(self).moved_up(),
    {
        if self.selected > 0 {
            self.selected -= 1;
            self.clamp();
        }
    }

    /// The viewport one item up.
    pub open spec fn moved_up(self) -> Viewport {
        if self.selected > 0 {
            (Viewport { selected: (self.selected - 1) as usize, ..self }).clamped()
        } else {
            self
        }
    }

    /// Selects the item below.
    pub fn move_down(&mut self)
        requires
            old(self).wf(),
        ensures
            final(self).wf(),
            *final(self) == old(self).moved_down(),
    {
        if self.selected < self.item_count && self.selected + 1 < self.item_count {
            self.selected += 1;
            self.clamp();
        }
    }

    /// The viewport one item down.
    pub open spec fn moved_down(self) -> Viewport {
        if self.selected + 1 < self.item_count {
            (Viewport { selected: (self.selected + 1) as usize, ..self }).clamped()
        } else {
            self
        }
    }

    /// The length of a page: the height of the window, and at least one.
    pub open spec fn page(self) -> int {
        if self.visible_height > 0 {
            self.visible_height as int
        } else {
            1
        }
    }

    /// Moves selection and window up by a page.
    pub fn page_up(&mut self)
        requires
            old(self).wf(),
        ensures
            final(self).wf(),
            *final(self) == old(self).paged_up(),
    {
        let step: usize = if self.visible_height > 0 {
            self.visible_height
        } else {
            1
        };
        self.selected = if self.selected > step {
            self.selected - step
        } else {
            0
        };
        self.scroll_y = if self.scroll_y > step {
            self.scroll_y - step
        } else {
            0
        };
        self.clamp();
    }

    /// The viewport one page up.
    pub open spec fn paged_up(self) -> Viewport {
        (Viewport {
            selected: minus(self.selected as int, self.page()) as usize,
            scroll_y: minus(self.scroll_y as int, self.page()) as usize,
            ..self
        }).clamped()
    }

    /// Moves selection and window down by a page.
    pub fn page_down(&mut self)
        requires
            old(self).wf(),
        ensures
            final(self).wf(),
            *final(self) == old(self).paged_down(),
    {
        let step: usize = if self.visible_height > 0 {
            self.visible_height
        } else {
            1
        };
        let last: usize = if self.item_count > 0 {
            self.item_count - 1
        } else {
            0
        };
        self.selected = if self.selected < last && last - self.selected > step {
            self.selected + step
        } else {
            last
        };
        self.scroll_y = if usize::MAX - self.scroll_y > step {
            self.scroll_y + step
        } else {
            usize::MAX
        };
        self.clamp();
    }

    /// The viewport one page down.
    pub open spec fn paged_down(self) -> Viewport {
        (Viewport {
            selected: min(self.selected + self.page(), minus(self.item_count as int, 1)) as usize,
            scroll_y: min(self.scroll_y + self.page(), usize::MAX as int) as usize,
            ..self
        }).clamped()
    }

    /// Selects the first item.
    pub fn home(&mut self)
        requires
            old(self).wf(),
        ensures
            final(self).wf(),
            *final(self) == (Viewport { selected: 0, scroll_y: 0, ..*old(self) }),
    {
        self.selected = 0;
        self.scroll_y = 0;
    }

    /// Selects the last item.
    pub fn end(&mut self)
        requires
            old(self).wf(),
        ensures
            final(self).wf(),
            *final(self) == old(self).at_end(),
    {
        if self.item_count == 0 {
            return ;
        }
        self.selected = self.item_count - 1;
        self.clamp();
    }

    /// The viewport at the end of the list.
    pub open spec fn at_end(self) -> Viewport {
        if self.item_count == 0 {
            self
        } else {
            (Viewport { selected: (self.item_count - 1) as usize, ..self }).clamped()
        }
    }

    /// The items on screen: from the first up to, but without, the second.
    pub fn visible_range(&self) -> (r: (usize, usize))
        requires
            self.scroll_y + self.visible_height <= usize::MAX,
        ensures
            r.0 == self.scroll_y,
            r.1 == min(self.scroll_y + self.visible_height, self.item_count as int),
    {
        let bottom: usize = self.scroll_y + self.visible_height;
        let end: usize = if bottom < self.item_count {
            bottom
        } else {
            self.item_count
        };
        (self.scroll_y, end)
    }

    /// Whether the first item is selected.
    pub fn at_top(&self) -> (r: bool)
        ensures
            r == (self.selected == 0),
    {
        self.selected == 0
    }

    /// Whether the last item is selected, or there is none.
    pub fn at_bottom(&self) -> (r: bool)
        ensures
            r == (self.item_count == 0 || self.selected + 1 == self.item_count),
    {
        self.item_count == 0 || self.selected == self.item_count - 1
    }
}

// ---------------------------------------------------------------------------
// Laws
// ---------------------------------------------------------------------------

/// With items and a window of some height, the selected item is on screen.
pub proof fn selection_is_visible(v: Viewport)
    requires
        v.wf(),
        v.item_count > 0,
        v.visible_height > 0,
    ensures
        v.scroll_y <= v.selected < min(v.scroll_y + v.visible_height, v.item_count as int),
{
}

/// From any state, even one that is out of place, selection and window come into
/// place, and then stay as they are.
pub proof fn clamping_settles(v: Viewport)
    ensures
        v.clamped().wf(),
        v.clamped().clamped() == v.clamped(),
        v.wf() ==> v.clamped() == v,
{
}

/// The selection stays where it was as far as the list reaches.
pub proof fn clamping_keeps_the_selection(v: Viewport)
    ensures
        v.item_count == 0 ==> v.clamped().selected == 0 && v.clamped().scroll_y == 0,
        v.item_count > 0 ==> v.clamped().selected == min(v.selected as int, v.item_count - 1),
        v.item_count > 0 && v.visible_height == 0 ==> v.clamped().scroll_y == v.clamped().selected,
{
}

/// Going down one item and up again comes back to the same item.
pub proof fn down_and_up(v: Viewport)
    requires
        v.wf(),
        v.selected + 1 < v.item_count,
    ensures
        v.moved_down().selected == v.selected + 1,
        v.moved_down().moved_up().selected == v.selected,
{
}

/// On an empty list every movement leaves the viewport at the top.
pub proof fn empty_list_stays_put(v: Viewport)
    requires
        v.wf(),
        v.item_count == 0,
    ensures
        v.moved_up() == v,
        v.moved_down() == v,
        v.at_end() == v,
        v.paged_up().selected == 0,
        v.paged_down().selected == 0,
        v.paged_up().scroll_y == 0,
        v.paged_down().scroll_y == 0,
{
}

/// One step moves the selection by one row, and stays within the list.
pub proof fn steps_move_by_one(v: Viewport)
    requires
        v.wf(),
        v.item_count > 0,
    ensures
        v.selected == 0 ==> v.moved_up() == v,
        v.selected > 0 ==> v.moved_up().selected == v.selected - 1,
        v.selected + 1 == v.item_count ==> v.moved_down() == v,
        v.selected + 1 < v.item_count ==> v.moved_down().selected == v.selected + 1,
        v.moved_up().item_count == v.item_count && v.moved_down().item_count == v.item_count,
        v.at_end().selected == v.item_count - 1,
        v.at_end().item_count == v.item_count,
{
    if v.selected > 0 {
        clamping_keeps_the_selection(Viewport { selected: (v.selected - 1) as usize, ..v });
    }
    if v.selected + 1 < v.item_count {
        clamping_keeps_the_selection(Viewport { selected: (v.selected + 1) as usize, ..v });
    }
    clamping_keeps_the_selection(Viewport { selected: (v.item_count - 1) as usize, ..v });
}

/// A page up moves the selection up by as many rows as are visible, or to the first one.
pub proof fn a_page_up_moves_by_a_page(v: Viewport)
    requires
        v.wf(),
        v.item_count > 0,
        v.visible_height > 0,
    ensures
        v.selected >= v.visible_height ==> v.paged_up().selected == v.selected - v.visible_height,
        v.selected < v.visible_height ==> v.paged_up().selected == 0,
        v.paged_up().item_count == v.item_count,
{
    let w = Viewport {
        selected: minus(v.selected as int, v.page()) as usize,
        scroll_y: minus(v.scroll_y as int, v.page()) as usize,
        ..v
    };
    clamping_keeps_the_selection(w);
    assert(v.paged_up() == w.clamped());
}

/// A page down moves the selection down by as many rows as are visible, or to the last one.
pub proof fn a_page_down_moves_by_a_page(v: Viewport)
    requires
        v.wf(),
        v.item_count > 0,
        v.visible_height > 0,
    ensures
        v.selected + v.visible_height < v.item_count ==> v.paged_down().selected == v.selected
            + v.visible_height,
        v.selected + v.visible_height >= v.item_count
            ==> v.paged_down().selected == v.item_count - 1,
        v.paged_down().item_count == v.item_count,
{
    let w = Viewport {
        selected: min(v.selected + v.page(), minus(v.item_count as int, 1)) as usize,
        scroll_y: min(v.scroll_y + v.page(), usize::MAX as int) as usize,
        ..v
    };
    clamping_keeps_the_selection(w);
    assert(v.paged_down() == w.clamped());
}

} // verus!
