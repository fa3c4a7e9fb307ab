use crate::tree::{TreeModel, WidgetTree};
use crate::widget::Widget;
use vstd::pervasive::unreached;
use vstd::prelude::*;

verus! {

impl TreeModel {
    /// The font size of the widget `h`: its own override where it has one,
    /// else the standard size of its theme, else the default.
    pub open spec fn font_size(self, h: usize) -> u32 {
        self.base(h).resolved_font_size(self.theme_of(h))
    }

    /// The position of the widget `h` in the coordinates of its root: its own
    /// position added to the absolute position of its parent.
    pub open spec fn absolute_position(self, h: usize) -> (int, int)
        decreases self.limit - self.rank_of(h),
        when self.wf() && self.live(h)
    {
        match self.parent(h) {
            Some(p) => (
                self.absolute_position(p).0 + self.base(h).pos.0,
                self.absolute_position(p).1 + self.base(h).pos.1,
            ),
            None => (self.base(h).pos.0 as int, self.base(h).pos.1 as int),
        }
    }

    /// Whether the widget `h` and all its ancestors are visible.
    pub open spec fn visible_recursive(self, h: usize) -> bool
        decreases self.limit - self.rank_of(h),
        when self.wf() && self.live(h)
    {
        self.base(h).visible && match self.parent(h) {
            Some(p) => self.visible_recursive(p),
            None => true,
        }
    }

    /// The nearest screen among the ancestors of `h`.
    pub open spec fn screen_above(self, h: usize) -> Option<usize>
        decreases self.limit - self.rank_of(h),
        when self.wf() && self.live(h)
    {
        match self.parent(h) {
            Some(p) => if self.widget(p) is Screen {
                Some(p)
            } else {
                self.screen_above(p)
            },
            None => None,
        }
    }

    /// The screen that is told when the widget `h` asks for the focus: the
    /// nearest screen above it. A screen tells nobody.
    pub open spec fn focus_screen(self, h: usize) -> Option<usize> {
        if self.widget(h) is Screen {
            None
        } else {
            self.screen_above(h)
        }
    }

    /// Where the point `(x, y)`, given in the coordinates of the parent of `h`,
    /// lies in the coordinates in which the children of `n` are tested; `n`
    /// is `h` or lies below it. Each widget on the way from `h` down to `n`
    /// takes its own position off.
    pub open spec fn pointer_in(self, h: usize, x: int, y: int, n: usize) -> (int, int)
        decreases self.limit - self.rank_of(n),
        when self.wf() && n < self.len()
    {
        if n == h {
            (x - self.base(n).pos.0, y - self.base(n).pos.1)
        } else {
            match self.parent(n) {
                Some(p) => (
                    self.pointer_in(h, x, y, p).0 - self.base(n).pos.0,
                    self.pointer_in(h, x, y, p).1 - self.base(n).pos.1,
                ),
                None => (x - self.base(n).pos.0, y - self.base(n).pos.1),
            }
        }
    }

    /// An absolute position is never left of or above the widget's own
    /// position, nor that of its parent.
    pub proof fn lemma_absolute_position_bounds(self, h: usize)
        requires
            self.wf(),
            self.live(h),
        ensures
            self.absolute_position(h).0 >= self.base(h).pos.0,
            self.absolute_position(h).1 >= self.base(h).pos.1,
            self.parent(h) matches Some(p) ==> self.absolute_position(h).0
                >= self.absolute_position(p).0 >= 0 && self.absolute_position(h).1
                >= self.absolute_position(p).1 >= 0,
        decreases self.limit - self.rank_of(h),
    {
        if let Some(p) = self.parent(h) {
            self.lemma_absolute_position_bounds(p);
        }
    }

    /// A root is where its own position says. A child is at its own position,
    /// counted from where its parent is.
    pub proof fn lemma_absolute_position(self, h: usize)
        requires
            self.wf(),
            self.live(h),
        ensures
            self.parent(h) is None ==> self.absolute_position(h) == (
                self.base(h).pos.0 as int,
                self.base(h).pos.1 as int,
            ),
            self.parent(h) matches Some(p) ==> self.absolute_position(h) == (
                self.absolute_position(p).0 + self.base(h).pos.0,
                self.absolute_position(p).1 + self.base(h).pos.1,
            ),
    {
    }

    /// A widget is visible with its ancestors exactly when it and every one
    /// of its ancestors has its own visibility flag set. So a widget whose
    /// flag is not set is never visible, whatever holds of its ancestors.
    pub proof fn lemma_visible_recursive(self, h: usize)
        requires
            self.wf(),
            self.live(h),
        ensures
            !self.base(h).visible ==> !self.visible_recursive(h),
            self.visible_recursive(h) <==> (forall|a: usize|
                self.is_ancestor_or_self(a, h) ==> #[trigger] self.base(a).visible),
        decreases self.limit - self.rank_of(h),
    {
        assert(self.is_ancestor_or_self(h, h));
        match self.parent(h) {
            Some(p) => {
                self.lemma_visible_recursive(p);
                if self.visible_recursive(h) {
                    assert forall|a: usize| self.is_ancestor_or_self(a, h) implies #[trigger] self.base(
                        a,
                    ).visible by {
                        if a != h {
                            assert(self.is_ancestor_or_self(a, p));
                        }
                    }
                } else if self.base(h).visible {
                    assert(!self.visible_recursive(p));
                    let a = choose|a: usize|
                        self.is_ancestor_or_self(a, p) && !#[trigger] self.base(a).visible;
                    assert(self.is_ancestor_or_self(a, h));
                }
            },
            None => {
                if self.visible_recursive(h) {
                    assert forall|a: usize| self.is_ancestor_or_self(a, h) implies #[trigger] self.base(
                        a,
                    ).visible by {
                        assert(a == h);
                    }
                }
            },
        }
    }
}

impl WidgetTree {
    /// The font size of the widget `h`: its own override where it has one,
    /// else the standard size of its theme, else the default.
    pub fn font_size(&self, h: usize) -> (size: u32)
        requires
            self@.live(h),
        ensures
            size == self@.font_size(h),
    {
        self.widget(h).font_size(self.theme_of(h))
    }

    /// The position of the widget `h` in the coordinates of its root, or
    /// `None` where it cannot stand in a `u32`.
    pub fn checked_absolute_position(&self, h: usize) -> (position: Option<(u32, u32)>)
        requires
            self@.wf(),
            self@.live(h),
        ensures
            match position {
                Some(p) => p.0 == self@.absolute_position(h).0 && p.1 == self@.absolute_position(
                    h,
                ).1,
                None => self@.absolute_position(h).0 > u32::MAX || self@.absolute_position(h).1
                    > u32::MAX,
            },
    {
        let start = self.widget(h).base_ref().pos;
        let mut x = start.0;
        let mut y = start.1;
        let mut cur = h;
        loop
            invariant
                self@.wf(),
                self@.live(cur),
                self@.live(h),
                self@.absolute_position(h).0 == x + self@.absolute_position(cur).0 - self@.base(
                    cur,
                ).pos.0,
                self@.absolute_position(h).1 == y + self@.absolute_position(cur).1 - self@.base(
                    cur,
                ).pos.1,
            decreases self@.limit - self@.rank_of(cur),
        {
            match self.parent(cur) {
                None => {
                    return Some((x, y));
                },
                Some(p) => {
                    proof {
                        assert(self@.parent(cur) == Some(p));
                        self@.lemma_absolute_position_bounds(p);
                    }
                    let step = self.widget(p).base_ref().pos;
                    match (x.checked_add(step.0), y.checked_add(step.1)) {
                        (Some(nx), Some(ny)) => {
                            x = nx;
                            y = ny;
                        },
                        _ => {
                            return None;
                        },
                    }
                    cur = p;
                },
            }
        }
    }

    /// The position of the widget `h` in the coordinates of its root.
    pub fn absolute_position(&self, h: usize) -> (position: (u32, u32))
        requires
            self@.wf(),
            self@.live(h),
            self@.absolute_position(h).0 <= u32::MAX,
            self@.absolute_position(h).1 <= u32::MAX,
        ensures
            position.0 == self@.absolute_position(h).0,
            position.1 == self@.absolute_position(h).1,
    {
        match self.checked_absolute_position(h) {
            Some(position) => position,
            None => unreached(),
        }
    }

    /// Whether the widget `h` and all its ancestors are visible.
    pub fn visible_recursive(&self, h: usize) -> (visible: bool)
        requires
            self@.wf(),
            self@.live(h),
        ensures
            visible == self@.visible_recursive(h),
    {
        let mut cur = h;
        loop
            invariant
                self@.wf(),
                self@.live(cur),
                self@.live(h),
                self@.visible_recursive(h) == self@.visible_recursive(cur),
            decreases self@.limit - self@.rank_of(cur),
        {
            if !self.widget(cur).base_ref().visible {
                return false;
            }
            match self.parent(cur) {
                None => {
                    return true;
                },
                Some(p) => {
                    proof {
                        assert(self@.parent(cur) == Some(p));
                    }
                    cur = p;
                },
            }
        }
    }

    /// The widget `h` asks for the keyboard focus: the nearest screen above
    /// it is told, and is returned. Where there is no screen above it, or
    /// `h` is itself a screen, nobody is told.
    pub fn request_focus(&self, h: usize) -> (told: Option<usize>)
        requires
            self@.wf(),
            self@.live(h),
        ensures
            told == self@.focus_screen(h),
    {
        if self.widget(h).as_screen().is_some() {
            return None;
        }
        let mut cur = h;
        loop
            invariant
                self@.wf(),
                self@.live(cur),
                self@.live(h),
                !(self@.widget(h) is Screen),
                self@.screen_above(h) == self@.screen_above(cur),
            decreases self@.limit - self@.rank_of(cur),
        {
            match self.parent(cur) {
                None => {
                    return None;
                },
                Some(p) => {
                    proof {
                        assert(self@.parent(cur) == Some(p));
                    }
                    match self.widget(p) {
                        Widget::Screen(screen) => {
                            screen.update_focus(h);
                            return Some(p);
                        },
                        _ => {
                            cur = p;
                        },
                    }
                },
            }
        }
    }
}

} // verus!
