use crate::events::HoverChange;
use crate::tree::TreeModel;
use crate::widget::{Widget, WidgetObj};
use vstd::prelude::*;

verus! {

impl Widget {
    /// The widget with the hover flag set or cleared.
    pub open spec fn hovering(&self, entered: bool) -> Widget {
        self.with_base(WidgetObj { mouse_focus: entered, ..self.base() })
    }
}

impl TreeModel {
    /// Whether the rectangle of `n` holds the pointer now, after the move.
    pub open spec fn under_pointer(self, h: usize, x: int, y: int, n: usize) -> bool {
        match self.parent(n) {
            Some(p) => self.base(n).covers(
                self.pointer_in(h, x, y, p).0,
                self.pointer_in(h, x, y, p).1,
            ),
            None => false,
        }
    }

    /// Whether a move of the pointer to `(x, y)` by `(dx, dy)`, handed to
    /// `h`, is handed on to `n`: `n` is `h`; or the parent of `n` gets the
    /// move, and `n` is visible and holds the pointer now or held it before.
    pub open spec fn gets_motion(self, h: usize, x: int, y: int, dx: int, dy: int, n: usize) -> bool
        decreases self.limit - self.rank_of(n),
        when self.wf() && n < self.len()
    {
        n == h || (self.live(n) && match self.parent(n) {
            Some(p) => self.gets_motion(h, x, y, dx, dy, p) && self.base(n).visible && (
            self.under_pointer(h, x, y, n) || self.under_pointer(h, x - dx, y - dy, n)),
            None => false,
        })
    }

    /// What the move does to the hover flag of `n`: where the parent of `n`
    /// gets the move and `n` is visible, the flag is set if the pointer has
    /// come into `n`, and cleared if it has gone out of it.
    pub open spec fn hover_change(
        self,
        h: usize,
        x: int,
        y: int,
        dx: int,
        dy: int,
        n: usize,
    ) -> Option<bool> {
        match self.parent(n) {
            Some(p) => if n != h && self.live(n) && self.gets_motion(h, x, y, dx, dy, p)
                && self.base(n).visible && self.under_pointer(h, x, y, n) != self.under_pointer(
                h,
                x - dx,
                y - dy,
                n,
            ) {
                Some(self.under_pointer(h, x, y, n))
            } else {
                None
            },
            None => None,
        }
    }

    /// Whether each change of the list is the one that the move makes to its
    /// widget.
    pub open spec fn changes_expected(
        self,
        h: usize,
        x: int,
        y: int,
        dx: int,
        dy: int,
        changes: Seq<HoverChange>,
    ) -> bool {
        forall|k: int|
            0 <= k < changes.len() ==> self.hover_change(h, x, y, dx, dy, #[trigger] changes[k].widget)
                == Some(changes[k].entered)
    }

    /// Whether the list has a change for `n`.
    pub open spec fn changes_mention(changes: Seq<HoverChange>, n: usize) -> bool {
        exists|k: int| 0 <= k < changes.len() && #[trigger] changes[k].widget == n
    }

    /// A widget that gets the move is `h` or lies below it.
    pub proof fn lemma_gets_motion_below(
        self,
        h: usize,
        x: int,
        y: int,
        dx: int,
        dy: int,
        n: usize,
    )
        requires
            self.wf(),
            self.live(h),
            n < self.len(),
            self.gets_motion(h, x, y, dx, dy, n),
        ensures
            self.live(n),
            n != h ==> self.rank_of(n) < self.rank_of(h),
        decreases self.limit - self.rank_of(n),
    {
        if n != h {
            let p = self.parent(n)->0;
            self.lemma_gets_motion_below(h, x, y, dx, dy, p);
        }
    }

    /// The pointer before the move is where the pointer after it is, less the
    /// move.
    pub proof fn lemma_pointer_before(self, h: usize, x: int, y: int, dx: int, dy: int, n: usize)
        requires
            self.wf(),
            n < self.len(),
        ensures
            self.pointer_in(h, x - dx, y - dy, n) == (
                self.pointer_in(h, x, y, n).0 - dx,
                self.pointer_in(h, x, y, n).1 - dy,
            ),
        decreases self.limit - self.rank_of(n),
    {
        if n != h {
            if let Some(p) = self.parent(n) {
                self.lemma_pointer_before(h, x, y, dx, dy, p);
            }
        }
    }

    /// Every change that the move makes below `g`, a widget that gets the
    /// move, is the change that the move makes to its widget.
    pub proof fn lemma_changes_expected(
        self,
        h: usize,
        x: int,
        y: int,
        dx: int,
        dy: int,
        g: usize,
        i: int,
    )
        requires
            self.wf(),
            self.live(h),
            self.live(g),
            self.gets_motion(h, x, y, dx, dy, g),
            0 <= i <= self.kids(g).len(),
        ensures
            self.changes_expected(
                h,
                x,
                y,
                dx,
                dy,
                self.motion_changes_upto(
                    g,
                    self.pointer_in(h, x, y, g).0,
                    self.pointer_in(h, x, y, g).1,
                    dx,
                    dy,
                    i,
                ),
            ),
        decreases self.rank_of(g), i,
    {
        let gx = self.pointer_in(h, x, y, g).0;
        let gy = self.pointer_in(h, x, y, g).1;
        if i > 0 {
            let c = self.kids(g)[i - 1];
            let before = self.motion_changes_upto(g, gx, gy, dx, dy, i - 1);
            self.lemma_changes_expected(h, x, y, dx, dy, g, i - 1);
            assert(self.live(c));
            assert(self.parent(c) == Some(g));
            self.lemma_gets_motion_below(h, x, y, dx, dy, g);
            assert(c != h);
            self.lemma_pointer_before(h, x, y, dx, dy, g);
            if self.base(c).visible {
                let now = self.base(c).covers(gx, gy);
                let then = self.base(c).covers(gx - dx, gy - dy);
                assert(now == self.under_pointer(h, x, y, c));
                assert(then == self.under_pointer(h, x - dx, y - dy, c));
                let crossed = if now != then {
                    before.push(HoverChange { widget: c, entered: now })
                } else {
                    before
                };
                assert(self.changes_expected(h, x, y, dx, dy, crossed)) by {
                    assert forall|k: int| 0 <= k < crossed.len() implies self.hover_change(
                        h,
                        x,
                        y,
                        dx,
                        dy,
                        #[trigger] crossed[k].widget,
                    ) == Some(crossed[k].entered) by {
                        if k < before.len() {
                            assert(crossed[k] == before[k]);
                        }
                    }
                }
                if now || then {
                    assert(self.gets_motion(h, x, y, dx, dy, c));
                    assert(self.pointer_in(h, x, y, c) == (
                        gx - self.base(c).pos.0,
                        gy - self.base(c).pos.1,
                    ));
                    self.lemma_changes_expected(h, x, y, dx, dy, c, self.kids(c).len() as int);
                    let below = self.motion_changes(c, gx, gy, dx, dy);
                    let all = crossed + below;
                    assert forall|k: int| 0 <= k < all.len() implies self.hover_change(
                        h,
                        x,
                        y,
                        dx,
                        dy,
                        #[trigger] all[k].widget,
                    ) == Some(all[k].entered) by {
                        if k < crossed.len() {
                            assert(all[k] == crossed[k]);
                        } else {
                            assert(all[k] == below[k - crossed.len()]);
                        }
                    }
                }
            }
        }
    }

    /// The changes for the first children stand at the front of the changes
    /// for more of them.
    pub proof fn lemma_changes_grow(
        self,
        g: usize,
        x: int,
        y: int,
        dx: int,
        dy: int,
        i: int,
        j: int,
    )
        requires
            self.wf(),
            self.live(g),
            0 <= i <= j <= self.kids(g).len(),
        ensures
            self.motion_changes_upto(g, x, y, dx, dy, i).len() <= self.motion_changes_upto(
                g,
                x,
                y,
                dx,
                dy,
                j,
            ).len(),
            forall|k: int|
                0 <= k < self.motion_changes_upto(g, x, y, dx, dy, i).len()
                    ==> self.motion_changes_upto(g, x, y, dx, dy, i)[k] == self.motion_changes_upto(
                    g,
                    x,
                    y,
                    dx,
                    dy,
                    j,
                )[k],
        decreases j - i,
    {
        if i < j {
            self.lemma_changes_grow(g, x, y, dx, dy, i, j - 1);
        }
    }

    /// The changes that the move makes below `g`, a widget that gets the
    /// move, have one for every widget below `g` whose hover flag the move
    /// changes.
    pub proof fn lemma_changes_complete(
        self,
        h: usize,
        x: int,
        y: int,
        dx: int,
        dy: int,
        g: usize,
        n: usize,
    )
        requires
            self.wf(),
            self.live(h),
            self.live(g),
            n < self.len(),
            self.gets_motion(h, x, y, dx, dy, g),
            self.is_ancestor_or_self(g, n),
            n != g,
            self.hover_change(h, x, y, dx, dy, n) is Some,
        ensures
            Self::changes_mention(
                self.motion_changes_upto(
                    g,
                    self.pointer_in(h, x, y, g).0,
                    self.pointer_in(h, x, y, g).1,
                    dx,
                    dy,
                    self.kids(g).len() as int,
                ),
                n,
            ),
        decreases self.rank_of(g),
    {
        let gx = self.pointer_in(h, x, y, g).0;
        let gy = self.pointer_in(h, x, y, g).1;
        let count = self.kids(g).len() as int;
        let whole = self.motion_changes_upto(g, gx, gy, dx, dy, count);
        let i = self.lemma_child_towards(g, n);
        let c = self.kids(g)[i];
        assert(self.live(c));
        assert(self.parent(c) == Some(g));
        self.lemma_gets_motion_below(h, x, y, dx, dy, g);
        assert(c != h);
        self.lemma_pointer_before(h, x, y, dx, dy, g);
        self.lemma_changes_grow(g, gx, gy, dx, dy, i + 1, count);
        let before = self.motion_changes_upto(g, gx, gy, dx, dy, i);
        let part = self.motion_changes_upto(g, gx, gy, dx, dy, i + 1);
        let now = self.base(c).covers(gx, gy);
        let then = self.base(c).covers(gx - dx, gy - dy);
        assert(now == self.under_pointer(h, x, y, c));
        assert(then == self.under_pointer(h, x - dx, y - dy, c));
        if c == n {
            assert(self.base(c).visible && now != then);
            let k = before.len() as int;
            assert(part[k] == HoverChange { widget: c, entered: now });
            assert(whole[k] == part[k]);
            assert(whole[k].widget == n);
        } else {
            if self.is_ancestor_or_self(c, h) {
                self.lemma_ancestor_rank(c, h);
            }
            self.lemma_gets_motion_on_path(h, x, y, dx, dy, c, n);
            assert(self.gets_motion(h, x, y, dx, dy, c));
            assert(self.base(c).visible && (now || then));
            assert(self.pointer_in(h, x, y, c) == (
                gx - self.base(c).pos.0,
                gy - self.base(c).pos.1,
            ));
            self.lemma_changes_complete(h, x, y, dx, dy, c, n);
            let crossed = if now != then {
                before.push(HoverChange { widget: c, entered: now })
            } else {
                before
            };
            let below = self.motion_changes(c, gx, gy, dx, dy);
            assert(part == crossed + below);
            let j = choose|j: int| 0 <= j < below.len() && #[trigger] below[j].widget == n;
            let k = crossed.len() + j;
            assert(part[k] == below[j]);
            assert(whole[k] == part[k]);
            assert(whole[k].widget == n);
        }
    }

    /// The child of `g` that is `n` or an ancestor of `n`, for a widget `n`
    /// below `g`.
    pub proof fn lemma_child_towards(self, g: usize, n: usize) -> (i: int)
        requires
            self.wf(),
            n < self.len(),
            self.is_ancestor_or_self(g, n),
            n != g,
        ensures
            g < self.len(),
            0 <= i < self.kids(g).len(),
            self.is_ancestor_or_self(self.kids(g)[i], n),
        decreases self.limit - self.rank_of(n),
    {
        let p = self.parent(n)->0;
        assert(self.is_ancestor_or_self(n, n));
        if p == g {
            assert(self.kids(g).contains(n));
            let i = choose|i: int| 0 <= i < self.kids(g).len() && self.kids(g)[i] == n;
            i
        } else {
            let i = self.lemma_child_towards(g, p);
            i
        }
    }

    /// Where the move reaches the parent of a widget below `c`, it has come
    /// through `c`.
    pub proof fn lemma_gets_motion_on_path(
        self,
        h: usize,
        x: int,
        y: int,
        dx: int,
        dy: int,
        c: usize,
        n: usize,
    )
        requires
            self.wf(),
            self.live(h),
            n < self.len(),
            c < self.len(),
            c != h,
            self.is_ancestor_or_self(c, n),
            n != c,
            self.parent(n) is Some,
            self.gets_motion(h, x, y, dx, dy, self.parent(n)->0),
            !self.is_ancestor_or_self(c, h),
        ensures
            self.gets_motion(h, x, y, dx, dy, c),
        decreases self.limit - self.rank_of(n),
    {
        let p = self.parent(n)->0;
        if p != c {
            assert(self.is_ancestor_or_self(c, p));
            assert(p != h);
            self.lemma_gets_motion_on_path(h, x, y, dx, dy, c, p);
        }
    }

    /// What the changes of a list leave of a widget: as it was, where the
    /// list has no change for it; with the hover flag as the change says,
    /// where every change for it says the same.
    pub proof fn lemma_hovered_widget(self, changes: Seq<HoverChange>, n: usize)
        requires
            self.wf(),
            n < self.len(),
            self.changes_live(changes),
        ensures
            self.hovered(changes).widgets.len() == self.widgets.len(),
            !Self::changes_mention(changes, n) ==> self.hovered(changes).widgets[n as int]
                == self.widgets[n as int],
            forall|e: bool|
                self.live(n) && Self::changes_mention(changes, n) && (forall|k: int|
                    0 <= k < changes.len() && #[trigger] changes[k].widget == n
                        ==> changes[k].entered == e) ==> self.hovered(changes).widget(n)
                    == self.widget(n).hovering(e),
        decreases changes.len(),
    {
        if changes.len() > 0 {
            let front = changes.drop_last();
            let last = changes.last();
            assert forall|k: int| 0 <= k < front.len() implies self.live(
                #[trigger] front[k].widget,
            ) by {
                assert(front[k] == changes[k]);
            }
            self.lemma_hovered_widget(front, n);
            self.lemma_hovered_links(front);
            let mid = self.hovered(front);
            assert(self.live(changes[changes.len() - 1].widget));
            assert(mid.live(last.widget));
            if !Self::changes_mention(changes, n) {
                if Self::changes_mention(front, n) {
                    let k = choose|k: int| 0 <= k < front.len() && #[trigger] front[k].widget == n;
                    assert(changes[k].widget == n);
                }
                assert(changes[changes.len() - 1].widget != n);
            }
            assert forall|e: bool|
                self.live(n) && Self::changes_mention(changes, n) && (forall|k: int|
                    0 <= k < changes.len() && #[trigger] changes[k].widget == n
                        ==> changes[k].entered == e) implies self.hovered(changes).widget(n)
                == self.widget(n).hovering(e) by {
                assert forall|k: int| 0 <= k < front.len() && #[trigger] front[k].widget
                    == n implies front[k].entered == e by {
                    assert(changes[k].widget == n);
                }
                if last.widget == n {
                    assert(changes[changes.len() - 1].widget == n);
                    assert(last.entered == e);
                } else {
                    let k = choose|k: int|
                        0 <= k < changes.len() && #[trigger] changes[k].widget == n;
                    assert(k < front.len());
                    assert(front[k].widget == n);
                }
            }
        }
    }

    /// What a move of the pointer, handed to `h`, leaves of each widget. A
    /// widget below `h` whose parent gets the move, and which the pointer
    /// has entered or left, has its hover flag set or cleared; in everything
    /// else, and every other widget in everything, it is as before.
    pub proof fn lemma_motion_result(self, h: usize, x: int, y: int, dx: int, dy: int, n: usize)
        requires
            self.wf(),
            self.live(h),
            n < self.len(),
        ensures
            self.hover_change(h, x, y, dx, dy, n) matches Some(entered) ==> self.hovered(
                self.motion_changes(h, x, y, dx, dy),
            ).widget(n) == self.widget(n).hovering(entered),
            self.hover_change(h, x, y, dx, dy, n) is None ==> self.hovered(
                self.motion_changes(h, x, y, dx, dy),
            ).widgets[n as int] == self.widgets[n as int],
    {
        let changes = self.motion_changes(h, x, y, dx, dy);
        let count = self.kids(h).len() as int;
        assert(self.gets_motion(h, x, y, dx, dy, h));
        assert(self.pointer_in(h, x, y, h) == (x - self.base(h).pos.0, y - self.base(h).pos.1));
        self.lemma_changes_expected(h, x, y, dx, dy, h, count);
        self.lemma_motion_live(h, x - self.base(h).pos.0, y - self.base(h).pos.1, dx, dy, count);
        self.lemma_hovered_widget(changes, n);
        match self.hover_change(h, x, y, dx, dy, n) {
            Some(entered) => {
                let p = self.parent(n)->0;
                self.lemma_gets_motion_below(h, x, y, dx, dy, p);
                self.lemma_below_getter(h, x, y, dx, dy, p);
                assert(self.is_ancestor_or_self(h, n));
                self.lemma_changes_complete(h, x, y, dx, dy, h, n);
                assert forall|k: int| 0 <= k < changes.len() && #[trigger] changes[k].widget
                    == n implies changes[k].entered == entered by {}
            },
            None => {
                if Self::changes_mention(changes, n) {
                    let k = choose|k: int|
                        0 <= k < changes.len() && #[trigger] changes[k].widget == n;
                    assert(self.hover_change(h, x, y, dx, dy, changes[k].widget) == Some(
                        changes[k].entered,
                    ));
                }
            },
        }
    }

    /// A widget that gets the move has `h` among its ancestors, or is `h`.
    pub proof fn lemma_below_getter(self, h: usize, x: int, y: int, dx: int, dy: int, n: usize)
        requires
            self.wf(),
            self.live(h),
            n < self.len(),
            self.gets_motion(h, x, y, dx, dy, n),
        ensures
            self.is_ancestor_or_self(h, n),
        decreases self.limit - self.rank_of(n),
    {
        if n != h {
            let p = self.parent(n)->0;
            self.lemma_below_getter(h, x, y, dx, dy, p);
        }
    }
}

} // verus!
