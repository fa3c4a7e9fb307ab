use crate::layout::{BoxLayout, Placement};
use crate::tree::TreeModel;
use crate::widget::{Widget, WidgetObj};
use vstd::prelude::*;

verus! {

impl Widget {
    /// The widget at the place and with the size that the placement gives.
    pub open spec fn placed_at(&self, p: Placement) -> Widget {
        self.with_base(WidgetObj { pos: (p.x, p.y), size: (p.width, p.height), ..self.base() })
    }

    /// Of two placements made one after the other, only the second shows.
    pub proof fn lemma_placed_twice(&self, p: Placement, q: Placement)
        ensures
            self.placed_at(p).placed_at(q) == self.placed_at(q),
    {
    }
}

impl TreeModel {
    /// Whether laying out `h` reaches `n`: `n` lies below `h`, and `n` and
    /// every widget between the two is visible.
    pub open spec fn laid_out(self, h: usize, n: usize) -> bool
        decreases self.limit - self.rank_of(n),
        when self.wf() && n < self.len()
    {
        n != h && self.live(n) && self.base(n).visible && match self.parent(n) {
            Some(p) => p == h || self.laid_out(h, p),
            None => false,
        }
    }

    /// The size that `n` has while `h`, of the size `size`, is laid out: what
    /// its parent has given it, or, for `h` itself, `size`.
    pub open spec fn size_given(self, h: usize, size: (u32, u32), n: usize) -> (u32, u32)
        decreases self.limit - self.rank_of(n), 1int,
        when self.wf() && n < self.len()
    {
        if n == h {
            size
        } else {
            match self.placement_of(h, size, n) {
                Some(p) => (p.width, p.height),
                None => self.base(n).size,
            }
        }
    }

    /// Where the parent of `n` puts `n` while `h`, of the size `size`, is
    /// laid out.
    pub open spec fn placement_of(self, h: usize, size: (u32, u32), n: usize) -> Option<Placement>
        decreases self.limit - self.rank_of(n), 0int,
        when self.wf() && n < self.len()
    {
        match self.parent(n) {
            Some(p) => self.placement(p, self.size_given(h, size, p), self.kids(p).index_of(n)),
            None => None,
        }
    }

    /// Whether each placement of the plan is the one that the parent of its
    /// widget makes while `h` is laid out, and its widget is reached.
    pub open spec fn as_expected(self, h: usize, size: (u32, u32), plan: Seq<Placement>) -> bool {
        forall|k: int|
            0 <= k < plan.len() ==> self.laid_out(h, #[trigger] plan[k].widget)
                && self.placement_of(h, size, plan[k].widget) == Some(plan[k])
    }

    /// Whether the plan has a placement for `n`.
    pub open spec fn mentions(plan: Seq<Placement>, n: usize) -> bool {
        exists|k: int| 0 <= k < plan.len() && #[trigger] plan[k].widget == n
    }

    /// What laying out `h` reaches lies below `h`.
    pub proof fn lemma_laid_out_below(self, h: usize, n: usize)
        requires
            self.wf(),
            n < self.len(),
            self.laid_out(h, n),
        ensures
            self.live(n),
            h < self.len(),
            self.live(h),
            self.rank_of(n) < self.rank_of(h),
        decreases self.limit - self.rank_of(n),
    {
        let p = self.parent(n)->0;
        if p != h {
            self.lemma_laid_out_below(h, p);
        }
    }

    /// A child is at the index at which it stands among the children of its
    /// parent, and at no other.
    pub proof fn lemma_index_of_child(self, p: usize, i: int)
        requires
            self.wf(),
            p < self.len(),
            0 <= i < self.kids(p).len(),
        ensures
            self.kids(p).index_of(self.kids(p)[i]) == i,
    {
        let k = self.kids(p);
        let j = k.index_of(k[i]);
        assert(0 <= j < k.len() && k[j] == k[i]);
        if j < i {
            assert(k[j] != k[i]);
        } else if i < j {
            assert(k[i] != k[j]);
        }
    }

    /// The placement that the layout of a parent makes for a child is for
    /// that child.
    pub proof fn lemma_placement_widget(self, g: usize, size: (u32, u32), i: int)
        requires
            self.placement(g, size, i) is Some,
        ensures
            self.placement(g, size, i)->0.widget == self.kids(g)[i],
    {
    }

    /// The placements for the first children stand at the front of the
    /// placements for more of them.
    pub proof fn lemma_plan_grows(self, g: usize, size: (u32, u32), i: int, j: int)
        requires
            self.wf(),
            self.live(g),
            0 <= i <= j <= self.kids(g).len(),
            self.plan_upto(g, size, j) is Some,
        ensures
            self.plan_upto(g, size, i) is Some,
            self.plan_upto(g, size, i)->0.len() <= self.plan_upto(g, size, j)->0.len(),
            forall|k: int|
                0 <= k < self.plan_upto(g, size, i)->0.len() ==> self.plan_upto(g, size, i)->0[k]
                    == self.plan_upto(g, size, j)->0[k],
        decreases j - i,
    {
        if i < j {
            self.lemma_plan_grows(g, size, i, j - 1);
        }
    }

    /// Every placement of a plan is the one that the parent of its widget
    /// makes, and is for a widget that the layout reaches.
    pub proof fn lemma_plan_as_expected(self, h: usize, size: (u32, u32), g: usize, i: int)
        requires
            self.wf(),
            self.live(h),
            self.live(g),
            g == h || self.laid_out(h, g),
            0 <= i <= self.kids(g).len(),
            self.plan_upto(g, self.size_given(h, size, g), i) is Some,
        ensures
            self.as_expected(h, size, self.plan_upto(g, self.size_given(h, size, g), i)->0),
        decreases self.rank_of(g), i,
    {
        let given = self.size_given(h, size, g);
        if i > 0 {
            let c = self.kids(g)[i - 1];
            let before = self.plan_upto(g, given, i - 1)->0;
            self.lemma_plan_as_expected(h, size, g, i - 1);
            assert(self.live(c));
            assert(self.parent(c) == Some(g));
            if self.base(c).visible {
                let p = self.placement(g, given, i - 1)->0;
                let below = self.layout_plan(c, (p.width, p.height))->0;
                if g != h {
                    self.lemma_laid_out_below(h, g);
                }
                assert(c != h);
                assert(self.laid_out(h, c));
                self.lemma_index_of_child(g, i - 1);
                assert(self.placement_of(h, size, c) == Some(p));
                assert(self.size_given(h, size, c) == (p.width, p.height));
                self.lemma_placement_widget(g, given, i - 1);
                self.lemma_plan_as_expected(h, size, c, self.kids(c).len() as int);
                let all = before.push(p) + below;
                assert(self.plan_upto(g, given, i) == Some(all));
                assert forall|k: int| 0 <= k < all.len() implies self.laid_out(
                    h,
                    #[trigger] all[k].widget,
                ) && self.placement_of(h, size, all[k].widget) == Some(all[k]) by {
                    if k < before.len() {
                        assert(all[k] == before[k]);
                    } else if k == before.len() {
                        assert(all[k] == p);
                    } else {
                        assert(all[k] == below[k - before.len() - 1]);
                    }
                }
            }
        }
    }

    /// A widget that the layout of `g` reaches is a visible child of `g`, or
    /// is reached by the layout of one.
    pub proof fn lemma_reached_through_child(self, g: usize, n: usize) -> (i: int)
        requires
            self.wf(),
            n < self.len(),
            self.laid_out(g, n),
        ensures
            g < self.len(),
            0 <= i < self.kids(g).len(),
            self.base(self.kids(g)[i]).visible,
            self.kids(g)[i] == n || self.laid_out(self.kids(g)[i], n),
        decreases self.limit - self.rank_of(n),
    {
        let p = self.parent(n)->0;
        self.lemma_laid_out_below(g, n);
        if p == g {
            assert(self.kids(g).contains(n));
            let i = choose|i: int| 0 <= i < self.kids(g).len() && self.kids(g)[i] == n;
            i
        } else {
            let i = self.lemma_reached_through_child(g, p);
            let c = self.kids(g)[i];
            if c != p {
                self.lemma_laid_out_below(c, p);
            }
            assert(self.rank_of(n) < self.rank_of(p));
            assert(n != c);
            assert(self.laid_out(c, n));
            i
        }
    }

    /// The plan has a placement for every widget that the layout reaches.
    pub proof fn lemma_plan_complete(self, g: usize, size: (u32, u32), n: usize)
        requires
            self.wf(),
            self.live(g),
            n < self.len(),
            self.laid_out(g, n),
            self.layout_plan(g, size) is Some,
        ensures
            Self::mentions(self.layout_plan(g, size)->0, n),
        decreases self.rank_of(g),
    {
        let i = self.lemma_reached_through_child(g, n);
        let c = self.kids(g)[i];
        let count = self.kids(g).len() as int;
        let whole = self.layout_plan(g, size)->0;
        self.lemma_plan_grows(g, size, i + 1, count);
        self.lemma_plan_grows(g, size, i, i + 1);
        let before = self.plan_upto(g, size, i)->0;
        let part = self.plan_upto(g, size, i + 1)->0;
        let p = self.placement(g, size, i)->0;
        let below = self.layout_plan(c, (p.width, p.height))->0;
        assert(part == before.push(p) + below);
        self.lemma_placement_widget(g, size, i);
        assert(self.live(c));
        assert(self.parent(c) == Some(g));
        if c == n {
            let k = before.len() as int;
            assert(part[k] == p);
            assert(whole[k] == part[k]);
            assert(whole[k].widget == n);
        } else {
            self.lemma_plan_complete(c, (p.width, p.height), n);
            let j = choose|j: int| 0 <= j < below.len() && #[trigger] below[j].widget == n;
            let k = before.len() + 1 + j;
            assert(part[k] == below[j]);
            assert(whole[k] == part[k]);
            assert(whole[k].widget == n);
        }
    }

    /// What the placements of a plan leave of a widget: as it was, where the
    /// plan has no placement for it; at the place of its placement, where
    /// every placement for it is the same.
    pub proof fn lemma_placed_widget(self, plan: Seq<Placement>, n: usize)
        requires
            self.wf(),
            n < self.len(),
            forall|k: int| 0 <= k < plan.len() ==> self.live(#[trigger] plan[k].widget),
        ensures
            self.placed(plan).widgets.len() == self.widgets.len(),
            !Self::mentions(plan, n) ==> self.placed(plan).widgets[n as int]
                == self.widgets[n as int],
            forall|e: Placement|
                self.live(n) && Self::mentions(plan, n) && (forall|k: int|
                    0 <= k < plan.len() && #[trigger] plan[k].widget == n ==> plan[k] == e)
                    ==> self.placed(plan).widget(n) == self.widget(n).placed_at(e),
        decreases plan.len(),
    {
        if plan.len() > 0 {
            let front = plan.drop_last();
            let last = plan.last();
            assert forall|k: int| 0 <= k < front.len() implies self.live(
                #[trigger] front[k].widget,
            ) by {
                assert(front[k] == plan[k]);
            }
            self.lemma_placed_widget(front, n);
            self.lemma_placed_links(front);
            let mid = self.placed(front);
            assert(self.live(plan[plan.len() - 1].widget));
            assert(mid.live(last.widget));
            if !Self::mentions(plan, n) {
                if Self::mentions(front, n) {
                    let k = choose|k: int| 0 <= k < front.len() && #[trigger] front[k].widget == n;
                    assert(plan[k].widget == n);
                }
                assert(plan[plan.len() - 1].widget != n);
            }
            assert forall|e: Placement|
                self.live(n) && Self::mentions(plan, n) && (forall|k: int|
                    0 <= k < plan.len() && #[trigger] plan[k].widget == n ==> plan[k]
                        == e) implies self.placed(plan).widget(n) == self.widget(n).placed_at(
                e,
            ) by {
                assert forall|k: int| 0 <= k < front.len() && #[trigger] front[k].widget
                    == n implies front[k] == e by {
                    assert(plan[k].widget == n);
                }
                if last.widget == n {
                    assert(plan[plan.len() - 1].widget == n);
                    assert(last == e);
                    if Self::mentions(front, n) {
                        self.widget(n).lemma_placed_twice(e, e);
                    }
                } else {
                    let k = choose|k: int| 0 <= k < plan.len() && #[trigger] plan[k].widget == n;
                    assert(k < front.len());
                    assert(front[k].widget == n);
                }
            }
        }
    }

    /// What laying out `h` leaves of each widget. A widget that the layout
    /// reaches is at the place, and has the size, that its parent's layout
    /// gives it; in everything else, and every other widget in everything, it
    /// is as before.
    pub proof fn lemma_layout_result(self, h: usize, size: (u32, u32), n: usize)
        requires
            self.wf(),
            self.live(h),
            n < self.len(),
            self.layout_plan(h, size) is Some,
        ensures
            self.laid_out(h, n) ==> self.placement_of(h, size, n) is Some && self.placed(
                self.layout_plan(h, size)->0,
            ).widget(n) == self.widget(n).placed_at(self.placement_of(h, size, n)->0),
            !self.laid_out(h, n) ==> self.placed(self.layout_plan(h, size)->0).widgets[n as int]
                == self.widgets[n as int],
    {
        let plan = self.layout_plan(h, size)->0;
        self.lemma_plan_as_expected(h, size, h, self.kids(h).len() as int);
        self.lemma_plan_live(h, size, self.kids(h).len() as int);
        self.lemma_placed_widget(plan, n);
        if self.laid_out(h, n) {
            self.lemma_plan_complete(h, size, n);
            let k = choose|k: int| 0 <= k < plan.len() && #[trigger] plan[k].widget == n;
            let e = plan[k];
            assert(self.placement_of(h, size, n) == Some(e));
            assert forall|j: int| 0 <= j < plan.len() && #[trigger] plan[j].widget == n implies plan[j]
                == e by {}
        } else {
            if Self::mentions(plan, n) {
                let k = choose|k: int| 0 <= k < plan.len() && #[trigger] plan[k].widget == n;
                assert(self.laid_out(h, plan[k].widget));
            }
        }
    }
}

impl TreeModel {
    /// Whether the two trees have the same links and themes, and hold the
    /// same widget at `c` and everywhere below it.
    pub open spec fn agrees_below(self, other: TreeModel, c: usize) -> bool {
        &&& self.same_links(other)
        &&& self.themes == other.themes
        &&& forall|n: usize|
            n < self.len() && self.is_ancestor_or_self(c, n) ==> #[trigger] self.widgets[n as int]
                == other.widgets[n as int]
    }

    /// Two trees that agree at and below a widget agree at and below each of
    /// its children.
    pub proof fn lemma_agrees_below_child(self, other: TreeModel, c: usize, i: int)
        requires
            self.wf(),
            self.live(c),
            self.agrees_below(other, c),
            0 <= i < self.kids(c).len(),
        ensures
            other.wf(),
            self.agrees_below(other, self.kids(c)[i]),
            self.widgets[c as int] == other.widgets[c as int],
            self.widgets[self.kids(c)[i] as int] == other.widgets[self.kids(c)[i] as int],
    {
        let k = self.kids(c)[i];
        self.lemma_same_links_wf(other);
        assert(self.parent(k) == Some(c));
        assert(self.is_ancestor_or_self(c, c));
        assert(self.is_ancestor_or_self(k, k));
        assert forall|n: usize|
            n < self.len() && self.is_ancestor_or_self(k, n) implies #[trigger] self.widgets[n as int]
            == other.widgets[n as int] by {
            self.lemma_ancestor_parent(k, n);
        }
        self.lemma_ancestor_parent(k, k);
    }

    /// What a widget asks for depends on nothing but the widgets at and
    /// below it, and the themes. So it is not changed by placing widgets that
    /// lie elsewhere in the tree.
    pub proof fn lemma_preferred_size_local(self, other: TreeModel, c: usize)
        requires
            self.wf(),
            self.live(c),
            self.agrees_below(other, c),
        ensures
            self.preferred_size(c) == other.preferred_size(c),
            self.target_size(c) == other.target_size(c),
            self.measurable(c) == other.measurable(c),
        decreases self.rank_of(c), self.kids(c).len() + 1,
    {
        self.lemma_same_links_wf(other);
        assert(self.is_ancestor_or_self(c, c));
        assert(self.widgets[c as int] == other.widgets[c as int]);
        assert(other.live(c));
        assert(self.theme_of(c) == other.theme_of(c));
        match self.widget(c) {
            Widget::Label(_) => {},
            _ => match self.base(c).layout {
                Some(layout) => {
                    self.lemma_box_extent_local(other, c, layout, self.kids(c).len() as int);
                },
                None => {},
            },
        }
    }

    /// What a box layout asks for depends on nothing but the widgets at and
    /// below the one that it lays out, and the themes.
    pub proof fn lemma_box_extent_local(
        self,
        other: TreeModel,
        c: usize,
        layout: BoxLayout,
        i: int,
    )
        requires
            self.wf(),
            self.live(c),
            self.agrees_below(other, c),
            0 <= i <= self.kids(c).len(),
        ensures
            self.box_extent(c, layout, i) == other.box_extent(c, layout, i),
            self.measurable_upto(c, i) == other.measurable_upto(c, i),
            self.seen_visible(c, i) == other.seen_visible(c, i),
        decreases self.rank_of(c), i,
    {
        self.lemma_same_links_wf(other);
        assert(self.is_ancestor_or_self(c, c));
        assert(self.widgets[c as int] == other.widgets[c as int]);
        assert(other.live(c));
        assert(self.theme_of(c) == other.theme_of(c));
        assert(self.header_allowance(c, layout.margin) == other.header_allowance(
            c,
            layout.margin,
        ));
        if i > 0 {
            self.lemma_box_extent_local(other, c, layout, i - 1);
            self.lemma_agrees_below_child(other, c, i - 1);
            let k = self.kids(c)[i - 1];
            assert(self.live(k));
            assert(self.base(k) == other.base(k));
            if self.base(k).visible {
                self.lemma_preferred_size_local(other, k);
            }
        }
    }
}

} // verus!
