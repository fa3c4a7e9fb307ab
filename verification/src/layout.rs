use crate::tree::{TreeModel, WidgetTree};
use crate::widget::{Widget, WidgetObj};
use vstd::pervasive::unreached;
use vstd::prelude::*;

verus! {

/// How a child is placed along the axis a box layout does not stack on.
#[derive(Clone, Copy, PartialEq, Eq, Structural, Debug)]
pub enum Alignment {
    Minimum,
    Middle,
    Maximum,
    Fill,
}

/// The axis along which a box layout stacks the children.
#[derive(Clone, Copy, PartialEq, Eq, Structural, Debug)]
pub enum Orientation {
    Horizontal,
    Vertical,
}

/// Stacks the visible children of a widget along one axis, with `margin`
/// around them and `spacing` between them.
#[derive(Clone, Copy, Debug)]
pub struct BoxLayout {
    pub alignment: Alignment,
    pub orientation: Orientation,
    pub margin: u32,
    pub spacing: u32,
}

/// Where a layout puts one widget: its position in the parent, and its size.
#[derive(Clone, Copy, Debug)]
pub struct Placement {
    pub widget: usize,
    pub x: u32,
    pub y: u32,
    pub width: u32,
    pub height: u32,
}

/// The larger of two numbers.
pub open spec fn larger(a: int, b: int) -> int {
    if a >= b {
        a
    } else {
        b
    }
}

/// Whether both numbers can stand in a `u32`.
pub open spec fn fits(size: (int, int)) -> bool {
    0 <= size.0 <= u32::MAX && 0 <= size.1 <= u32::MAX
}

impl TreeModel {
    /// Whether one of the first `i` children of `h` is visible.
    pub open spec fn seen_visible(self, h: usize, i: int) -> bool
        decreases i,
    {
        if i <= 0 {
            false
        } else {
            self.seen_visible(h, i - 1) || self.base(self.kids(h)[i - 1]).visible
        }
    }

    /// The room that a box layout with this margin leaves for the title bar
    /// of `h`: the theme's header height less half the margin where `h` is a
    /// window with a theme, else nothing.
    pub open spec fn header_allowance(self, h: usize, margin: u32) -> int {
        if self.widget(h) is Window {
            match self.theme_of(h) {
                Some(t) => t.window_header_height - margin / 2,
                None => 0,
            }
        } else {
            0
        }
    }

    /// The size that the widget `h` asks for. A label asks for the size of
    /// its caption; another widget for what its layout computes from its
    /// children, or, without a layout, for the size it has.
    pub open spec fn preferred_size(self, h: usize) -> (int, int)
        decreases self.rank_of(h), self.kids(h).len() + 1,
        when self.wf() && self.live(h)
    {
        match self.widget(h) {
            Widget::Label(label) => label.spec_preferred_size(self.theme_of(h)),
            _ => match self.base(h).layout {
                Some(layout) => self.box_extent(h, layout, self.kids(h).len() as int),
                None => (self.base(h).size.0 as int, self.base(h).size.1 as int),
            },
        }
    }

    /// The size that the child `c` takes when its parent lays it out: on each
    /// axis its fixed size where that is set, else its preferred size.
    pub open spec fn target_size(self, c: usize) -> (int, int)
        decreases self.rank_of(c), self.kids(c).len() + 2,
        when self.wf() && self.live(c)
    {
        (
            WidgetObj::target(self.base(c).fixed_size.0, self.preferred_size(c).0),
            WidgetObj::target(self.base(c).fixed_size.1, self.preferred_size(c).1),
        )
    }

    /// The size that a box layout asks for when `h` has only its first `i`
    /// children. Along the stacking axis the visible children add up, with
    /// the spacing between them; across it the largest of them counts. The
    /// margin is added on both sides, and the header allowance to the height.
    pub open spec fn box_extent(self, h: usize, layout: BoxLayout, i: int) -> (int, int)
        decreases self.rank_of(h), i,
        when self.wf() && self.live(h) && 0 <= i <= self.kids(h).len()
    {
        if i <= 0 {
            (2 * layout.margin, 2 * layout.margin + self.header_allowance(h, layout.margin))
        } else {
            let before = self.box_extent(h, layout, i - 1);
            let c = self.kids(h)[i - 1];
            if !self.base(c).visible {
                before
            } else {
                let target = self.target_size(c);
                let gap: int = if self.seen_visible(h, i - 1) {
                    layout.spacing as int
                } else {
                    0
                };
                match layout.orientation {
                    Orientation::Horizontal => (
                        before.0 + gap + target.0,
                        larger(before.1, target.1 + 2 * layout.margin),
                    ),
                    Orientation::Vertical => (
                        larger(before.0, target.0 + 2 * layout.margin),
                        before.1 + gap + target.1,
                    ),
                }
            }
        }
    }

    /// Whether the preferred size of `h`, and every preferred size that it is
    /// computed from, can stand in a `u32`.
    pub open spec fn measurable(self, h: usize) -> bool
        decreases self.rank_of(h), self.kids(h).len() + 1,
        when self.wf() && self.live(h)
    {
        match self.widget(h) {
            Widget::Label(_) => true,
            _ => match self.base(h).layout {
                Some(layout) => {
                    &&& fits(self.box_extent(h, layout, self.kids(h).len() as int))
                    &&& self.measurable_upto(h, self.kids(h).len() as int)
                },
                None => true,
            },
        }
    }

    /// Whether each visible one of the first `i` children of `h` is
    /// measurable.
    pub open spec fn measurable_upto(self, h: usize, i: int) -> bool
        decreases self.rank_of(h), i,
        when self.wf() && self.live(h) && 0 <= i <= self.kids(h).len()
    {
        if i <= 0 {
            true
        } else {
            &&& self.measurable_upto(h, i - 1)
            &&& self.base(self.kids(h)[i - 1]).visible ==> self.measurable(self.kids(h)[i - 1])
        }
    }

    /// The size of `h` as a container, when `size` is the size it was given:
    /// on each axis its fixed size where that is set, else the given size.
    pub open spec fn container_size(self, h: usize, size: (u32, u32)) -> (u32, u32) {
        (
            if self.base(h).fixed_size.0 > 0 {
                self.base(h).fixed_size.0
            } else {
                size.0
            },
            if self.base(h).fixed_size.1 > 0 {
                self.base(h).fixed_size.1
            } else {
                size.1
            },
        )
    }

    /// The spacing in front of child `i` of `h`: none in front of the first
    /// visible child.
    pub open spec fn gap_before(self, h: usize, layout: BoxLayout, i: int) -> int {
        if self.seen_visible(h, i) {
            layout.spacing as int
        } else {
            0
        }
    }

    /// How far along the stacking axis a box layout has come after the first
    /// `i` children of `h`. It starts at the margin, plus the header
    /// allowance, and moves on by each visible child and the spacing in
    /// front of it.
    pub open spec fn cursor_after(self, h: usize, layout: BoxLayout, i: int) -> int
        decreases i,
    {
        if i <= 0 {
            layout.margin + self.header_allowance(h, layout.margin)
        } else {
            let before = self.cursor_after(h, layout, i - 1);
            let c = self.kids(h)[i - 1];
            if !self.base(c).visible {
                before
            } else {
                before + self.gap_before(h, layout, i - 1) + match layout.orientation {
                    Orientation::Horizontal => self.target_size(c).0,
                    Orientation::Vertical => self.target_size(c).1,
                }
            }
        }
    }

    /// Where a box layout puts child `i` of `h`, when `h` has the size
    /// `size`; `None` where the child is not measurable or would lie at a
    /// position that cannot stand in a `u32`. Along the stacking axis the
    /// child follows the children before it. Across it the alignment
    /// decides: at the margin, in the middle, at the far margin, or
    /// stretched from the margin over the whole container unless its size
    /// on that axis is fixed.
    pub open spec fn box_placement(
        self,
        h: usize,
        layout: BoxLayout,
        size: (u32, u32),
        i: int,
    ) -> Option<Placement> {
        let c = self.kids(h)[i];
        let target = self.target_size(c);
        let container = self.container_size(h, size);
        let along = self.cursor_after(h, layout, i) + self.gap_before(h, layout, i);
        let (room, wanted, fixed) = match layout.orientation {
            Orientation::Horizontal => (
                container.1 as int,
                target.1,
                self.base(c).fixed_size.1 as int,
            ),
            Orientation::Vertical => (
                container.0 as int,
                target.0,
                self.base(c).fixed_size.0 as int,
            ),
        };
        let across: int = match layout.alignment {
            Alignment::Minimum => layout.margin as int,
            Alignment::Middle => (room - wanted) / 2,
            Alignment::Maximum => room - wanted - layout.margin,
            Alignment::Fill => layout.margin as int,
        };
        let extent: int = match layout.alignment {
            Alignment::Fill => if fixed > 0 {
                fixed
            } else {
                room
            },
            _ => wanted,
        };
        if self.measurable(c) && 0 <= along <= u32::MAX && 0 <= across <= u32::MAX {
            Some(
                match layout.orientation {
                    Orientation::Horizontal => Placement {
                        widget: c,
                        x: along as u32,
                        y: across as u32,
                        width: target.0 as u32,
                        height: extent as u32,
                    },
                    Orientation::Vertical => Placement {
                        widget: c,
                        x: across as u32,
                        y: along as u32,
                        width: extent as u32,
                        height: target.1 as u32,
                    },
                },
            )
        } else {
            None
        }
    }

    /// What becomes of child `i` of a widget `h` without a layout: it stays
    /// where it is and takes its target size; `None` where the child is not
    /// measurable.
    pub open spec fn default_placement(self, h: usize, i: int) -> Option<Placement> {
        let c = self.kids(h)[i];
        if self.measurable(c) {
            Some(
                Placement {
                    widget: c,
                    x: self.base(c).pos.0,
                    y: self.base(c).pos.1,
                    width: self.target_size(c).0 as u32,
                    height: self.target_size(c).1 as u32,
                },
            )
        } else {
            None
        }
    }

    /// Where child `i` of `h` is put when `h` has the size `size` and is laid
    /// out by `layout`; as `default_placement` says where that is `None`.
    pub open spec fn placement_with(
        self,
        h: usize,
        layout: Option<BoxLayout>,
        size: (u32, u32),
        i: int,
    ) -> Option<Placement> {
        match layout {
            Some(layout) => self.box_placement(h, layout, size, i),
            None => self.default_placement(h, i),
        }
    }

    /// Where child `i` of `h` is put when `h` has the size `size`: by the
    /// layout of `h`, or as `default_placement` says where it has none.
    pub open spec fn placement(self, h: usize, size: (u32, u32), i: int) -> Option<Placement> {
        self.placement_with(h, self.base(h).layout, size, i)
    }

    /// The placements that laying out `h` makes, when `h` has the size
    /// `size`: for each visible child in order, its own placement and then
    /// the placements that laying out that child makes, with the size it was
    /// just given. `None` where one of them cannot be made.
    pub open spec fn layout_plan(self, h: usize, size: (u32, u32)) -> Option<Seq<Placement>>
        decreases self.rank_of(h), self.kids(h).len() + 1,
        when self.wf() && self.live(h)
    {
        self.plan_with(h, self.base(h).layout, size, self.kids(h).len() as int)
    }

    /// The placements for the first `i` children of `h` and what lies below
    /// them, when `h` has the size `size` and its children are placed by
    /// `layout`. What lies below a child is laid out by the layout that the
    /// child has.
    pub open spec fn plan_with(
        self,
        h: usize,
        layout: Option<BoxLayout>,
        size: (u32, u32),
        i: int,
    ) -> Option<Seq<Placement>>
        decreases self.rank_of(h), i,
        when self.wf() && self.live(h) && 0 <= i <= self.kids(h).len()
    {
        if i <= 0 {
            Some(Seq::empty())
        } else {
            let c = self.kids(h)[i - 1];
            match self.plan_with(h, layout, size, i - 1) {
                None => None,
                Some(before) => if !self.base(c).visible {
                    Some(before)
                } else {
                    match self.placement_with(h, layout, size, i - 1) {
                        None => None,
                        Some(p) => match self.layout_plan(c, (p.width, p.height)) {
                            None => None,
                            Some(below) => Some(before.push(p) + below),
                        },
                    }
                },
            }
        }
    }

    /// The placements for the first `i` children of `h` and what lies below
    /// them, when `h` has the size `size` and is laid out by its own layout.
    pub open spec fn plan_upto(self, h: usize, size: (u32, u32), i: int) -> Option<Seq<Placement>> {
        self.plan_with(h, self.base(h).layout, size, i)
    }

    /// The tree after the widget of the placement has been given its
    /// position and size.
    pub open spec fn moved(self, p: Placement) -> TreeModel {
        self.with_widget(
            p.widget,
            self.widget(p.widget).with_base(
                WidgetObj { pos: (p.x, p.y), size: (p.width, p.height), ..self.base(p.widget) },
            ),
        )
    }

    /// The tree after the placements have been made, one after the other.
    pub open spec fn placed(self, plan: Seq<Placement>) -> TreeModel
        decreases plan.len(),
    {
        if plan.len() == 0 {
            self
        } else {
            self.placed(plan.drop_last()).moved(plan.last())
        }
    }

    /// No widget asks for a negative size.
    pub proof fn lemma_preferred_size_nonnegative(self, h: usize)
        requires
            self.wf(),
            self.live(h),
        ensures
            self.preferred_size(h).0 >= 0,
            self.preferred_size(h).1 >= 0,
            self.target_size(h).0 >= 0,
            self.target_size(h).1 >= 0,
        decreases self.rank_of(h), self.kids(h).len() + 1,
    {
        match self.widget(h) {
            Widget::Label(label) => {},
            _ => match self.base(h).layout {
                Some(layout) => {
                    self.lemma_box_extent_grows(h, layout, self.kids(h).len() as int);
                },
                None => {},
            },
        }
    }

    /// What a box layout asks for does not shrink as children are added, and
    /// is never less than the margins.
    pub proof fn lemma_box_extent_grows(self, h: usize, layout: BoxLayout, i: int)
        requires
            self.wf(),
            self.live(h),
            0 <= i <= self.kids(h).len(),
        ensures
            self.box_extent(h, layout, i).0 >= 2 * layout.margin,
            self.box_extent(h, layout, i).1 >= 2 * layout.margin + self.header_allowance(
                h,
                layout.margin,
            ),
            self.box_extent(h, layout, i).1 >= 0,
            i > 0 ==> self.box_extent(h, layout, i - 1).0 <= self.box_extent(h, layout, i).0,
            i > 0 ==> self.box_extent(h, layout, i - 1).1 <= self.box_extent(h, layout, i).1,
        decreases self.rank_of(h), i,
    {
        if i > 0 {
            self.lemma_box_extent_grows(h, layout, i - 1);
            let c = self.kids(h)[i - 1];
            if self.base(c).visible {
                self.lemma_preferred_size_nonnegative(c);
            }
        }
    }

    /// What a box layout asks for with some of the children is no more than
    /// what it asks for with all of them.
    pub proof fn lemma_box_extent_bound(self, h: usize, layout: BoxLayout, i: int)
        requires
            self.wf(),
            self.live(h),
            0 <= i <= self.kids(h).len(),
        ensures
            self.box_extent(h, layout, i).0 <= self.box_extent(
                h,
                layout,
                self.kids(h).len() as int,
            ).0,
            self.box_extent(h, layout, i).1 <= self.box_extent(
                h,
                layout,
                self.kids(h).len() as int,
            ).1,
        decreases self.kids(h).len() - i,
    {
        if i < self.kids(h).len() {
            self.lemma_box_extent_bound(h, layout, i + 1);
            self.lemma_box_extent_grows(h, layout, i + 1);
        }
    }

    /// A box layout never moves backwards, and starts at or after 0.
    pub proof fn lemma_cursor_grows(self, h: usize, layout: BoxLayout, i: int)
        requires
            self.wf(),
            self.live(h),
            0 <= i <= self.kids(h).len(),
        ensures
            self.cursor_after(h, layout, i) >= 0,
            i > 0 ==> self.cursor_after(h, layout, i - 1) <= self.cursor_after(h, layout, i),
        decreases i,
    {
        if i > 0 {
            self.lemma_cursor_grows(h, layout, i - 1);
            let c = self.kids(h)[i - 1];
            if self.base(c).visible {
                self.lemma_preferred_size_nonnegative(c);
            }
        }
    }

    /// Where the placements for the first children cannot be made, those for
    /// all children cannot.
    pub proof fn lemma_plan_prefix(
        self,
        h: usize,
        layout: Option<BoxLayout>,
        size: (u32, u32),
        i: int,
    )
        requires
            self.wf(),
            self.live(h),
            0 <= i <= self.kids(h).len(),
            self.plan_with(h, layout, size, i) is None,
        ensures
            self.plan_with(h, layout, size, self.kids(h).len() as int) is None,
        decreases self.kids(h).len() - i,
    {
        if i < self.kids(h).len() {
            self.lemma_plan_prefix(h, layout, size, i + 1);
        }
    }

    /// Every placement of a plan names a widget that has not been destroyed.
    pub proof fn lemma_plan_live(self, h: usize, size: (u32, u32), i: int)
        requires
            self.wf(),
            self.live(h),
            0 <= i <= self.kids(h).len(),
        ensures
            self.plan_upto(h, size, i) matches Some(plan) ==> forall|k: int|
                0 <= k < plan.len() ==> self.live(#[trigger] plan[k].widget),
            i == self.kids(h).len() ==> (self.layout_plan(h, size) matches Some(plan)
                ==> forall|k: int| 0 <= k < plan.len() ==> self.live(#[trigger] plan[k].widget)),
        decreases self.rank_of(h), i,
    {
        if i > 0 {
            self.lemma_plan_live(h, size, i - 1);
            let c = self.kids(h)[i - 1];
            if self.plan_upto(h, size, i) is Some && self.base(c).visible {
                let p = self.placement(h, size, i - 1)->0;
                self.lemma_plan_live(c, (p.width, p.height), self.kids(c).len() as int);
                assert(self.live(c));
                assert(p.widget == c);
            }
        }
    }

    /// Making placements changes what widgets hold, never the links.
    pub proof fn lemma_placed_links(self, plan: Seq<Placement>)
        requires
            self.wf(),
            forall|k: int| 0 <= k < plan.len() ==> self.live(#[trigger] plan[k].widget),
        ensures
            self.same_links(self.placed(plan)),
            self.placed(plan).themes == self.themes,
            self.placed(plan).wf(),
        decreases plan.len(),
    {
        if plan.len() > 0 {
            let before = self.placed(plan.drop_last());
            assert forall|k: int| 0 <= k < plan.drop_last().len() implies self.live(
                #[trigger] plan.drop_last()[k].widget,
            ) by {
                assert(plan.drop_last()[k] == plan[k]);
            }
            self.lemma_placed_links(plan.drop_last());
            let after = before.moved(plan.last());
            assert(self.live(plan[plan.len() - 1].widget));
            assert(before.live(plan.last().widget));
            assert forall|h: usize| #![trigger self.live(h)] self.live(h) == after.live(h) by {
                assert(self.live(h) == before.live(h));
            }
        }
        self.lemma_same_links_wf(self.placed(plan));
    }

    /// Where all children are measurable, the first of them are.
    pub proof fn lemma_measurable_prefix(self, h: usize, i: int)
        requires
            self.wf(),
            self.live(h),
            0 <= i <= self.kids(h).len(),
            !self.measurable_upto(h, i),
        ensures
            !self.measurable_upto(h, self.kids(h).len() as int),
        decreases self.kids(h).len() - i,
    {
        if i < self.kids(h).len() {
            self.lemma_measurable_prefix(h, i + 1);
        }
    }
}

impl BoxLayout {
    /// A layout along the given axis that centres the children across it,
    /// without margin and without spacing.
    pub fn new(orientation: Orientation) -> (layout: BoxLayout)
        ensures
            layout.orientation == orientation,
            layout.alignment == Alignment::Middle,
            layout.margin == 0,
            layout.spacing == 0,
    {
        BoxLayout { orientation, alignment: Alignment::Middle, margin: 0, spacing: 0 }
    }

    pub fn orientation(&self) -> (value: Orientation)
        ensures
            value == self.orientation,
    {
        self.orientation
    }

    pub fn set_orientation(&mut self, new_val: Orientation)
        ensures
            *final(self) == (BoxLayout { orientation: new_val, ..*old(self) }),
    {
        self.orientation = new_val;
    }

    pub fn alignment(&self) -> (value: Alignment)
        ensures
            value == self.alignment,
    {
        self.alignment
    }

    pub fn set_alignment(&mut self, new_val: Alignment)
        ensures
            *final(self) == (BoxLayout { alignment: new_val, ..*old(self) }),
    {
        self.alignment = new_val;
    }

    pub fn margin(&self) -> (value: u32)
        ensures
            value == self.margin,
    {
        self.margin
    }

    pub fn set_margin(&mut self, new_val: u32)
        ensures
            *final(self) == (BoxLayout { margin: new_val, ..*old(self) }),
    {
        self.margin = new_val;
    }

    pub fn spacing(&self) -> (value: u32)
        ensures
            value == self.spacing,
    {
        self.spacing
    }

    pub fn set_spacing(&mut self, new_val: u32)
        ensures
            *final(self) == (BoxLayout { spacing: new_val, ..*old(self) }),
    {
        self.spacing = new_val;
    }

    /// The size that this layout asks for on behalf of `widget`, or `None`
    /// where that size, or the preferred size of a visible child, cannot
    /// stand in a `u32`.
    pub fn preferred_size(&self, tree: &WidgetTree, widget: usize) -> (size: Option<(u32, u32)>)
        requires
            tree@.wf(),
            tree@.live(widget),
        ensures
            match size {
                Some(s) => {
                    &&& s.0 == tree@.box_extent(widget, *self, tree@.kids(widget).len() as int).0
                    &&& s.1 == tree@.box_extent(widget, *self, tree@.kids(widget).len() as int).1
                    &&& tree@.measurable_upto(widget, tree@.kids(widget).len() as int)
                },
                None => !(fits(tree@.box_extent(widget, *self, tree@.kids(widget).len() as int))
                    && tree@.measurable_upto(widget, tree@.kids(widget).len() as int)),
            },
        decreases tree@.rank_of(widget), 0int,
    {
        let children = tree.children(widget);
        let ghost n = children@.len() as int;
        proof {
            tree@.lemma_box_extent_bound(widget, *self, 0);
            tree@.lemma_box_extent_grows(widget, *self, 0);
        }
        let m2 = match self.margin.checked_mul(2) {
            Some(v) => v,
            None => {
                return None;
            },
        };
        let start1 = match tree.widget(widget).as_window() {
            Some(_) => match tree.theme_of(widget) {
                Some(t) => match (m2 - self.margin / 2).checked_add(t.window_header_height) {
                    Some(v) => v,
                    None => {
                        return None;
                    },
                },
                None => m2,
            },
            None => m2,
        };
        let mut size0 = m2;
        let mut size1 = start1;
        let mut first = true;
        let mut i: usize = 0;
        while i < children.len()
            invariant
                tree@.wf(),
                tree@.live(widget),
                children@ == tree@.kids(widget),
                n == children@.len(),
                0 <= i <= n,
                m2 == 2 * self.margin,
                size0 == tree@.box_extent(widget, *self, i as int).0,
                size1 == tree@.box_extent(widget, *self, i as int).1,
                first == !tree@.seen_visible(widget, i as int),
                tree@.measurable_upto(widget, i as int),
            decreases n - i,
        {
            let c = children[i];
            proof {
                assert(c == tree@.kids(widget)[i as int]);
                assert(tree@.live(c));
                assert(tree@.parent(c) == Some(widget));
                tree@.lemma_box_extent_bound(widget, *self, i as int + 1);
                tree@.lemma_box_extent_grows(widget, *self, i as int + 1);
                if tree@.base(c).visible {
                    tree@.lemma_preferred_size_nonnegative(c);
                }
            }
            if tree.widget(c).base_ref().visible {
                let wanted = match tree.checked_preferred_size(c) {
                    Some(w) => w,
                    None => {
                        proof {
                            tree@.lemma_measurable_prefix(widget, i as int + 1);
                        }
                        return None;
                    },
                };
                let fixed = tree.widget(c).base_ref().fixed_size;
                let target0 = if fixed.0 > 0 {
                    fixed.0
                } else {
                    wanted.0
                };
                let target1 = if fixed.1 > 0 {
                    fixed.1
                } else {
                    wanted.1
                };
                let gap = if first {
                    0
                } else {
                    self.spacing
                };
                match self.orientation {
                    Orientation::Horizontal => {
                        let along = match size0.checked_add(gap) {
                            Some(v) => v.checked_add(target0),
                            None => None,
                        };
                        let across = target1.checked_add(m2);
                        match (along, across) {
                            (Some(a), Some(b)) => {
                                size0 = a;
                                if b > size1 {
                                    size1 = b;
                                }
                            },
                            _ => {
                                return None;
                            },
                        }
                    },
                    Orientation::Vertical => {
                        let along = match size1.checked_add(gap) {
                            Some(v) => v.checked_add(target1),
                            None => None,
                        };
                        let across = target0.checked_add(m2);
                        match (along, across) {
                            (Some(a), Some(b)) => {
                                size1 = a;
                                if b > size0 {
                                    size0 = b;
                                }
                            },
                            _ => {
                                return None;
                            },
                        }
                    },
                }
                first = false;
            }
            i = i + 1;
        }
        Some((size0, size1))
    }
}

impl BoxLayout {
    /// Where this layout puts child `i` of `widget`, which is visible, when
    /// the layout has come as far as `cursor` and `first` says that no
    /// visible child came before.
    fn place_child(
        &self,
        tree: &WidgetTree,
        widget: usize,
        size: (u32, u32),
        i: usize,
        cursor: Option<u32>,
        first: bool,
    ) -> (placement: Option<Placement>)
        requires
            tree@.wf(),
            tree@.live(widget),
            i < tree@.kids(widget).len(),
            match cursor {
                Some(v) => v == tree@.cursor_after(widget, *self, i as int),
                None => tree@.cursor_after(widget, *self, i as int) > u32::MAX,
            },
            first == !tree@.seen_visible(widget, i as int),
        ensures
            placement == tree@.box_placement(widget, *self, size, i as int),
    {
        let c = tree.children(widget)[i];
        proof {
            assert(c == tree@.kids(widget)[i as int]);
            assert(tree@.live(c));
            tree@.lemma_cursor_grows(widget, *self, i as int);
            tree@.lemma_preferred_size_nonnegative(c);
        }
        let fixed_here = tree.widget(widget).base_ref().fixed_size;
        let container = (
            if fixed_here.0 > 0 {
                fixed_here.0
            } else {
                size.0
            },
            if fixed_here.1 > 0 {
                fixed_here.1
            } else {
                size.1
            },
        );
        let wanted = match tree.checked_preferred_size(c) {
            Some(w) => w,
            None => {
                return None;
            },
        };
        let fixed = tree.widget(c).base_ref().fixed_size;
        let target0 = if fixed.0 > 0 {
            fixed.0
        } else {
            wanted.0
        };
        let target1 = if fixed.1 > 0 {
            fixed.1
        } else {
            wanted.1
        };
        let gap = if first {
            0
        } else {
            self.spacing
        };
        let along = match cursor {
            Some(v) => match v.checked_add(gap) {
                Some(a) => a,
                None => {
                    return None;
                },
            },
            None => {
                return None;
            },
        };
        let (room, want, fix) = match self.orientation {
            Orientation::Horizontal => (container.1, target1, fixed.1),
            Orientation::Vertical => (container.0, target0, fixed.0),
        };
        let across = match self.alignment {
            Alignment::Minimum => self.margin,
            Alignment::Fill => self.margin,
            Alignment::Middle => {
                if room < want {
                    return None;
                }
                (room - want) / 2
            },
            Alignment::Maximum => {
                if room < want || room - want < self.margin {
                    return None;
                }
                room - want - self.margin
            },
        };
        let extent = match self.alignment {
            Alignment::Fill => if fix > 0 {
                fix
            } else {
                room
            },
            _ => want,
        };
        Some(
            match self.orientation {
                Orientation::Horizontal => Placement {
                    widget: c,
                    x: along,
                    y: across,
                    width: target0,
                    height: extent,
                },
                Orientation::Vertical => Placement {
                    widget: c,
                    x: across,
                    y: along,
                    width: extent,
                    height: target1,
                },
            },
        )
    }

    /// Works out where this layout puts the visible children of `widget`,
    /// and what lies below them, when `widget` has the size `size`. The
    /// children are placed by this layout, whatever layout `widget` holds;
    /// what lies below each child is laid out as that child says. The
    /// placements are added to `plan` in the order in which they are to be
    /// made; the tree is not changed. Returns `false` where one of them
    /// cannot be made, and `plan` then holds no more than a part of them.
    pub fn perform_layout(
        &self,
        tree: &WidgetTree,
        widget: usize,
        size: (u32, u32),
        plan: &mut Vec<Placement>,
    ) -> (ok: bool)
        requires
            tree@.wf(),
            tree@.live(widget),
        ensures
            match tree@.plan_with(widget, Some(*self), size, tree@.kids(widget).len() as int) {
                Some(p) => ok && final(plan)@ == old(plan)@ + p,
                None => !ok,
            },
        decreases tree@.rank_of(widget), 0int,
    {
        let children = tree.children(widget);
        let ghost n = children@.len() as int;
        let ghost start = plan@;
        let mut cursor: Option<u32> = match tree.widget(widget).as_window() {
            Some(_) => match tree.theme_of(widget) {
                Some(t) => (self.margin - self.margin / 2).checked_add(t.window_header_height),
                None => Some(self.margin),
            },
            None => Some(self.margin),
        };
        let mut first = true;
        let mut i: usize = 0;
        proof {
            assert(start + Seq::<Placement>::empty() =~= start);
        }
        while i < children.len()
            invariant
                tree@.wf(),
                tree@.live(widget),
                children@ == tree@.kids(widget),
                n == children@.len(),
                0 <= i <= n,
                match cursor {
                    Some(v) => v == tree@.cursor_after(widget, *self, i as int),
                    None => tree@.cursor_after(widget, *self, i as int) > u32::MAX,
                },
                first == !tree@.seen_visible(widget, i as int),
                tree@.plan_with(widget, Some(*self), size, i as int) is Some,
                plan@ == start + tree@.plan_with(widget, Some(*self), size, i as int)->0,
            decreases n - i,
        {
            let c = children[i];
            let ghost before = tree@.plan_with(widget, Some(*self), size, i as int)->0;
            proof {
                assert(c == tree@.kids(widget)[i as int]);
                assert(tree@.live(c));
                assert(tree@.parent(c) == Some(widget));
                tree@.lemma_cursor_grows(widget, *self, i as int);
                if tree@.base(c).visible {
                    tree@.lemma_preferred_size_nonnegative(c);
                }
                if tree@.plan_with(widget, Some(*self), size, i as int + 1) is None {
                    tree@.lemma_plan_prefix(widget, Some(*self), size, i as int + 1);
                }
            }
            if tree.widget(c).base_ref().visible {
                let placement = match self.place_child(tree, widget, size, i, cursor, first) {
                    Some(p) => p,
                    None => {
                        return false;
                    },
                };
                proof {
                    assert(tree@.placement_with(widget, Some(*self), size, i as int) == Some(placement));
                }
                plan.push(placement);
                if !tree.plan_layout(c, (placement.width, placement.height), plan) {
                    return false;
                }
                proof {
                    let below = tree@.layout_plan(c, (placement.width, placement.height))->0;
                    assert(tree@.plan_with(widget, Some(*self), size, i as int + 1) == Some(
                        before.push(placement) + below,
                    ));
                    assert(plan@ =~= start + (before.push(placement) + below));
                }
                cursor = match self.orientation {
                    Orientation::Horizontal => placement.x.checked_add(placement.width),
                    Orientation::Vertical => placement.y.checked_add(placement.height),
                };
                first = false;
            }
            i = i + 1;
        }
        true
    }
}

impl WidgetTree {
    /// Works out the placements that laying out `h` makes when `h` has the
    /// size `size`, and adds them to `plan` in the order in which they are to
    /// be made; the tree is not changed. Returns `false` where one of them
    /// cannot be made, and `plan` then holds no more than a part of them.
    pub fn plan_layout(&self, h: usize, size: (u32, u32), plan: &mut Vec<Placement>) -> (ok: bool)
        requires
            self@.wf(),
            self@.live(h),
        ensures
            match self@.layout_plan(h, size) {
                Some(p) => ok && final(plan)@ == old(plan)@ + p,
                None => !ok,
            },
        decreases self@.rank_of(h), 1int,
    {
        match self.widget(h).base_ref().layout {
            Some(layout) => layout.perform_layout(self, h, size, plan),
            None => {
                let children = self.children(h);
                let ghost n = children@.len() as int;
                let ghost start = plan@;
                let mut i: usize = 0;
                proof {
                    assert(start + Seq::<Placement>::empty() =~= start);
                }
                while i < children.len()
                    invariant
                        self@.wf(),
                        self@.live(h),
                        self@.base(h).layout is None,
                        children@ == self@.kids(h),
                        n == children@.len(),
                        0 <= i <= n,
                        self@.plan_upto(h, size, i as int) is Some,
                        plan@ == start + self@.plan_upto(h, size, i as int)->0,
                    decreases n - i,
                {
                    let c = children[i];
                    let ghost before = self@.plan_upto(h, size, i as int)->0;
                    proof {
                        assert(c == self@.kids(h)[i as int]);
                        assert(self@.live(c));
                        assert(self@.parent(c) == Some(h));
                        if self@.plan_upto(h, size, i as int + 1) is None {
                            self@.lemma_plan_prefix(h, None, size, i as int + 1);
                        }
                    }
                    let child = self.widget(c).base_ref();
                    if child.visible {
                        let wanted = match self.checked_preferred_size(c) {
                            Some(w) => w,
                            None => {
                                return false;
                            },
                        };
                        let placement = Placement {
                            widget: c,
                            x: child.pos.0,
                            y: child.pos.1,
                            width: if child.fixed_size.0 > 0 {
                                child.fixed_size.0
                            } else {
                                wanted.0
                            },
                            height: if child.fixed_size.1 > 0 {
                                child.fixed_size.1
                            } else {
                                wanted.1
                            },
                        };
                        proof {
                            assert(self@.default_placement(h, i as int) == Some(placement));
                            assert(self@.placement(h, size, i as int) == Some(placement));
                        }
                        plan.push(placement);
                        if !self.plan_layout(c, (placement.width, placement.height), plan) {
                            return false;
                        }
                        proof {
                            let below = self@.layout_plan(
                                c,
                                (placement.width, placement.height),
                            )->0;
                            assert(self@.plan_upto(h, size, i as int + 1) == Some(
                                before.push(placement) + below,
                            ));
                            assert(plan@ =~= start + (before.push(placement) + below));
                        }
                    }
                    i = i + 1;
                }
                true
            },
        }
    }

    /// Gives each widget of the plan its position and size, in order.
    pub fn apply_placements(&mut self, plan: &Vec<Placement>)
        requires
            old(self)@.wf(),
            forall|k: int| 0 <= k < plan@.len() ==> old(self)@.live(#[trigger] plan@[k].widget),
        ensures
            final(self)@ == old(self)@.placed(plan@),
            final(self)@.wf(),
    {
        let mut k: usize = 0;
        while k < plan.len()
            invariant
                0 <= k <= plan@.len(),
                old(self)@.wf(),
                forall|j: int| 0 <= j < plan@.len() ==> old(self)@.live(#[trigger] plan@[j].widget),
                self@ == old(self)@.placed(plan@.take(k as int)),
            decreases plan@.len() - k,
        {
            let p = plan[k];
            proof {
                let done = plan@.take(k as int);
                assert forall|j: int| 0 <= j < done.len() implies old(self)@.live(
                    #[trigger] done[j].widget,
                ) by {
                    assert(done[j] == plan@[j]);
                }
                old(self)@.lemma_placed_links(done);
                assert(old(self)@.live(plan@[k as int].widget));
                assert(self@.live(p.widget));
                assert(plan@.take(k as int + 1).drop_last() =~= done);
                assert(plan@.take(k as int + 1).last() == p);
            }
            let widget = self.widget_mut(p.widget);
            let base = widget.base_mut();
            base.pos = (p.x, p.y);
            base.size = (p.width, p.height);
            k = k + 1;
        }
        proof {
            assert(plan@.take(plan@.len() as int) =~= plan@);
            old(self)@.lemma_placed_links(plan@);
        }
    }

    /// Lays out what lies below the widget `h`: each visible child gets its
    /// place from the layout of its parent, or, where the parent has none,
    /// keeps its position and takes its target size; then the child's own
    /// children are laid out in the same way. Every preferred size is taken
    /// from the tree as it is before the first widget moves. Returns `false`,
    /// and changes nothing, where a size or position cannot stand in a `u32`.
    pub fn perform_layout(&mut self, h: usize) -> (done: bool)
        requires
            old(self)@.wf(),
            old(self)@.live(h),
        ensures
            final(self)@.wf(),
            old(self)@.same_links(final(self)@),
            final(self)@.themes == old(self)@.themes,
            match old(self)@.layout_plan(h, old(self)@.base(h).size) {
                Some(plan) => done && final(self)@ == old(self)@.placed(plan),
                None => !done && final(self)@ == old(self)@,
            },
            done ==> forall|n: usize|
                n < old(self)@.len() && !old(self)@.laid_out(h, n)
                    ==> #[trigger] final(self)@.widgets[n as int] == old(self)@.widgets[n as int],
            done ==> forall|n: usize|
                #![trigger final(self)@.widget(n)]
                n < old(self)@.len() && old(self)@.laid_out(h, n) ==> {
                    &&& old(self)@.placement_of(h, old(self)@.base(h).size, n) is Some
                    &&& final(self)@.widget(n) == old(self)@.widget(n).placed_at(
                        old(self)@.placement_of(h, old(self)@.base(h).size, n)->0,
                    )
                },
    {
        let size = self.widget(h).base_ref().size;
        let mut plan: Vec<Placement> = Vec::new();
        if !self.plan_layout(h, size, &mut plan) {
            return false;
        }
        proof {
            assert(Seq::<Placement>::empty() + self@.layout_plan(h, size)->0 =~= self@.layout_plan(
                h,
                size,
            )->0);
            self@.lemma_plan_live(h, size, self@.kids(h).len() as int);
            self@.lemma_placed_links(plan@);
            assert forall|n: usize| n < self@.len() implies (self@.laid_out(h, n)
                ==> self@.placement_of(h, size, n) is Some && self@.placed(plan@).widget(n)
                == self@.widget(n).placed_at(self@.placement_of(h, size, n)->0)) && (
            !self@.laid_out(h, n) ==> self@.placed(plan@).widgets[n as int]
                == self@.widgets[n as int]) by {
                self@.lemma_layout_result(h, size, n);
            }
        }
        self.apply_placements(&plan);
        true
    }

    /// The size that the widget `h` asks for, or `None` where that size
    /// cannot stand in a `u32`.
    pub fn checked_preferred_size(&self, h: usize) -> (size: Option<(u32, u32)>)
        requires
            self@.wf(),
            self@.live(h),
        ensures
            size is Some <==> self@.measurable(h),
            size matches Some(s) ==> s.0 == self@.preferred_size(h).0 && s.1
                == self@.preferred_size(h).1,
        decreases self@.rank_of(h), 1int,
    {
        match self.widget(h) {
            Widget::Label(label) => Some(label.preferred_size(self.theme_of(h))),
            other => {
                let base = other.base_ref();
                match base.layout {
                    Some(layout) => layout.preferred_size(self, h),
                    None => Some(base.size),
                }
            },
        }
    }

    /// The size that the widget `h` asks for.
    pub fn preferred_size(&self, h: usize) -> (size: (u32, u32))
        requires
            self@.wf(),
            self@.live(h),
            self@.measurable(h),
        ensures
            size.0 == self@.preferred_size(h).0,
            size.1 == self@.preferred_size(h).1,
    {
        match self.checked_preferred_size(h) {
            Some(size) => size,
            None => unreached(),
        }
    }
}

} // verus!
