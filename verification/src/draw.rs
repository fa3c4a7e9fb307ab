use crate::common::Color;
use crate::label::Label;
use crate::screen::Screen;
use crate::tree::{TreeModel, WidgetTree};
use crate::widget::Widget;
use vstd::prelude::*;

verus! {

/// An order to paint the caption of a label.
#[derive(Clone, Copy, Debug)]
pub struct TextDraw {
    /// The label whose caption and font are to be used.
    pub widget: usize,
    pub x: u32,
    pub y: u64,
    /// The width at which the text is broken into lines; `None` for a single
    /// line, which is centred on `y`.
    pub wrap: Option<u32>,
    pub font_size: u32,
    pub color: Color,
}

/// What is painted in one frame.
#[derive(Debug)]
pub struct Frame {
    pub width: u32,
    pub height: u32,
    /// The painting orders, in the order in which they are to be carried
    /// out.
    pub texts: Vec<TextDraw>,
}

impl Label {
    /// How the label with the handle `widget` paints its caption in the given
    /// font size: broken into lines from its position where its width is
    /// fixed, else on one line from the middle of its left edge.
    pub open spec fn spec_text_draw(&self, widget: usize, font_size: u32) -> TextDraw {
        TextDraw {
            widget,
            x: self.widget.pos.0,
            y: if self.widget.fixed_size.0 > 0 {
                self.widget.pos.1 as u64
            } else {
                (self.widget.pos.1 + self.widget.size.1 / 2) as u64
            },
            wrap: if self.widget.fixed_size.0 > 0 {
                Some(self.widget.fixed_size.0)
            } else {
                None
            },
            font_size,
            color: Color { r: self.color.0, g: self.color.1, b: self.color.2, a: self.color.3 },
        }
    }

    /// How the label with the handle `widget` paints its caption in the given
    /// font size.
    pub fn text_draw(&self, widget: usize, font_size: u32) -> (order: TextDraw)
        ensures
            order == self.spec_text_draw(widget, font_size),
    {
        let boxed = self.widget.fixed_size.0 > 0;
        TextDraw {
            widget,
            x: self.widget.pos.0,
            y: if boxed {
                self.widget.pos.1 as u64
            } else {
                self.widget.pos.1 as u64 + (self.widget.size.1 / 2) as u64
            },
            wrap: if boxed {
                Some(self.widget.fixed_size.0)
            } else {
                None
            },
            font_size,
            color: Color { r: self.color.0, g: self.color.1, b: self.color.2, a: self.color.3 },
        }
    }
}

impl TreeModel {
    /// What the widget `h` paints of itself: a label its caption, any other
    /// widget nothing.
    pub open spec fn own_draw(self, h: usize) -> Seq<TextDraw> {
        match self.widget(h) {
            Widget::Label(label) => seq![label.spec_text_draw(h, self.font_size(h))],
            _ => Seq::empty(),
        }
    }

    /// The painting orders for the widget `h`: those for each of its
    /// children, in order, and then its own.
    pub open spec fn draw_list(self, h: usize) -> Seq<TextDraw>
        decreases self.rank_of(h), self.kids(h).len() + 1,
        when self.wf() && self.live(h)
    {
        self.draw_list_upto(h, self.kids(h).len() as int) + self.own_draw(h)
    }

    /// The painting orders for the first `i` children of `h`.
    pub open spec fn draw_list_upto(self, h: usize, i: int) -> Seq<TextDraw>
        decreases self.rank_of(h), i,
        when self.wf() && self.live(h) && 0 <= i <= self.kids(h).len()
    {
        if i <= 0 {
            Seq::empty()
        } else {
            self.draw_list_upto(h, i - 1) + self.draw_list(self.kids(h)[i - 1])
        }
    }
}

impl WidgetTree {
    /// Adds the painting orders for the widget `h` to `orders`: those for
    /// each of its children, in order, and then its own.
    pub fn draw(&self, h: usize, orders: &mut Vec<TextDraw>)
        requires
            self@.wf(),
            self@.live(h),
        ensures
            final(orders)@ == old(orders)@ + self@.draw_list(h),
        decreases self@.rank_of(h),
    {
        let ghost start = orders@;
        let children = self.children(h);
        let mut i: usize = 0;
        proof {
            assert(start + Seq::<TextDraw>::empty() =~= start);
        }
        while i < children.len()
            invariant
                self@.wf(),
                self@.live(h),
                children@ == self@.kids(h),
                0 <= i <= children@.len(),
                orders@ == start + self@.draw_list_upto(h, i as int),
            decreases children@.len() - i,
        {
            let c = children[i];
            let ghost before = self@.draw_list_upto(h, i as int);
            proof {
                assert(c == self@.kids(h)[i as int]);
                assert(self@.live(c));
                assert(self@.parent(c) == Some(h));
            }
            self.draw(c, orders);
            proof {
                assert(orders@ =~= start + (before + self@.draw_list(c)));
            }
            i = i + 1;
        }
        let ghost below = self@.draw_list_upto(h, self@.kids(h).len() as int);
        match self.widget(h) {
            Widget::Label(label) => {
                let order = label.text_draw(h, self.font_size(h));
                orders.push(order);
                proof {
                    assert(orders@ =~= start + (below + seq![order]));
                }
            },
            _ => {
                proof {
                    assert(orders@ =~= start + (below + Seq::<TextDraw>::empty()));
                }
            },
        }
    }
}

impl Screen {
    /// What is painted in one frame of this screen, which has the handle
    /// `handle` in the tree: a frame of the screen's size with the painting
    /// orders of everything below it; `None` where the screen is not visible.
    pub fn draw_widgets(&self, tree: &WidgetTree, handle: usize) -> (frame: Option<Frame>)
        requires
            tree@.wf(),
            tree@.live(handle),
            tree@.widget(handle) == Widget::Screen(*self),
        ensures
            frame is Some == self.widget.visible,
            frame matches Some(f) ==> {
                &&& f.width == self.widget.size.0
                &&& f.height == self.widget.size.1
                &&& f.texts@ == tree@.draw_list(handle)
            },
    {
        if !self.widget.visible {
            return None;
        }
        let mut texts: Vec<TextDraw> = Vec::new();
        tree.draw(handle, &mut texts);
        proof {
            assert(Seq::<TextDraw>::empty() + tree@.draw_list(handle) =~= tree@.draw_list(handle));
        }
        Some(Frame { width: self.widget.size.0, height: self.widget.size.1, texts })
    }
}

} // verus!
