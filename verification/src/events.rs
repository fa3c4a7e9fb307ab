use crate::common::MouseButton;
use crate::tree::{TreeModel, WidgetTree};
use crate::widget::WidgetObj;
use vstd::prelude::*;

verus! {

/// A screen was told that a widget asks for the keyboard focus.
#[derive(Clone, Copy, Debug)]
pub struct FocusRequest {
    pub widget: usize,
    pub screen: usize,
}

/// The pointer has entered or left a widget.
#[derive(Clone, Copy, Debug)]
pub struct HoverChange {
    pub widget: usize,
    pub entered: bool,
}

impl TreeModel {
    /// What the widget `h` does itself with a button event that none of its
    /// children has taken: where the primary button went down and `h` has
    /// not the focus, it asks for the focus.
    pub open spec fn own_focus_request(self, h: usize, button: MouseButton, down: bool) -> Seq<
        FocusRequest,
    > {
        if button == MouseButton::Left && down && !self.base(h).focused {
            match self.focus_screen(h) {
                Some(screen) => seq![FocusRequest { widget: h, screen }],
                None => Seq::empty(),
            }
        } else {
            Seq::empty()
        }
    }

    /// The focus requests that a button event at the point makes in `h` and
    /// below it. The point is given in the coordinates of the parent of `h`.
    /// Every visible child whose rectangle holds the point, moved into the
    /// coordinates of `h`, gets the event, in order; then `h` itself.
    pub open spec fn button_requests(
        self,
        h: usize,
        x: int,
        y: int,
        button: MouseButton,
        down: bool,
    ) -> Seq<FocusRequest>
        decreases self.rank_of(h), self.kids(h).len() + 1,
        when self.wf() && self.live(h)
    {
        self.button_requests_upto(
            h,
            x - self.base(h).pos.0,
            y - self.base(h).pos.1,
            button,
            down,
            self.kids(h).len() as int,
        ) + self.own_focus_request(h, button, down)
    }

    /// The focus requests that the first `i` children of `h` make, and what
    /// lies below them. The point is given in the coordinates of `h`.
    pub open spec fn button_requests_upto(
        self,
        h: usize,
        x: int,
        y: int,
        button: MouseButton,
        down: bool,
        i: int,
    ) -> Seq<FocusRequest>
        decreases self.rank_of(h), i,
        when self.wf() && self.live(h) && 0 <= i <= self.kids(h).len()
    {
        if i <= 0 {
            Seq::empty()
        } else {
            let c = self.kids(h)[i - 1];
            let before = self.button_requests_upto(h, x, y, button, down, i - 1);
            if self.base(c).visible && self.base(c).covers(x, y) {
                before + self.button_requests(c, x, y, button, down)
            } else {
                before
            }
        }
    }

    /// The changes that a move of the pointer to the point, by `(dx, dy)`,
    /// makes in the widgets below `h`. The point is given in the coordinates
    /// of the parent of `h`.
    pub open spec fn motion_changes(self, h: usize, x: int, y: int, dx: int, dy: int) -> Seq<
        HoverChange,
    >
        decreases self.rank_of(h), self.kids(h).len() + 1,
        when self.wf() && self.live(h)
    {
        self.motion_changes_upto(
            h,
            x - self.base(h).pos.0,
            y - self.base(h).pos.1,
            dx,
            dy,
            self.kids(h).len() as int,
        )
    }

    /// The changes for the first `i` children of `h` and what lies below
    /// them. The point is given in the coordinates of `h`. A visible child
    /// that holds the point now and did not before the move, or the other
    /// way round, is entered or left; one that holds it now or held it
    /// before gets the event in turn.
    pub open spec fn motion_changes_upto(
        self,
        h: usize,
        x: int,
        y: int,
        dx: int,
        dy: int,
        i: int,
    ) -> Seq<HoverChange>
        decreases self.rank_of(h), i,
        when self.wf() && self.live(h) && 0 <= i <= self.kids(h).len()
    {
        if i <= 0 {
            Seq::empty()
        } else {
            let c = self.kids(h)[i - 1];
            let before = self.motion_changes_upto(h, x, y, dx, dy, i - 1);
            if !self.base(c).visible {
                before
            } else {
                let now = self.base(c).covers(x, y);
                let then = self.base(c).covers(x - dx, y - dy);
                let crossed = if now != then {
                    before.push(HoverChange { widget: c, entered: now })
                } else {
                    before
                };
                if now || then {
                    crossed + self.motion_changes(c, x, y, dx, dy)
                } else {
                    crossed
                }
            }
        }
    }

    /// The tree after the pointer has entered or left the widget.
    pub open spec fn hover(self, change: HoverChange) -> TreeModel {
        self.with_widget(
            change.widget,
            self.widget(change.widget).with_base(
                WidgetObj { mouse_focus: change.entered, ..self.base(change.widget) },
            ),
        )
    }

    /// The tree after the changes have been made, one after the other.
    pub open spec fn hovered(self, changes: Seq<HoverChange>) -> TreeModel
        decreases changes.len(),
    {
        if changes.len() == 0 {
            self
        } else {
            self.hovered(changes.drop_last()).hover(changes.last())
        }
    }

    /// A point that is left of the origin, and was so before the move, is in
    /// no child and was in none; so is one that is and was above it.
    pub proof fn lemma_motion_outside(self, h: usize, x: int, y: int, dx: int, dy: int, i: int)
        requires
            self.wf(),
            self.live(h),
            0 <= i <= self.kids(h).len(),
            (x < 0 && x - dx < 0) || (y < 0 && y - dy < 0),
        ensures
            self.motion_changes_upto(h, x, y, dx, dy, i) == Seq::<HoverChange>::empty(),
        decreases i,
    {
        if i > 0 {
            self.lemma_motion_outside(h, x, y, dx, dy, i - 1);
        }
    }

    /// A point left of or above the origin is in no child.
    pub proof fn lemma_button_outside(
        self,
        h: usize,
        x: int,
        y: int,
        button: MouseButton,
        down: bool,
        i: int,
    )
        requires
            self.wf(),
            self.live(h),
            0 <= i <= self.kids(h).len(),
            x < 0 || y < 0,
        ensures
            self.button_requests_upto(h, x, y, button, down, i) == Seq::<FocusRequest>::empty(),
        decreases i,
    {
        if i > 0 {
            self.lemma_button_outside(h, x, y, button, down, i - 1);
        }
    }

    /// Whether every change names a widget that has not been destroyed.
    pub open spec fn changes_live(self, changes: Seq<HoverChange>) -> bool {
        forall|k: int| 0 <= k < changes.len() ==> self.live(#[trigger] changes[k].widget)
    }

    /// Every change that a move of the pointer makes names a widget that has
    /// not been destroyed.
    pub proof fn lemma_motion_live(self, h: usize, x: int, y: int, dx: int, dy: int, i: int)
        requires
            self.wf(),
            self.live(h),
            0 <= i <= self.kids(h).len(),
        ensures
            self.changes_live(self.motion_changes_upto(h, x, y, dx, dy, i)),
        decreases self.rank_of(h), i,
    {
        if i > 0 {
            self.lemma_motion_live(h, x, y, dx, dy, i - 1);
            let c = self.kids(h)[i - 1];
            let before = self.motion_changes_upto(h, x, y, dx, dy, i - 1);
            assert(self.live(c));
            if self.base(c).visible {
                let now = self.base(c).covers(x, y);
                let then = self.base(c).covers(x - dx, y - dy);
                let crossed = if now != then {
                    before.push(HoverChange { widget: c, entered: now })
                } else {
                    before
                };
                assert(self.changes_live(crossed)) by {
                    assert forall|k: int| 0 <= k < crossed.len() implies self.live(
                        #[trigger] crossed[k].widget,
                    ) by {
                        if k < before.len() {
                            assert(crossed[k] == before[k]);
                        }
                    }
                }
                if now || then {
                    self.lemma_motion_live(
                        c,
                        x - self.base(c).pos.0,
                        y - self.base(c).pos.1,
                        dx,
                        dy,
                        self.kids(c).len() as int,
                    );
                    let below = self.motion_changes(c, x, y, dx, dy);
                    let all = crossed + below;
                    assert forall|k: int| 0 <= k < all.len() implies self.live(
                        #[trigger] all[k].widget,
                    ) by {
                        if k < crossed.len() {
                            assert(all[k] == crossed[k]);
                        } else {
                            assert(all[k] == below[k - crossed.len()]);
                        }
                    }
                }
            }
        }
    }

    /// Entering and leaving changes what widgets hold, never the links.
    pub proof fn lemma_hovered_links(self, changes: Seq<HoverChange>)
        requires
            self.wf(),
            forall|k: int| 0 <= k < changes.len() ==> self.live(#[trigger] changes[k].widget),
        ensures
            self.same_links(self.hovered(changes)),
            self.hovered(changes).themes == self.themes,
            self.hovered(changes).wf(),
        decreases changes.len(),
    {
        if changes.len() > 0 {
            let before = self.hovered(changes.drop_last());
            assert forall|k: int| 0 <= k < changes.drop_last().len() implies self.live(
                #[trigger] changes.drop_last()[k].widget,
            ) by {
                assert(changes.drop_last()[k] == changes[k]);
            }
            self.lemma_hovered_links(changes.drop_last());
            let after = before.hover(changes.last());
            assert(self.live(changes[changes.len() - 1].widget));
            assert(before.live(changes.last().widget));
            assert forall|h: usize| #![trigger self.live(h)] self.live(h) == after.live(h) by {
                assert(self.live(h) == before.live(h));
            }
        }
        self.lemma_same_links_wf(self.hovered(changes));
    }
}

impl WidgetTree {
    /// A button of the pointing device went down or up at `p`, which is given
    /// in the coordinates of the parent of `h`. Every visible child of `h`
    /// that holds the point gets the event, in order, until one takes it;
    /// where none does, and the primary button went down while `h` has not
    /// the focus, `h` asks for the focus. The requests that reached a screen
    /// are added to `requests`. Returns whether a widget took the event,
    /// which no widget of the four kinds does.
    pub fn mouse_button_event(
        &self,
        h: usize,
        p: (u32, u32),
        button: MouseButton,
        down: bool,
        modifiers: u16,
        requests: &mut Vec<FocusRequest>,
    ) -> (handled: bool)
        requires
            self@.wf(),
            self@.live(h),
        ensures
            !handled,
            final(requests)@ == old(requests)@ + self@.button_requests(
                h,
                p.0 as int,
                p.1 as int,
                button,
                down,
            ),
        decreases self@.rank_of(h),
    {
        let here = self.widget(h).base_ref();
        let ghost start = requests@;
        let ghost cx = p.0 - here.pos.0;
        let ghost cy = p.1 - here.pos.1;
        let ghost n = self@.kids(h).len() as int;
        if p.0 >= here.pos.0 && p.1 >= here.pos.1 {
            let q = (p.0 - here.pos.0, p.1 - here.pos.1);
            let children = self.children(h);
            let mut i: usize = 0;
            proof {
                assert(start + Seq::<FocusRequest>::empty() =~= start);
            }
            while i < children.len()
                invariant
                    self@.wf(),
                    self@.live(h),
                    children@ == self@.kids(h),
                    0 <= i <= children@.len(),
                    q.0 == cx,
                    q.1 == cy,
                    requests@ == start + self@.button_requests_upto(
                        h,
                        cx,
                        cy,
                        button,
                        down,
                        i as int,
                    ),
                decreases children@.len() - i,
            {
                let c = children[i];
                let ghost before = self@.button_requests_upto(h, cx, cy, button, down, i as int);
                proof {
                    assert(c == self@.kids(h)[i as int]);
                    assert(self@.live(c));
                    assert(self@.parent(c) == Some(h));
                }
                let child = self.widget(c);
                if child.base_ref().visible && child.contains(q) {
                    if self.mouse_button_event(c, q, button, down, modifiers, requests) {
                        return true;
                    }
                    proof {
                        assert(requests@ =~= start + (before + self@.button_requests(
                            c,
                            cx,
                            cy,
                            button,
                            down,
                        )));
                    }
                }
                i = i + 1;
            }
        } else {
            proof {
                self@.lemma_button_outside(h, cx, cy, button, down, n);
                assert(start + Seq::<FocusRequest>::empty() =~= start);
            }
        }
        let ghost below = self@.button_requests_upto(h, cx, cy, button, down, n);
        match button {
            MouseButton::Left => {
                if down && !here.focused {
                    match self.request_focus(h) {
                        Some(screen) => {
                            requests.push(FocusRequest { widget: h, screen });
                            proof {
                                assert(requests@ =~= start + (below + seq![
                                    FocusRequest { widget: h, screen },
                                ]));
                            }
                        },
                        None => {
                            proof {
                                assert(requests@ =~= start + (below + Seq::<
                                    FocusRequest,
                                >::empty()));
                            }
                        },
                    }
                } else {
                    proof {
                        assert(requests@ =~= start + (below + Seq::<FocusRequest>::empty()));
                    }
                }
            },
            _ => {
                proof {
                    assert(requests@ =~= start + (below + Seq::<FocusRequest>::empty()));
                }
            },
        }
        false
    }

    /// Works out which widgets below `h` the pointer enters or leaves when
    /// it moves to `(x, y)` by `rel`, and adds the changes to `changes`. The
    /// point may lie left of or above the origin of the parent of `h`, as it
    /// does where the pointer has left a widget on that side.
    fn motion_changes_at(
        &self,
        h: usize,
        x: i64,
        y: i64,
        rel: (i32, i32),
        changes: &mut Vec<HoverChange>,
    )
        requires
            self@.wf(),
            self@.live(h),
            -0x8000_0000 <= x <= 0xffff_ffff,
            -0x8000_0000 <= y <= 0xffff_ffff,
        ensures
            final(changes)@ == old(changes)@ + self@.motion_changes(
                h,
                x as int,
                y as int,
                rel.0 as int,
                rel.1 as int,
            ),
        decreases self@.rank_of(h),
    {
        let here = self.widget(h).base_ref();
        let ghost start = changes@;
        let ghost dx = rel.0 as int;
        let ghost dy = rel.1 as int;
        let cx: i64 = x - here.pos.0 as i64;
        let cy: i64 = y - here.pos.1 as i64;
        let px: i64 = cx - rel.0 as i64;
        let py: i64 = cy - rel.1 as i64;
        proof {
            assert(start + Seq::<HoverChange>::empty() =~= start);
        }
        if (cx < 0 && px < 0) || (cy < 0 && py < 0) {
            proof {
                self@.lemma_motion_outside(
                    h,
                    cx as int,
                    cy as int,
                    dx,
                    dy,
                    self@.kids(h).len() as int,
                );
            }
            return ;
        }
        let children = self.children(h);
        let mut i: usize = 0;
        while i < children.len()
            invariant
                self@.wf(),
                self@.live(h),
                children@ == self@.kids(h),
                0 <= i <= children@.len(),
                -0x8000_0000 <= cx <= 0xffff_ffff,
                -0x8000_0000 <= cy <= 0xffff_ffff,
                px == cx - rel.0,
                py == cy - rel.1,
                dx == rel.0,
                dy == rel.1,
                changes@ == start + self@.motion_changes_upto(
                    h,
                    cx as int,
                    cy as int,
                    dx,
                    dy,
                    i as int,
                ),
            decreases children@.len() - i,
        {
            let c = children[i];
            let ghost before = self@.motion_changes_upto(h, cx as int, cy as int, dx, dy, i as int);
            proof {
                assert(c == self@.kids(h)[i as int]);
                assert(self@.live(c));
                assert(self@.parent(c) == Some(h));
            }
            let child = self.widget(c).base_ref();
            if child.visible {
                let now = child.contains_at(cx, cy);
                let then = child.contains_at(px, py);
                let ghost crossed = if now != then {
                    before.push(HoverChange { widget: c, entered: now })
                } else {
                    before
                };
                if now != then {
                    changes.push(HoverChange { widget: c, entered: now });
                }
                proof {
                    assert(changes@ =~= start + crossed);
                }
                if now || then {
                    self.motion_changes_at(c, cx, cy, rel, changes);
                    proof {
                        assert(changes@ =~= start + (crossed + self@.motion_changes(
                            c,
                            cx as int,
                            cy as int,
                            dx,
                            dy,
                        )));
                    }
                }
            }
            i = i + 1;
        }
    }

    /// Works out which widgets below `h` the pointer enters or leaves when
    /// it moves to `p` by `rel`, and adds the changes to `changes` in order;
    /// the tree is not changed. The point is given in the coordinates of the
    /// parent of `h`; the pointer was at `p` less `rel` before, and `rel` is
    /// below 0 for a move to the left or upwards.
    pub fn motion_changes(
        &self,
        h: usize,
        p: (u32, u32),
        rel: (i32, i32),
        changes: &mut Vec<HoverChange>,
    )
        requires
            self@.wf(),
            self@.live(h),
        ensures
            final(changes)@ == old(changes)@ + self@.motion_changes(
                h,
                p.0 as int,
                p.1 as int,
                rel.0 as int,
                rel.1 as int,
            ),
    {
        self.motion_changes_at(h, p.0 as i64, p.1 as i64, rel, changes);
    }

    /// The pointer moved to `p` by `rel`, from `p` less `rel`; `p` is given in
    /// the coordinates of the parent of `h`, and `rel` is below 0 for a move
    /// to the left or upwards. Each widget below `h` that the pointer has entered
    /// or left has its hover flag set or cleared. Returns whether a widget
    /// took the event, which no widget of the four kinds does.
    pub fn mouse_motion_event(
        &mut self,
        h: usize,
        p: (u32, u32),
        rel: (i32, i32),
        button: MouseButton,
        modifiers: u16,
    ) -> (handled: bool)
        requires
            old(self)@.wf(),
            old(self)@.live(h),
        ensures
            !handled,
            final(self)@.wf(),
            old(self)@.same_links(final(self)@),
            final(self)@.themes == old(self)@.themes,
            final(self)@ == old(self)@.hovered(
                old(self)@.motion_changes(h, p.0 as int, p.1 as int, rel.0 as int, rel.1 as int),
            ),
            forall|n: usize|
                n < old(self)@.len() && old(self)@.hover_change(
                    h,
                    p.0 as int,
                    p.1 as int,
                    rel.0 as int,
                    rel.1 as int,
                    n,
                ) is None ==> #[trigger] final(self)@.widgets[n as int] == old(self)@.widgets[n as int],
            forall|n: usize|
                #![trigger final(self)@.widget(n)]
                n < old(self)@.len() && old(self)@.hover_change(
                    h,
                    p.0 as int,
                    p.1 as int,
                    rel.0 as int,
                    rel.1 as int,
                    n,
                ) is Some ==> final(self)@.widget(n) == old(self)@.widget(n).hovering(
                    old(self)@.hover_change(
                        h,
                        p.0 as int,
                        p.1 as int,
                        rel.0 as int,
                        rel.1 as int,
                        n,
                    )->0,
                ),
    {
        let mut changes: Vec<HoverChange> = Vec::new();
        self.motion_changes(h, p, rel, &mut changes);
        proof {
            assert forall|n: usize| n < self@.len() implies (self@.hover_change(
                h,
                p.0 as int,
                p.1 as int,
                rel.0 as int,
                rel.1 as int,
                n,
            ) matches Some(entered) ==> self@.hovered(
                self@.motion_changes(h, p.0 as int, p.1 as int, rel.0 as int, rel.1 as int),
            ).widget(n) == self@.widget(n).hovering(entered)) && (self@.hover_change(
                h,
                p.0 as int,
                p.1 as int,
                rel.0 as int,
                rel.1 as int,
                n,
            ) is None ==> self@.hovered(
                self@.motion_changes(h, p.0 as int, p.1 as int, rel.0 as int, rel.1 as int),
            ).widgets[n as int] == self@.widgets[n as int]) by {
                self@.lemma_motion_result(
                    h,
                    p.0 as int,
                    p.1 as int,
                    rel.0 as int,
                    rel.1 as int,
                    n,
                );
            }
        }
        proof {
            let all = self@.motion_changes(h, p.0 as int, p.1 as int, rel.0 as int, rel.1 as int);
            assert(Seq::<HoverChange>::empty() + all =~= all);
            self@.lemma_motion_live(
                h,
                p.0 - self@.base(h).pos.0,
                p.1 - self@.base(h).pos.1,
                rel.0 as int,
                rel.1 as int,
                self@.kids(h).len() as int,
            );
            assert(self@.changes_live(all));
            assert(changes@ == all);
        }
        let mut k: usize = 0;
        while k < changes.len()
            invariant
                0 <= k <= changes@.len(),
                old(self)@.wf(),
                forall|j: int|
                    0 <= j < changes@.len() ==> old(self)@.live(#[trigger] changes@[j].widget),
                self@ == old(self)@.hovered(changes@.take(k as int)),
            decreases changes@.len() - k,
        {
            let change = changes[k];
            proof {
                let done = changes@.take(k as int);
                assert forall|j: int| 0 <= j < done.len() implies old(self)@.live(
                    #[trigger] done[j].widget,
                ) by {
                    assert(done[j] == changes@[j]);
                }
                old(self)@.lemma_hovered_links(done);
                assert(old(self)@.live(changes@[k as int].widget));
                assert(self@.live(change.widget));
                assert(changes@.take(k as int + 1).drop_last() =~= done);
                assert(changes@.take(k as int + 1).last() == change);
            }
            self.widget_mut(change.widget).mouse_enter_event(p, change.entered);
            k = k + 1;
        }
        proof {
            assert(changes@.take(changes@.len() as int) =~= changes@);
            old(self)@.lemma_hovered_links(changes@);
        }
        false
    }

    /// The pointer was dragged over the widget `h`. No widget of the four
    /// kinds takes the event.
    pub fn mouse_drag_event(
        &self,
        h: usize,
        p: (u32, u32),
        rel: (i32, i32),
        button: MouseButton,
        modifiers: u16,
    ) -> (handled: bool)
        ensures
            !handled,
    {
        false
    }

    /// The pointer has entered or left the widget `h`: its hover flag is set
    /// or cleared.
    pub fn mouse_enter_event(&mut self, h: usize, p: (u32, u32), enter: bool) -> (handled: bool)
        requires
            old(self)@.wf(),
            old(self)@.live(h),
        ensures
            !handled,
            final(self)@.wf(),
            final(self)@ == old(self)@.hover(HoverChange { widget: h, entered: enter }),
    {
        self.widget_mut(h).mouse_enter_event(p, enter)
    }

    /// The wheel was turned by `rel` at `p`, which is given in the
    /// coordinates of the parent of `h`. Every visible child that holds the
    /// point gets the event, in order, until one takes it. Returns whether a
    /// widget took the event, which no widget of the four kinds does.
    pub fn scroll_event(&self, h: usize, p: (u32, u32), rel: (i32, i32)) -> (handled: bool)
        requires
            self@.wf(),
            self@.live(h),
        ensures
            !handled,
        decreases self@.rank_of(h),
    {
        let here = self.widget(h).base_ref();
        if p.0 < here.pos.0 || p.1 < here.pos.1 {
            return false;
        }
        let q = (p.0 - here.pos.0, p.1 - here.pos.1);
        let children = self.children(h);
        let mut i: usize = 0;
        while i < children.len()
            invariant
                self@.wf(),
                self@.live(h),
                children@ == self@.kids(h),
                0 <= i <= children@.len(),
            decreases children@.len() - i,
        {
            let c = children[i];
            proof {
                assert(c == self@.kids(h)[i as int]);
                assert(self@.live(c));
                assert(self@.parent(c) == Some(h));
            }
            let child = self.widget(c);
            if child.base_ref().visible && child.contains(q) && self.scroll_event(c, q, rel) {
                return true;
            }
            i = i + 1;
        }
        false
    }

    /// The widget `h` has gained or lost the keyboard focus: its focus flag
    /// is set or cleared.
    pub fn focus_event(&mut self, h: usize, focused: bool) -> (handled: bool)
        requires
            old(self)@.wf(),
            old(self)@.live(h),
        ensures
            !handled,
            final(self)@.wf(),
            final(self)@ == old(self)@.with_widget(
                h,
                old(self)@.widget(h).with_base(WidgetObj { focused, ..old(self)@.base(h) }),
            ),
    {
        self.widget_mut(h).focus_event(focused)
    }

    /// A key went down or up while the widget `h` had the focus. No widget of
    /// the four kinds takes the event.
    pub fn keyboard_event(
        &self,
        h: usize,
        key: u16,
        scancode: Option<u32>,
        pressed: bool,
        modifiers: u16,
    ) -> (handled: bool)
        ensures
            !handled,
    {
        false
    }

    /// A character was typed while the widget `h` had the focus. No widget
    /// of the four kinds takes the event.
    pub fn keyboard_character_event(&self, h: usize, codepoint: u32) -> (handled: bool)
        ensures
            !handled,
    {
        false
    }
}

} // verus!
