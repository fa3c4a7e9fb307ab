use crate::tree::{TreeModel, WidgetTree};
use vstd::prelude::*;

verus! {

impl TreeModel {
    /// The index of the first child of `h`, from index `i` on, that has the
    /// identifier `id`; the number of children where there is none.
    pub open spec fn position_of_id(self, h: usize, id: Seq<char>, i: int) -> int
        decreases self.kids(h).len() - i,
    {
        if i < 0 || i >= self.kids(h).len() {
            self.kids(h).len() as int
        } else if self.base(self.kids(h)[i]).id@ == id {
            i
        } else {
            self.position_of_id(h, id, i + 1)
        }
    }

    /// The tree with the first child of `h` that has the identifier `id`
    /// taken out; the same tree where no child has it.
    pub open spec fn without_child_id(self, h: usize, id: Seq<char>) -> TreeModel {
        let i = self.position_of_id(h, id, 0);
        if i < self.kids(h).len() {
            self.detached(self.kids(h)[i])
        } else {
            self
        }
    }

    /// The index of the first visible child of `h`, from index `i` on, whose
    /// rectangle holds the point; the number of children where there is none.
    pub open spec fn first_hit(self, h: usize, x: int, y: int, i: int) -> int
        decreases self.kids(h).len() - i,
    {
        if i < 0 || i >= self.kids(h).len() {
            self.kids(h).len() as int
        } else if self.base(self.kids(h)[i]).visible && self.base(self.kids(h)[i]).covers(x, y) {
            i
        } else {
            self.first_hit(h, x, y, i + 1)
        }
    }

    /// The deepest widget at the point, which is given in the coordinates of
    /// the parent of `h`. The point is moved into the coordinates of `h`, and
    /// the search goes on in the first visible child that holds it; where no
    /// child does, `h` itself is the answer if its rectangle holds the point.
    pub open spec fn hit(self, h: usize, x: int, y: int) -> Option<usize>
        decreases self.rank_of(h),
        when self.wf() && self.live(h)
    {
        let i = self.first_hit(h, x - self.base(h).pos.0, y - self.base(h).pos.1, 0);
        if 0 <= i < self.kids(h).len() {
            self.hit(self.kids(h)[i], x - self.base(h).pos.0, y - self.base(h).pos.1)
        } else if self.base(h).covers(x, y) {
            Some(h)
        } else {
            None
        }
    }

    /// What a search for the widget at a point finds. Where it finds `h`, the
    /// rectangle of `h` holds the point and no visible child of `h` holds it.
    /// Where it finds a widget below `h`, that widget is visible, its
    /// rectangle holds the point, moved into the coordinates of its parent,
    /// and none of its visible children holds it. Where it finds nothing,
    /// neither `h` nor a visible child of `h` holds the point.
    pub proof fn lemma_hit(self, h: usize, x: int, y: int)
        requires
            self.wf(),
            self.live(h),
        ensures
            match self.hit(h, x, y) {
                Some(w) => {
                    &&& self.live(w)
                    &&& self.is_ancestor_or_self(h, w)
                    &&& self.first_hit(
                        w,
                        self.pointer_in(h, x, y, w).0,
                        self.pointer_in(h, x, y, w).1,
                        0,
                    ) == self.kids(w).len()
                    &&& w == h ==> self.base(h).covers(x, y)
                    &&& w != h ==> self.parent(w) is Some && self.base(w).visible && self.base(
                        w,
                    ).covers(
                        self.pointer_in(h, x, y, self.parent(w)->0).0,
                        self.pointer_in(h, x, y, self.parent(w)->0).1,
                    )
                },
                None => !self.base(h).covers(x, y) && self.first_hit(
                    h,
                    x - self.base(h).pos.0,
                    y - self.base(h).pos.1,
                    0,
                ) == self.kids(h).len(),
            },
        decreases self.rank_of(h),
    {
        let cx = x - self.base(h).pos.0;
        let cy = y - self.base(h).pos.1;
        let i = self.first_hit(h, cx, cy, 0);
        self.lemma_first_hit(h, cx, cy, 0);
        assert(self.is_ancestor_or_self(h, h));
        assert(self.pointer_in(h, x, y, h) == (cx, cy));
        if i < self.kids(h).len() {
            let c = self.kids(h)[i];
            assert(self.live(c));
            assert(self.parent(c) == Some(h));
            self.lemma_hit(c, cx, cy);
            let w = self.hit(c, cx, cy)->0;
            self.lemma_ancestor_parent(c, w);
            self.lemma_ancestor_rank(c, w);
            assert(w != h);
            self.lemma_pointer_below(h, x, y, c, w);
            if w != c {
                let p = self.parent(w)->0;
                assert(self.is_ancestor_or_self(c, p));
                self.lemma_pointer_below(h, x, y, c, p);
            }
        }
    }

    /// For a widget at or below a child of `h`, the point may as well be
    /// followed down from that child.
    pub proof fn lemma_pointer_below(self, h: usize, x: int, y: int, c: usize, n: usize)
        requires
            self.wf(),
            self.live(h),
            c < self.len(),
            n < self.len(),
            self.parent(c) == Some(h),
            self.is_ancestor_or_self(c, n),
        ensures
            self.pointer_in(h, x, y, n) == self.pointer_in(
                c,
                x - self.base(h).pos.0,
                y - self.base(h).pos.1,
                n,
            ),
        decreases self.limit - self.rank_of(n),
    {
        self.lemma_ancestor_rank(c, n);
        assert(n != h);
        if n != c {
            let p = self.parent(n)->0;
            self.lemma_pointer_below(h, x, y, c, p);
        } else {
            assert(self.pointer_in(h, x, y, h) == (
                x - self.base(h).pos.0,
                y - self.base(h).pos.1,
            ));
        }
    }

    /// `position_of_id` finds the first child with the identifier.
    pub proof fn lemma_position_of_id(self, h: usize, id: Seq<char>, i: int)
        requires
            0 <= i <= self.kids(h).len(),
        ensures
            i <= self.position_of_id(h, id, i) <= self.kids(h).len(),
            self.position_of_id(h, id, i) < self.kids(h).len() ==> self.base(
                self.kids(h)[self.position_of_id(h, id, i)],
            ).id@ == id,
            forall|j: int|
                i <= j < self.position_of_id(h, id, i) ==> self.base(#[trigger] self.kids(h)[j]).id@
                    != id,
        decreases self.kids(h).len() - i,
    {
        if i < self.kids(h).len() && self.base(self.kids(h)[i]).id@ != id {
            self.lemma_position_of_id(h, id, i + 1);
        }
    }

    /// `first_hit` finds the first visible child that holds the point.
    pub proof fn lemma_first_hit(self, h: usize, x: int, y: int, i: int)
        requires
            0 <= i <= self.kids(h).len(),
        ensures
            i <= self.first_hit(h, x, y, i) <= self.kids(h).len(),
            self.first_hit(h, x, y, i) < self.kids(h).len() ==> {
                &&& self.base(self.kids(h)[self.first_hit(h, x, y, i)]).visible
                &&& self.base(self.kids(h)[self.first_hit(h, x, y, i)]).covers(x, y)
            },
            forall|j: int|
                i <= j < self.first_hit(h, x, y, i) ==> !(self.base(
                    #[trigger] self.kids(h)[j],
                ).visible && self.base(self.kids(h)[j]).covers(x, y)),
        decreases self.kids(h).len() - i,
    {
        if i < self.kids(h).len() && !(self.base(self.kids(h)[i]).visible && self.base(
            self.kids(h)[i],
        ).covers(x, y)) {
            self.lemma_first_hit(h, x, y, i + 1);
        }
    }

    /// No rectangle holds a point left of or above the origin.
    pub proof fn lemma_first_hit_outside(self, h: usize, x: int, y: int, i: int)
        requires
            0 <= i <= self.kids(h).len(),
            x < 0 || y < 0,
        ensures
            self.first_hit(h, x, y, i) == self.kids(h).len(),
        decreases self.kids(h).len() - i,
    {
        if i < self.kids(h).len() {
            self.lemma_first_hit_outside(h, x, y, i + 1);
        }
    }
}

/// Whether `new_child` may be made a child of `container`.
pub fn can_push_child(tree: &WidgetTree, container: usize, new_child: usize) -> (ok: bool)
    requires
        tree@.wf(),
    ensures
        ok == tree@.attachable(container, new_child),
{
    tree.is_live(container) && tree.is_live(new_child) && !(tree.widget(container).base_ref().id
        == tree.widget(new_child).base_ref().id) && !tree.is_ancestor_or_self(
        new_child,
        container,
    )
}

/// Makes `new_child` the last child of `container`. Where `new_child` has a
/// parent, it is first taken out of that parent's children.
pub fn push_child(tree: &mut WidgetTree, container: usize, new_child: usize)
    requires
        old(tree)@.wf(),
        old(tree)@.attachable(container, new_child),
    ensures
        final(tree)@ == old(tree)@.attached(container, new_child),
        final(tree)@.wf(),
        final(tree)@.widgets == old(tree)@.widgets,
        final(tree)@.themes == old(tree)@.themes,
        final(tree)@.parent(new_child) == Some(container),
        final(tree)@.kids(container).len() > 0,
        final(tree)@.kids(container).last() == new_child,
        forall|i: int|
            0 <= i < final(tree)@.kids(container).len() - 1 ==> final(tree)@.kids(container)[i]
                != new_child,
{
    proof {
        tree@.lemma_attached(container, new_child);
        tree@.lemma_detached_wf(new_child);
        tree@.lemma_detached_ancestry(new_child, new_child, container);
    }
    tree.detach(new_child);
    tree.link(container, new_child);
}

/// Makes `new_child` the last child of `container` where that may be done,
/// and says whether it was done. Where it may not, nothing changes. It may
/// not be done with a widget and itself, nor with two widgets of the same
/// identifier: so a widget is never made its own child.
pub fn try_push_child(tree: &mut WidgetTree, container: usize, new_child: usize) -> (done: bool)
    requires
        old(tree)@.wf(),
    ensures
        final(tree)@.wf(),
        done == old(tree)@.attachable(container, new_child),
        done ==> final(tree)@ == old(tree)@.attached(container, new_child),
        !done ==> final(tree)@ == old(tree)@,
        container == new_child ==> !done,
        old(tree)@.live(container) && old(tree)@.live(new_child) && old(tree)@.base(container).id@
            == old(tree)@.base(new_child).id@ ==> !done,
        container < final(tree)@.len() ==> forall|i: int|
            0 <= i < final(tree)@.kids(container).len() ==> #[trigger] final(tree)@.kids(
                container,
            )[i] != container,
{
    let done = if can_push_child(tree, container, new_child) {
        push_child(tree, container, new_child);
        true
    } else {
        false
    };
    proof {
        if container < tree@.len() {
            tree@.lemma_not_own_child(container);
        }
    }
    done
}

/// The first child of `container` that has the identifier `id`, if there is
/// one.
pub fn find_by_id(tree: &WidgetTree, container: usize, id: &String) -> (found: Option<usize>)
    requires
        tree@.wf(),
        tree@.live(container),
    ensures
        match found {
            Some(c) => {
                &&& 0 <= tree@.position_of_id(container, id@, 0) < tree@.kids(container).len()
                &&& c == tree@.kids(container)[tree@.position_of_id(container, id@, 0)]
                &&& tree@.base(c).id@ == id@
            },
            None => forall|i: int|
                0 <= i < tree@.kids(container).len() ==> tree@.base(
                    #[trigger] tree@.kids(container)[i],
                ).id@ != id@,
        },
{
    let children = tree.children(container);
    let mut i: usize = 0;
    proof {
        tree@.lemma_position_of_id(container, id@, 0);
    }
    while i < children.len()
        invariant
            tree@.wf(),
            tree@.live(container),
            children@ == tree@.kids(container),
            0 <= i <= children@.len(),
            tree@.position_of_id(container, id@, 0) == tree@.position_of_id(container, id@, i as int),
        decreases children@.len() - i,
    {
        let c = children[i];
        proof {
            assert(c == tree@.kids(container)[i as int]);
            assert(tree@.live(c));
        }
        if tree.widget(c).base_ref().id == *id {
            return Some(c);
        }
        i = i + 1;
    }
    None
}

/// Takes the first child of `container` that has the identifier `id` out of
/// its children and makes it a root; the last child moves into its place.
/// Returns whether there was such a child. Where there was none, nothing
/// changes.
pub fn remove_child_by_id(tree: &mut WidgetTree, container: usize, id: String) -> (removed: bool)
    requires
        old(tree)@.wf(),
        old(tree)@.live(container),
    ensures
        final(tree)@.wf(),
        final(tree)@ == old(tree)@.without_child_id(container, id@),
        removed == (old(tree)@.position_of_id(container, id@, 0) < old(tree)@.kids(
            container,
        ).len()),
        removed == (exists|i: int|
            0 <= i < old(tree)@.kids(container).len() && old(tree)@.base(
                #[trigger] old(tree)@.kids(container)[i],
            ).id@ == id@),
        !removed ==> final(tree)@ == old(tree)@,
{
    proof {
        tree@.lemma_position_of_id(container, id@, 0);
    }
    match find_by_id(tree, container, &id) {
        Some(c) => {
            tree.detach(c);
            true
        },
        None => false,
    }
}

/// Takes the first child of `container` that has the identifier of `child`
/// out of its children, as `remove_child_by_id` does.
pub fn remove_child_by_child(tree: &mut WidgetTree, container: usize, child: usize) -> (removed:
    bool)
    requires
        old(tree)@.wf(),
        old(tree)@.live(container),
        old(tree)@.live(child),
    ensures
        final(tree)@.wf(),
        final(tree)@ == old(tree)@.without_child_id(container, old(tree)@.base(child).id@),
        removed == (exists|i: int|
            0 <= i < old(tree)@.kids(container).len() && old(tree)@.base(
                #[trigger] old(tree)@.kids(container)[i],
            ).id@ == old(tree)@.base(child).id@),
        !removed ==> final(tree)@ == old(tree)@,
{
    let id = tree.widget(child).id();
    remove_child_by_id(tree, container, id)
}

/// The deepest widget at the point `p`, which is given in the coordinates of
/// the parent of `container`: found in the first visible child that holds
/// the point, or `container` itself where no child holds it and its own
/// rectangle does.
pub fn find_widget(tree: &WidgetTree, container: usize, p: (u32, u32)) -> (found: Option<usize>)
    requires
        tree@.wf(),
        tree@.live(container),
    ensures
        found == tree@.hit(container, p.0 as int, p.1 as int),
    decreases tree@.rank_of(container),
{
    let here = tree.widget(container).base_ref();
    if p.0 < here.pos.0 || p.1 < here.pos.1 {
        proof {
            tree@.lemma_first_hit_outside(container, p.0 - here.pos.0, p.1 - here.pos.1, 0);
        }
        return None;
    }
    let q = (p.0 - here.pos.0, p.1 - here.pos.1);
    let children = tree.children(container);
    let mut i: usize = 0;
    while i < children.len()
        invariant
            tree@.wf(),
            tree@.live(container),
            children@ == tree@.kids(container),
            0 <= i <= children@.len(),
            q.0 == p.0 - tree@.base(container).pos.0,
            q.1 == p.1 - tree@.base(container).pos.1,
            tree@.first_hit(container, q.0 as int, q.1 as int, 0) == tree@.first_hit(
                container,
                q.0 as int,
                q.1 as int,
                i as int,
            ),
        decreases children@.len() - i,
    {
        let c = children[i];
        proof {
            assert(c == tree@.kids(container)[i as int]);
            assert(tree@.live(c));
            assert(tree@.parent(c) == Some(container));
        }
        let child = tree.widget(c);
        if child.base_ref().visible && child.contains(q) {
            return find_widget(tree, c, q);
        }
        i = i + 1;
    }
    proof {
        tree@.lemma_first_hit(container, q.0 as int, q.1 as int, 0);
    }
    if here.contains(p) {
        Some(container)
    } else {
        None
    }
}

} // verus!
