use crate::theme::Theme;
use crate::widget::{Widget, WidgetObj};
use vstd::pervasive::unreached;
use vstd::prelude::*;

verus! {

/// What a widget tree holds, as mathematics. A widget is named by its handle,
/// the index of its slot; the slot of a destroyed widget stays empty.
pub struct TreeModel {
    /// The widget in each slot.
    pub widgets: Seq<Option<Widget>>,
    /// The parent of the widget in each slot.
    pub parents: Seq<Option<usize>>,
    /// The children of the widget in each slot, in drawing and layout order.
    pub children: Seq<Seq<usize>>,
    /// The themes that the widgets share.
    pub themes: Seq<Theme>,
    /// A measure that falls from every parent to each of its children. It is
    /// there to show that a walk up or down the tree ends.
    pub rank: Seq<nat>,
    /// A bound above every rank.
    pub limit: nat,
}

impl TreeModel {
    /// The number of slots.
    pub open spec fn len(self) -> nat {
        self.widgets.len()
    }

    /// Whether `h` names a widget that has not been destroyed.
    pub open spec fn live(self, h: usize) -> bool {
        h < self.widgets.len() && self.widgets[h as int] is Some
    }

    pub open spec fn widget(self, h: usize) -> Widget {
        self.widgets[h as int]->0
    }

    pub open spec fn base(self, h: usize) -> WidgetObj {
        self.widget(h).base()
    }

    pub open spec fn parent(self, h: usize) -> Option<usize> {
        self.parents[h as int]
    }

    pub open spec fn kids(self, h: usize) -> Seq<usize> {
        self.children[h as int]
    }

    pub open spec fn rank_of(self, h: usize) -> nat {
        self.rank[h as int]
    }

    /// The theme that the widget `h` names, if the tree holds it.
    pub open spec fn theme_of(self, h: usize) -> Option<Theme> {
        match self.base(h).theme {
            Some(t) => if t < self.themes.len() {
                Some(self.themes[t as int])
            } else {
                None
            },
            None => None,
        }
    }

    /// The links form a forest: a widget is among the children of its parent
    /// exactly once and of no other widget, and no widget is its own
    /// ancestor.
    pub open spec fn wf(self) -> bool {
        &&& self.parents.len() == self.widgets.len()
        &&& self.children.len() == self.widgets.len()
        &&& self.rank.len() == self.widgets.len()
        &&& forall|h: usize| #![trigger self.rank_of(h)] h < self.len() ==> self.rank_of(h) < self.limit
        &&& forall|h: usize| #![trigger self.parent(h)] h < self.len() && !self.live(h) ==> self.parent(h) is None
        &&& forall|h: usize| #![trigger self.kids(h)] h < self.len() && !self.live(h) ==> self.kids(h).len() == 0
        &&& forall|h: usize| #![trigger self.parent(h)] h < self.len() && self.parent(h) is Some ==> {
            &&& self.live(self.parent(h)->0)
            &&& self.kids(self.parent(h)->0).contains(h)
            &&& self.rank_of(h) < self.rank_of(self.parent(h)->0)
        }
        &&& forall|p: usize, i: int| #![trigger self.kids(p)[i]]
            p < self.len() && 0 <= i < self.kids(p).len() ==> {
                &&& self.live(self.kids(p)[i])
                &&& self.parent(self.kids(p)[i]) == Some(p)
            }
        &&& forall|p: usize, i: int, j: int| #![trigger self.kids(p)[i], self.kids(p)[j]]
            p < self.len() && 0 <= i < j < self.kids(p).len() ==> self.kids(p)[i] != self.kids(p)[j]
    }

    /// Whether `a` is `h` or one of the ancestors of `h`.
    pub open spec fn is_ancestor_or_self(self, a: usize, h: usize) -> bool
        decreases self.limit - self.rank_of(h),
        when self.wf() && h < self.len()
    {
        a == h || match self.parent(h) {
            Some(p) => self.is_ancestor_or_self(a, p),
            None => false,
        }
    }

    /// The tree with the widget in slot `h` replaced.
    pub open spec fn with_widget(self, h: usize, widget: Widget) -> TreeModel {
        TreeModel { widgets: self.widgets.update(h as int, Some(widget)), ..self }
    }

    /// Whether the two trees have the same links between the same slots.
    pub open spec fn same_links(self, other: TreeModel) -> bool {
        &&& self.parents == other.parents
        &&& self.children == other.children
        &&& self.rank == other.rank
        &&& self.limit == other.limit
        &&& self.widgets.len() == other.widgets.len()
        &&& forall|h: usize| #![trigger self.live(h)] self.live(h) == other.live(h)
    }

    /// Links and well-formedness do not depend on what the widgets hold.
    pub proof fn lemma_same_links_wf(self, other: TreeModel)
        requires
            self.wf(),
            self.same_links(other),
        ensures
            other.wf(),
    {
        assert forall|h: usize| #![trigger other.parent(h)]
            h < other.len() && !other.live(h) implies other.parent(h) is None by {
            assert(!self.live(h));
            assert(self.parent(h) is None);
        }
        assert forall|h: usize| #![trigger other.kids(h)]
            h < other.len() && !other.live(h) implies other.kids(h).len() == 0 by {
            assert(!self.live(h));
            assert(self.kids(h).len() == 0);
        }
        assert forall|h: usize| #![trigger other.parent(h)]
            h < other.len() && other.parent(h) is Some implies {
            &&& other.live(other.parent(h)->0)
            &&& other.kids(other.parent(h)->0).contains(h)
            &&& other.rank_of(h) < other.rank_of(other.parent(h)->0)
        } by {
            assert(self.parent(h) is Some);
            assert(self.live(self.parent(h)->0));
        }
        assert forall|p: usize, i: int| #![trigger other.kids(p)[i]]
            p < other.len() && 0 <= i < other.kids(p).len() implies {
            &&& other.live(other.kids(p)[i])
            &&& other.parent(other.kids(p)[i]) == Some(p)
        } by {
            assert(self.live(self.kids(p)[i]));
        }
        assert forall|h: usize| #![trigger other.rank_of(h)] h < other.len() implies other.rank_of(h)
            < other.limit by {
            assert(self.rank_of(h) < self.limit);
        }
        assert forall|p: usize, i: int, j: int| #![trigger other.kids(p)[i], other.kids(p)[j]]
            p < other.len() && 0 <= i < j < other.kids(p).len() implies other.kids(p)[i]
            != other.kids(p)[j] by {
            assert(self.kids(p)[i] != self.kids(p)[j]);
        }
    }

    /// The tree with the widget `c` taken out of the children of its parent,
    /// the last child moving into its place; the same tree where `c` has no
    /// parent.
    pub open spec fn detached(self, c: usize) -> TreeModel {
        match self.parent(c) {
            None => self,
            Some(p) => TreeModel {
                parents: self.parents.update(c as int, None),
                children: self.children.update(
                    p as int,
                    self.kids(p).update(self.kids(p).index_of(c), self.kids(p).last()).drop_last(),
                ),
                ..self
            },
        }
    }

    /// The ranks after `child` has come under `container`: the container and
    /// its ancestors are lifted above the child.
    pub open spec fn lifted_rank(self, container: usize, child: usize) -> Seq<nat> {
        Seq::new(
            self.rank.len(),
            |k: int|
                if self.is_ancestor_or_self(k as usize, container) {
                    self.rank[k] + self.rank[child as int] + 1
                } else {
                    self.rank[k]
                },
        )
    }

    /// The tree with the root `child` made the last child of `container`.
    pub open spec fn linked(self, container: usize, child: usize) -> TreeModel {
        TreeModel {
            parents: self.parents.update(child as int, Some(container)),
            children: self.children.update(container as int, self.kids(container).push(child)),
            rank: self.lifted_rank(container, child),
            limit: self.limit + self.limit,
            ..self
        }
    }

    /// Whether `child` may be made a child of `container`: both are there,
    /// they differ in their identifiers, and `child` is not `container` or one
    /// of its ancestors.
    pub open spec fn attachable(self, container: usize, child: usize) -> bool {
        &&& self.live(container)
        &&& self.live(child)
        &&& self.base(container).id@ != self.base(child).id@
        &&& !self.is_ancestor_or_self(child, container)
    }

    /// The tree with `child` moved under `container`: taken from its parent,
    /// if it has one, and made the last child of `container`.
    pub open spec fn attached(self, container: usize, child: usize) -> TreeModel {
        self.detached(child).linked(container, child)
    }

    /// The tree with the widget `h` destroyed: it is taken from its parent,
    /// its children become roots, and its slot is left empty.
    pub open spec fn destroyed(self, h: usize) -> TreeModel {
        let m = self.detached(h);
        TreeModel {
            widgets: m.widgets.update(h as int, None),
            parents: Seq::new(
                m.parents.len(),
                |k: int|
                    if m.parents[k] == Some(h) {
                        None
                    } else {
                        m.parents[k]
                    },
            ),
            children: m.children.update(h as int, Seq::empty()),
            ..m
        }
    }

    /// Taking a widget from its parent leaves a well-formed tree, in which
    /// the widget is a root.
    pub proof fn lemma_detached_wf(self, c: usize)
        requires
            self.wf(),
            c < self.len(),
        ensures
            self.detached(c).wf(),
            self.detached(c).parent(c) is None,
            self.detached(c).widgets == self.widgets,
            self.detached(c).len() == self.len(),
            self.detached(c).rank == self.rank,
            self.detached(c).limit == self.limit,
            forall|h: usize| #![trigger self.detached(c).parent(h)]
                h < self.len() && h != c ==> self.detached(c).parent(h) == self.parent(h),
    {
        let n = self.detached(c);
        match self.parent(c) {
            None => {},
            Some(p) => {
                let k = self.kids(p);
                let i = k.index_of(c);
                assert(k.contains(c));
                assert(0 <= i < k.len() && k[i] == c);
                let last = k.len() - 1;
                let k2 = k.update(i, k.last()).drop_last();
                assert(n.kids(p) == k2);
                assert forall|h: usize| #![trigger n.parent(h)]
                    h < n.len() && !n.live(h) implies n.parent(h) is None by {
                    assert(!self.live(h));
                    assert(self.parent(h) is None);
                }
                assert forall|h: usize| #![trigger n.kids(h)]
                    h < n.len() && !n.live(h) implies n.kids(h).len() == 0 by {
                    assert(!self.live(h));
                    assert(self.kids(h).len() == 0);
                    assert(self.live(p));
                }
                assert forall|h: usize| #![trigger n.parent(h)]
                    h < n.len() && n.parent(h) is Some implies {
                    &&& n.live(n.parent(h)->0)
                    &&& n.kids(n.parent(h)->0).contains(h)
                    &&& n.rank_of(h) < n.rank_of(n.parent(h)->0)
                } by {
                    assert(h != c);
                    assert(self.parent(h) is Some);
                    let q = self.parent(h)->0;
                    assert(self.live(q));
                    assert(self.kids(q).contains(h));
                    if q == p {
                        let j = choose|j: int| 0 <= j < k.len() && k[j] == h;
                        assert(j != i);
                        if j < last {
                            assert(k2[j] == h);
                        } else {
                            assert(k2[i] == h);
                        }
                    } else {
                        assert(n.kids(q) == self.kids(q));
                    }
                }
                assert forall|q: usize, j: int| #![trigger n.kids(q)[j]]
                    q < n.len() && 0 <= j < n.kids(q).len() implies {
                    &&& n.live(n.kids(q)[j])
                    &&& n.parent(n.kids(q)[j]) == Some(q)
                } by {
                    if q == p {
                        let m = if j == i {
                            last
                        } else {
                            j
                        };
                        assert(k2[j] == k[m]);
                        assert(self.live(k[m]));
                        assert(self.parent(k[m]) == Some(p));
                        if m < i {
                            assert(k[m] != k[i]);
                        } else {
                            assert(k[i] != k[m]);
                        }
                    } else {
                        assert(n.kids(q) == self.kids(q));
                        let d = self.kids(q)[j];
                        assert(self.live(d));
                        assert(self.parent(d) == Some(q));
                    }
                }
                assert forall|q: usize, a: int, b: int| #![trigger n.kids(q)[a], n.kids(q)[b]]
                    q < n.len() && 0 <= a < b < n.kids(q).len() implies n.kids(q)[a] != n.kids(
                    q,
                )[b] by {
                    if q == p {
                        let ma = if a == i {
                            last
                        } else {
                            a
                        };
                        let mb = if b == i {
                            last
                        } else {
                            b
                        };
                        assert(k2[a] == k[ma]);
                        assert(k2[b] == k[mb]);
                        if ma < mb {
                            assert(k[ma] != k[mb]);
                        } else {
                            assert(k[mb] != k[ma]);
                        }
                    } else {
                        assert(n.kids(q) == self.kids(q));
                        assert(self.kids(q)[a] != self.kids(q)[b]);
                    }
                }
                assert forall|h: usize| #![trigger n.rank_of(h)] h < n.len() implies n.rank_of(h)
                    < n.limit by {
                    assert(self.rank_of(h) < self.limit);
                }
            },
        }
    }

    /// Taking a widget from its parent makes no widget an ancestor of
    /// another that it was not before.
    pub proof fn lemma_detached_ancestry(self, c: usize, a: usize, h: usize)
        requires
            self.wf(),
            c < self.len(),
            h < self.len(),
            !self.is_ancestor_or_self(a, h),
        ensures
            !self.detached(c).is_ancestor_or_self(a, h),
        decreases self.limit - self.rank_of(h),
    {
        let n = self.detached(c);
        self.lemma_detached_wf(c);
        if n.parent(h) is Some {
            let q = n.parent(h)->0;
            assert(h != c);
            assert(self.parent(h) == Some(q));
            self.lemma_detached_ancestry(c, a, q);
        }
    }

    /// Making a root the child of a widget that is not below it leaves a
    /// well-formed tree.
    pub proof fn lemma_linked_wf(self, container: usize, child: usize)
        requires
            self.wf(),
            self.live(container),
            self.live(child),
            self.parent(child) is None,
            !self.is_ancestor_or_self(child, container),
        ensures
            self.linked(container, child).wf(),
    {
        let n = self.linked(container, child);
        let k = self.kids(container);
        assert(self.is_ancestor_or_self(container, container));
        assert(n.kids(container) == k.push(child));
        assert(self.rank_of(child) < self.limit);
        assert forall|h: usize| #![trigger n.rank_of(h)] h < n.len() implies n.rank_of(h)
            < n.limit by {
            assert(self.rank_of(h) < self.limit);
        }
        assert forall|h: usize| #![trigger n.parent(h)]
            h < n.len() && !n.live(h) implies n.parent(h) is None by {
            assert(!self.live(h));
            assert(self.parent(h) is None);
        }
        assert forall|h: usize| #![trigger n.kids(h)]
            h < n.len() && !n.live(h) implies n.kids(h).len() == 0 by {
            assert(!self.live(h));
            assert(self.kids(h).len() == 0);
        }
        assert forall|h: usize| #![trigger n.parent(h)] h < n.len() && n.parent(h) is Some implies {
            &&& n.live(n.parent(h)->0)
            &&& n.kids(n.parent(h)->0).contains(h)
            &&& n.rank_of(h) < n.rank_of(n.parent(h)->0)
        } by {
            if h == child {
                assert(n.kids(container)[k.len() as int] == child);
            } else {
                assert(self.parent(h) is Some);
                let q = self.parent(h)->0;
                assert(self.live(q));
                assert(self.kids(q).contains(h));
                let j = choose|j: int| 0 <= j < self.kids(q).len() && self.kids(q)[j] == h;
                assert(n.kids(q)[j] == h);
                assert(self.rank_of(h) < self.rank_of(q));
                if self.is_ancestor_or_self(h, container) {
                    self.lemma_ancestor_parent(h, container);
                }
            }
        }
        assert forall|q: usize, j: int| #![trigger n.kids(q)[j]]
            q < n.len() && 0 <= j < n.kids(q).len() implies {
            &&& n.live(n.kids(q)[j])
            &&& n.parent(n.kids(q)[j]) == Some(q)
        } by {
            if q == container && j == k.len() {
            } else {
                let d = self.kids(q)[j];
                assert(n.kids(q)[j] == d);
                assert(self.live(d));
                assert(self.parent(d) == Some(q));
            }
        }
        assert forall|q: usize, a: int, b: int| #![trigger n.kids(q)[a], n.kids(q)[b]]
            q < n.len() && 0 <= a < b < n.kids(q).len() implies n.kids(q)[a] != n.kids(q)[b] by {
            if q == container && b == k.len() {
                let d = self.kids(q)[a];
                assert(self.parent(d) == Some(q));
            } else {
                assert(self.kids(q)[a] != self.kids(q)[b]);
            }
        }
    }

    /// Moving a widget under a container that is not below it leaves a
    /// well-formed tree, in which the widget is the last child of the
    /// container and occurs among its children once.
    pub proof fn lemma_attached(self, container: usize, child: usize)
        requires
            self.wf(),
            self.attachable(container, child),
        ensures
            self.attached(container, child).wf(),
            self.attached(container, child).widgets == self.widgets,
            self.attached(container, child).themes == self.themes,
            self.attached(container, child).parent(child) == Some(container),
            self.attached(container, child).kids(container).len() > 0,
            self.attached(container, child).kids(container).last() == child,
            forall|i: int|
                0 <= i < self.attached(container, child).kids(container).len() - 1
                    ==> self.attached(container, child).kids(container)[i] != child,
    {
        let m = self.detached(child);
        self.lemma_detached_wf(child);
        self.lemma_detached_ancestry(child, child, container);
        m.lemma_linked_wf(container, child);
        let n = m.linked(container, child);
        assert(n.kids(container) == m.kids(container).push(child));
        assert forall|i: int| 0 <= i < n.kids(container).len() - 1 implies n.kids(container)[i]
            != child by {
            assert(n.kids(container)[i] != n.kids(container)[n.kids(container).len() - 1]);
        }
    }

    /// No widget can be made its own child, nor the child of a widget that
    /// has its identifier.
    pub proof fn lemma_self_attach_rejected(self, a: usize, b: usize)
        requires
            self.wf(),
        ensures
            !self.attachable(a, a),
            self.live(a) && self.live(b) && self.base(a).id@ == self.base(b).id@
                ==> !self.attachable(a, b),
    {
    }

    /// No widget is among its own children.
    pub proof fn lemma_not_own_child(self, a: usize)
        requires
            self.wf(),
            a < self.len(),
        ensures
            forall|i: int| 0 <= i < self.kids(a).len() ==> #[trigger] self.kids(a)[i] != a,
    {
        assert forall|i: int| 0 <= i < self.kids(a).len() implies #[trigger] self.kids(a)[i]
            != a by {
            let c = self.kids(a)[i];
            assert(self.parent(c) == Some(a));
            if c == a {
                assert(self.rank_of(a) < self.rank_of(self.parent(a)->0));
            }
        }
    }

    /// Making a root the child of a widget that is not below it makes it an
    /// ancestor of nothing that it was not an ancestor of before.
    pub proof fn lemma_linked_ancestry(self, container: usize, child: usize, h: usize)
        requires
            self.wf(),
            self.live(container),
            self.live(child),
            self.parent(child) is None,
            !self.is_ancestor_or_self(child, container),
            h < self.len(),
            !self.is_ancestor_or_self(child, h),
        ensures
            !self.linked(container, child).is_ancestor_or_self(child, h),
        decreases self.limit - self.rank_of(h),
    {
        let n = self.linked(container, child);
        self.lemma_linked_wf(container, child);
        assert(h != child);
        assert(n.parent(h) == self.parent(h));
        if let Some(q) = self.parent(h) {
            self.lemma_linked_ancestry(container, child, q);
        }
    }

    /// Moving a widget under the container whose last child it already is
    /// changes none of the links: it is not there twice.
    pub proof fn lemma_attach_again(self, container: usize, child: usize)
        requires
            self.wf(),
            self.attachable(container, child),
        ensures
            self.attached(container, child).attachable(container, child),
            self.attached(container, child).attached(container, child).children == self.attached(
                container,
                child,
            ).children,
            self.attached(container, child).attached(container, child).parents == self.attached(
                container,
                child,
            ).parents,
    {
        let m = self.detached(child);
        self.lemma_detached_wf(child);
        self.lemma_detached_ancestry(child, child, container);
        m.lemma_linked_wf(container, child);
        m.lemma_linked_ancestry(container, child, container);
        let n = m.linked(container, child);
        self.lemma_attached(container, child);
        let k = n.kids(container);
        let i = k.index_of(child);
        assert(k.contains(child)) by {
            assert(k[k.len() - 1] == child);
        }
        assert(i == k.len() - 1) by {
            if i < k.len() - 1 {
                assert(k[i] != k[k.len() - 1]);
            }
        }
        let d = n.detached(child);
        assert(d.kids(container) =~= m.kids(container));
        assert(d.children =~= m.children);
        assert(d.parents =~= m.parents);
        let again = d.linked(container, child);
        assert(again.children =~= n.children);
        assert(again.parents =~= n.parents);
    }

    /// Destroying a widget leaves a well-formed tree in which none of its
    /// former children has a parent.
    pub proof fn lemma_destroyed(self, h: usize)
        requires
            self.wf(),
            self.live(h),
        ensures
            self.destroyed(h).wf(),
            !self.destroyed(h).live(h),
            forall|i: int|
                0 <= i < self.kids(h).len() ==> self.destroyed(h).parent(#[trigger] self.kids(h)[i])
                    is None,
            forall|i: int|
                0 <= i < self.kids(h).len() ==> self.destroyed(h).live(#[trigger] self.kids(h)[i]),
    {
        let m = self.detached(h);
        self.lemma_detached_wf(h);
        let n = self.destroyed(h);
        assert(forall|g: usize| #![trigger m.parent(g)] g < m.len() && g != h ==> m.parent(g) == self.parent(g));
        assert(m.kids(h) == self.kids(h)) by {
            if self.parent(h) is Some {
                assert(self.rank_of(h) < self.rank_of(self.parent(h)->0));
            }
        }
        assert forall|g: usize| #![trigger n.parent(g)]
            g < n.len() && !n.live(g) implies n.parent(g) is None by {
            if g != h {
                assert(!m.live(g));
                assert(m.parent(g) is None);
            }
        }
        assert forall|g: usize| #![trigger n.kids(g)]
            g < n.len() && !n.live(g) implies n.kids(g).len() == 0 by {
            if g != h {
                assert(!m.live(g));
                assert(m.kids(g).len() == 0);
            }
        }
        assert forall|g: usize| #![trigger n.parent(g)] g < n.len() && n.parent(g) is Some implies {
            &&& n.live(n.parent(g)->0)
            &&& n.kids(n.parent(g)->0).contains(g)
            &&& n.rank_of(g) < n.rank_of(n.parent(g)->0)
        } by {
            assert(m.parent(g) is Some);
            let q = m.parent(g)->0;
            assert(q != h);
            assert(m.live(q));
            assert(m.kids(q).contains(g));
            assert(n.kids(q) == m.kids(q));
        }
        assert forall|q: usize, j: int| #![trigger n.kids(q)[j]]
            q < n.len() && 0 <= j < n.kids(q).len() implies {
            &&& n.live(n.kids(q)[j])
            &&& n.parent(n.kids(q)[j]) == Some(q)
        } by {
            assert(q != h);
            let d = m.kids(q)[j];
            assert(m.live(d));
            assert(m.parent(d) == Some(q));
            assert(d != h);
        }
        assert forall|q: usize, a: int, b: int| #![trigger n.kids(q)[a], n.kids(q)[b]]
            q < n.len() && 0 <= a < b < n.kids(q).len() implies n.kids(q)[a] != n.kids(q)[b] by {
            assert(q != h);
            assert(m.kids(q)[a] != m.kids(q)[b]);
        }
        assert forall|g: usize| #![trigger n.rank_of(g)] g < n.len() implies n.rank_of(g)
            < n.limit by {
            assert(m.rank_of(g) < m.limit);
        }
        assert forall|i: int| 0 <= i < self.kids(h).len() implies n.parent(
            #[trigger] self.kids(h)[i],
        ) is None && n.live(self.kids(h)[i]) by {
            let d = self.kids(h)[i];
            assert(self.live(d));
            assert(self.parent(d) == Some(h));
            assert(self.rank_of(d) < self.rank_of(h));
            assert(m.parent(d) == Some(h));
        }
    }

    /// A widget is an ancestor of whatever its child is an ancestor of.
    pub proof fn lemma_ancestor_parent(self, a: usize, h: usize)
        requires
            self.wf(),
            h < self.len(),
            a < self.len(),
            self.is_ancestor_or_self(a, h),
            self.parent(a) is Some,
        ensures
            self.is_ancestor_or_self(self.parent(a)->0, h),
        decreases self.limit - self.rank_of(h),
    {
        let p = self.parent(a)->0;
        if a == h {
            assert(self.is_ancestor_or_self(p, p));
        } else {
            let q = self.parent(h)->0;
            self.lemma_ancestor_parent(a, q);
        }
    }

    /// An ancestor has a higher rank than its descendants.
    pub proof fn lemma_ancestor_rank(self, a: usize, h: usize)
        requires
            self.wf(),
            h < self.len(),
            self.is_ancestor_or_self(a, h),
        ensures
            a < self.len(),
            self.rank_of(a) >= self.rank_of(h),
            a != h ==> self.rank_of(a) > self.rank_of(h),
        decreases self.limit - self.rank_of(h),
    {
        if a != h {
            let q = self.parent(h)->0;
            self.lemma_ancestor_rank(a, q);
        }
    }
}

/// A tree of widgets. The tree owns the widgets and the themes; a widget is
/// reached through the handle that `add` returned for it.
pub struct WidgetTree {
    widgets: Vec<Option<Widget>>,
    parents: Vec<Option<usize>>,
    children: Vec<Vec<usize>>,
    themes: Vec<Theme>,
    rank: Ghost<Seq<nat>>,
    limit: Ghost<nat>,
}

impl View for WidgetTree {
    type V = TreeModel;

    closed spec fn view(&self) -> TreeModel {
        TreeModel {
            widgets: self.widgets@,
            parents: self.parents@,
            children: Seq::new(self.children@.len(), |i: int| self.children@[i]@),
            themes: self.themes@,
            rank: self.rank@,
            limit: self.limit@,
        }
    }
}

impl WidgetTree {
    /// A tree without widgets and without themes.
    pub fn new() -> (tree: WidgetTree)
        ensures
            tree@.wf(),
            tree@.len() == 0,
            tree@.themes.len() == 0,
    {
        WidgetTree {
            widgets: Vec::new(),
            parents: Vec::new(),
            children: Vec::new(),
            themes: Vec::new(),
            rank: Ghost(Seq::empty()),
            limit: Ghost(1),
        }
    }

    /// The number of handles given out so far.
    pub fn len(&self) -> (n: usize)
        ensures
            n == self@.len(),
    {
        self.widgets.len()
    }

    /// Whether `h` names a widget of this tree that has not been destroyed.
    pub fn is_live(&self, h: usize) -> (live: bool)
        ensures
            live == self@.live(h),
    {
        h < self.widgets.len() && self.widgets[h].is_some()
    }

    /// Takes the widget into the tree, as a root, and returns its handle.
    pub fn add(&mut self, widget: Widget) -> (h: usize)
        requires
            old(self)@.wf(),
        ensures
            final(self)@.wf(),
            h == old(self)@.len(),
            final(self)@.widgets == old(self)@.widgets.push(Some(widget)),
            final(self)@.parents == old(self)@.parents.push(None),
            final(self)@.children == old(self)@.children.push(Seq::empty()),
            final(self)@.themes == old(self)@.themes,
    {
        let h = self.widgets.len();
        self.widgets.push(Some(widget));
        self.parents.push(None);
        self.children.push(Vec::new());
        proof {
            self.rank@ = self.rank@.push(0);
            self.limit@ = self.limit@ + 1;
            let old_m = old(self)@;
            let new_m = self@;
            assert(new_m.children =~= old_m.children.push(Seq::empty()));
            assert forall|k: usize| #![trigger new_m.rank_of(k)] k < new_m.len() implies new_m.rank_of(
                k,
            ) < new_m.limit by {
                if k < old_m.len() {
                    assert(old_m.rank_of(k) < old_m.limit);
                }
            }
            assert forall|k: usize| #![trigger new_m.parent(k)]
                k < new_m.len() && !new_m.live(k) implies new_m.parent(k) is None by {
                if k < old_m.len() {
                    assert(!old_m.live(k));
                    assert(old_m.parent(k) is None);
                }
            }
            assert forall|k: usize| #![trigger new_m.kids(k)]
                k < new_m.len() && !new_m.live(k) implies new_m.kids(k).len() == 0 by {
                if k < old_m.len() {
                    assert(!old_m.live(k));
                    assert(old_m.kids(k).len() == 0);
                }
            }
            assert forall|k: usize| #![trigger new_m.parent(k)]
                k < new_m.len() && new_m.parent(k) is Some implies {
                &&& new_m.live(new_m.parent(k)->0)
                &&& new_m.kids(new_m.parent(k)->0).contains(k)
                &&& new_m.rank_of(k) < new_m.rank_of(new_m.parent(k)->0)
            } by {
                assert(k < old_m.len());
                assert(old_m.parent(k) is Some);
                let p = old_m.parent(k)->0;
                assert(old_m.live(p));
                assert(new_m.kids(p) == old_m.kids(p));
            }
            assert forall|p: usize, i: int| #![trigger new_m.kids(p)[i]]
                p < new_m.len() && 0 <= i < new_m.kids(p).len() implies {
                &&& new_m.live(new_m.kids(p)[i])
                &&& new_m.parent(new_m.kids(p)[i]) == Some(p)
            } by {
                assert(p < old_m.len());
                assert(new_m.kids(p) == old_m.kids(p));
                assert(old_m.live(old_m.kids(p)[i]));
            }
            assert forall|p: usize, i: int, j: int| #![trigger new_m.kids(p)[i], new_m.kids(p)[j]]
                p < new_m.len() && 0 <= i < j < new_m.kids(p).len() implies new_m.kids(p)[i]
                != new_m.kids(p)[j] by {
                assert(new_m.kids(p) == old_m.kids(p));
                assert(old_m.kids(p)[i] != old_m.kids(p)[j]);
            }
        }
        h
    }

    /// Takes the theme into the tree and returns its handle.
    pub fn add_theme(&mut self, theme: Theme) -> (t: usize)
        ensures
            t == old(self)@.themes.len(),
            final(self)@ == (TreeModel { themes: old(self)@.themes.push(theme), ..old(self)@ }),
    {
        let t = self.themes.len();
        self.themes.push(theme);
        t
    }

    /// The theme with the handle `t`, if there is one.
    pub fn theme(&self, t: usize) -> (theme: Option<&Theme>)
        ensures
            match theme {
                Some(found) => t < self@.themes.len() && *found == self@.themes[t as int],
                None => t >= self@.themes.len(),
            },
    {
        if t < self.themes.len() {
            Some(&self.themes[t])
        } else {
            None
        }
    }

    /// The theme with the handle `t`, to be changed in place. Every widget
    /// that names this theme sees the change.
    pub fn theme_mut(&mut self, t: usize) -> (theme: &mut Theme)
        requires
            t < old(self)@.themes.len(),
        ensures
            *theme == old(self)@.themes[t as int],
            final(self)@ == (TreeModel {
                themes: old(self)@.themes.update(t as int, *final(theme)),
                ..old(self)@
            }),
    {
        &mut self.themes[t]
    }

    /// The widget with the handle `h`.
    pub fn widget(&self, h: usize) -> (widget: &Widget)
        requires
            self@.live(h),
        ensures
            *widget == self@.widget(h),
    {
        match &self.widgets[h] {
            Some(widget) => widget,
            None => unreached(),
        }
    }

    /// The widget with the handle `h`, to be changed in place. Its links to
    /// parent and children are not part of it and stay as they are.
    pub fn widget_mut(&mut self, h: usize) -> (widget: &mut Widget)
        requires
            old(self)@.live(h),
        ensures
            *widget == old(self)@.widget(h),
            final(self)@ == old(self)@.with_widget(h, *final(widget)),
            old(self)@.wf() ==> final(self)@.wf(),
    {
        proof {
            let m = self@;
            assert forall|w: Widget| m.wf() implies #[trigger] m.with_widget(h, w).wf() by {
                let n = m.with_widget(h, w);
                assert forall|k: usize| #![trigger m.live(k)] m.live(k) == n.live(k) by {}
                m.lemma_same_links_wf(n);
            }
        }
        match &mut self.widgets[h] {
            Some(widget) => widget,
            None => unreached(),
        }
    }

    /// The theme that the widget `h` names, if the tree holds it.
    pub fn theme_of(&self, h: usize) -> (theme: Option<&Theme>)
        requires
            self@.live(h),
        ensures
            match theme {
                Some(t) => self@.theme_of(h) == Some(*t),
                None => self@.theme_of(h) is None,
            },
    {
        match self.widget(h).base_ref().theme {
            Some(t) => self.theme(t),
            None => None,
        }
    }

    /// The parent of the widget `h`, if it has one.
    pub fn parent(&self, h: usize) -> (parent: Option<usize>)
        requires
            self@.wf(),
            h < self@.len(),
        ensures
            parent == self@.parent(h),
    {
        self.parents[h]
    }

    /// The children of the widget `h`, in order.
    pub fn children(&self, h: usize) -> (children: &Vec<usize>)
        requires
            self@.wf(),
            h < self@.len(),
        ensures
            children@ == self@.kids(h),
    {
        &self.children[h]
    }

    /// Takes the widget `c` out of the children of its parent, if it has one,
    /// and makes it a root. The last child of that parent moves into its
    /// place.
    pub fn detach(&mut self, c: usize)
        requires
            old(self)@.wf(),
            c < old(self)@.len(),
        ensures
            final(self)@ == old(self)@.detached(c),
            final(self)@.wf(),
    {
        proof {
            old(self)@.lemma_detached_wf(c);
        }
        match self.parents[c] {
            None => {},
            Some(p) => {
                let ghost k = self@.kids(p);
                proof {
                    assert(self@.parent(c) == Some(p));
                    assert(k.contains(c));
                }
                let count = self.children[p].len();
                let mut i: usize = 0;
                while self.children[p][i] != c
                    invariant
                        self@ == old(self)@,
                        count == k.len(),
                        p < self.children@.len(),
                        self.children@[p as int]@ == k,
                        k.contains(c),
                        0 <= i < k.len(),
                        forall|j: int| 0 <= j < i ==> k[j] != c,
                    decreases k.len() - i,
                {
                    proof {
                        if i + 1 >= k.len() {
                            let w = choose|w: int| 0 <= w < k.len() && k[w] == c;
                            assert(false);
                        }
                    }
                    i = i + 1;
                }
                proof {
                    let w = k.index_of(c);
                    assert(0 <= w < k.len() && k[w] == c);
                    if w < i {
                        assert(k[w] != k[i as int]);
                    } else if i < w {
                        assert(k[i as int] != k[w]);
                    }
                }
                self.children[p].swap_remove(i);
                self.parents[c] = None;
                proof {
                    assert(self@.children =~= old(self)@.detached(c).children);
                    assert(self@.parents =~= old(self)@.detached(c).parents);
                }
            },
        }
    }

    /// Makes the root `child` the last child of `container`.
    pub(crate) fn link(&mut self, container: usize, child: usize)
        requires
            old(self)@.wf(),
            old(self)@.live(container),
            old(self)@.live(child),
            old(self)@.parent(child) is None,
            !old(self)@.is_ancestor_or_self(child, container),
        ensures
            final(self)@ == old(self)@.linked(container, child),
            final(self)@.wf(),
    {
        self.parents[child] = Some(container);
        self.children[container].push(child);
        proof {
            self.rank@ = old(self)@.lifted_rank(container, child);
            self.limit@ = old(self)@.limit + old(self)@.limit;
            old(self)@.lemma_linked_wf(container, child);
            assert(self@.children =~= old(self)@.linked(container, child).children);
            assert(self@.parents =~= old(self)@.linked(container, child).parents);
        }
    }

    /// Destroys the widget `h` and hands back what it held. The widget is
    /// taken from its parent, and each of its children becomes a root; the
    /// children are not destroyed. The handle `h` names nothing from now on.
    pub fn destroy(&mut self, h: usize) -> (widget: Widget)
        requires
            old(self)@.wf(),
            old(self)@.live(h),
        ensures
            final(self)@ == old(self)@.destroyed(h),
            final(self)@.wf(),
            widget == old(self)@.widget(h),
            !final(self)@.live(h),
            forall|i: int|
                0 <= i < old(self)@.kids(h).len() ==> final(self)@.parent(
                    #[trigger] old(self)@.kids(h)[i],
                ) is None && final(self)@.live(old(self)@.kids(h)[i]),
    {
        proof {
            old(self)@.lemma_detached_wf(h);
            old(self)@.lemma_destroyed(h);
        }
        self.detach(h);
        let ghost m = self@;
        let ghost k = m.kids(h);
        let slots = self.parents.len();
        let mut i: usize = 0;
        while i < self.children[h].len()
            invariant
                m.wf(),
                slots == m.parents.len(),
                h < self.children@.len(),
                self.children@[h as int]@ == k,
                m.live(h),
                k == m.kids(h),
                0 <= i <= k.len(),
                self.widgets@ == m.widgets,
                self.themes@ == m.themes,
                self.rank@ == m.rank,
                self.limit@ == m.limit,
                self@.children == m.children,
                self.parents@.len() == m.parents.len(),
                forall|g: int|
                    0 <= g < m.parents.len() ==> #[trigger] self.parents@[g] == (if exists|j: int|
                        0 <= j < i && k[j] == g {
                        None
                    } else {
                        m.parents[g]
                    }),
            decreases k.len() - i,
        {
            let c = self.children[h][i];
            proof {
                assert(c == m.kids(h)[i as int]);
                assert(m.live(c));
            }
            let ghost before = self.parents@;
            self.parents[c] = None;
            proof {
                assert(self@.children =~= m.children);
                assert forall|g: int| 0 <= g < m.parents.len() implies #[trigger] self.parents@[g]
                    == (if exists|j: int| 0 <= j < i + 1 && k[j] == g {
                    None
                } else {
                    m.parents[g]
                }) by {
                    if g == c {
                        assert(k[i as int] == g);
                    } else if exists|j: int| 0 <= j < i && k[j] == g {
                        let j = choose|j: int| 0 <= j < i && k[j] == g;
                        assert(0 <= j < i + 1 && k[j] == g);
                    } else {
                        if exists|j: int| 0 <= j < i + 1 && k[j] == g {
                            let j = choose|j: int| 0 <= j < i + 1 && k[j] == g;
                            assert(j == i);
                        }
                    }
                }
            }
            i = i + 1;
        }
        self.children[h].clear();
        let mut slot: Option<Widget> = None;
        std::mem::swap(&mut self.widgets[h], &mut slot);
        proof {
            let n = old(self)@.destroyed(h);
            assert(self@.children =~= n.children);
            assert(self@.widgets =~= n.widgets);
            assert forall|g: int| 0 <= g < m.parents.len() implies self@.parents[g]
                == n.parents[g] by {
                if m.parents[g] == Some(h) {
                    assert(m.parent(g as usize) == Some(h));
                    assert(m.kids(h).contains(g as usize));
                    let j = choose|j: int| 0 <= j < k.len() && k[j] == g as usize;
                    assert(0 <= j < i && k[j] == g);
                } else {
                    if exists|j: int| 0 <= j < i && k[j] == g {
                        let j = choose|j: int| 0 <= j < i && k[j] == g;
                        assert(m.parent(m.kids(h)[j]) == Some(h));
                    }
                }
            }
            assert(self@.parents =~= n.parents);
        }
        match slot {
            Some(widget) => widget,
            None => unreached(),
        }
    }

    /// Whether `a` is `h` or one of its ancestors.
    pub fn is_ancestor_or_self(&self, a: usize, h: usize) -> (found: bool)
        requires
            self@.wf(),
            h < self@.len(),
        ensures
            found == self@.is_ancestor_or_self(a, h),
    {
        let mut cur = h;
        loop
            invariant
                self@.wf(),
                cur < self@.len(),
                self@.is_ancestor_or_self(a, h) == self@.is_ancestor_or_self(a, cur),
            decreases self@.limit - self@.rank_of(cur),
        {
            if cur == a {
                return true;
            }
            match self.parents[cur] {
                Some(p) => {
                    proof {
                        assert(self@.parent(cur) == Some(p));
                    }
                    cur = p;
                },
                None => {
                    return false;
                },
            }
        }
    }
}

} // verus!
