use nanoguirustsdl::tree::WidgetTree;
use nanoguirustsdl::widget::{Widget, WidgetObj};
use nanoguirustsdl::widget_container::{
    can_push_child, find_by_id, find_widget, push_child, remove_child_by_child,
    remove_child_by_id, try_push_child,
};

fn plain(tree: &mut WidgetTree, id: &str) -> usize {
    tree.add(Widget::Plain(WidgetObj::new(id.to_string())))
}

#[test]
fn attach_sets_parent_and_appends_once() {
    let mut tree = WidgetTree::new();
    let a = plain(&mut tree, "a");
    let b = plain(&mut tree, "b");
    let c = plain(&mut tree, "c");
    push_child(&mut tree, a, b);
    push_child(&mut tree, a, c);
    assert_eq!(tree.parent(b), Some(a));
    assert_eq!(tree.parent(c), Some(a));
    assert_eq!(tree.children(a), &vec![b, c]);
    assert_eq!(tree.parent(a), None);
}

#[test]
fn attach_twice_does_not_duplicate() {
    let mut tree = WidgetTree::new();
    let a = plain(&mut tree, "a");
    let b = plain(&mut tree, "b");
    push_child(&mut tree, a, b);
    assert!(can_push_child(&tree, a, b));
    push_child(&mut tree, a, b);
    assert_eq!(tree.children(a), &vec![b]);
    assert_eq!(tree.parent(b), Some(a));
}

#[test]
fn attach_again_moves_the_child_to_the_end() {
    let mut tree = WidgetTree::new();
    let a = plain(&mut tree, "a");
    let b = plain(&mut tree, "b");
    let c = plain(&mut tree, "c");
    let d = plain(&mut tree, "d");
    push_child(&mut tree, a, b);
    push_child(&mut tree, a, c);
    push_child(&mut tree, a, d);
    push_child(&mut tree, a, b);
    assert_eq!(tree.children(a), &vec![d, c, b]);
}

#[test]
fn attach_moves_a_child_between_parents() {
    let mut tree = WidgetTree::new();
    let a = plain(&mut tree, "a");
    let b = plain(&mut tree, "b");
    let c = plain(&mut tree, "c");
    push_child(&mut tree, a, c);
    push_child(&mut tree, b, c);
    assert_eq!(tree.children(a).len(), 0);
    assert_eq!(tree.children(b), &vec![c]);
    assert_eq!(tree.parent(c), Some(b));
}

#[test]
fn self_attach_is_rejected() {
    let mut tree = WidgetTree::new();
    let a = plain(&mut tree, "a");
    assert!(!can_push_child(&tree, a, a));
    assert_eq!(tree.parent(a), None);
    assert_eq!(tree.children(a).len(), 0);
}

#[test]
fn a_rejected_attach_changes_nothing() {
    let mut tree = WidgetTree::new();
    let a = plain(&mut tree, "a");
    let b = plain(&mut tree, "b");
    let c = plain(&mut tree, "c");
    assert!(try_push_child(&mut tree, a, b));
    assert!(try_push_child(&mut tree, b, c));
    assert!(!try_push_child(&mut tree, a, a));
    assert!(!try_push_child(&mut tree, c, a));
    assert!(!try_push_child(&mut tree, c, 9));
    assert_eq!(tree.children(a), &vec![b]);
    assert_eq!(tree.children(b), &vec![c]);
    assert_eq!(tree.children(c).len(), 0);
    assert_eq!(tree.parent(a), None);
    assert_eq!(tree.parent(b), Some(a));
    assert_eq!(tree.parent(c), Some(b));
}

#[test]
fn attach_of_equal_identifiers_is_rejected() {
    let mut tree = WidgetTree::new();
    let a = plain(&mut tree, "same");
    let b = plain(&mut tree, "same");
    assert!(!can_push_child(&tree, a, b));
}

#[test]
fn attach_that_would_close_a_cycle_is_rejected() {
    let mut tree = WidgetTree::new();
    let a = plain(&mut tree, "a");
    let b = plain(&mut tree, "b");
    let c = plain(&mut tree, "c");
    push_child(&mut tree, a, b);
    push_child(&mut tree, b, c);
    assert!(!can_push_child(&tree, c, a));
    assert!(!can_push_child(&tree, b, a));
    assert!(can_push_child(&tree, a, c));
    assert!(tree.is_ancestor_or_self(a, c));
    assert!(tree.is_ancestor_or_self(c, c));
    assert!(!tree.is_ancestor_or_self(c, a));
}

#[test]
fn attach_to_a_missing_widget_is_rejected() {
    let mut tree = WidgetTree::new();
    let a = plain(&mut tree, "a");
    assert!(!can_push_child(&tree, a, 7));
    assert!(!can_push_child(&tree, 7, a));
}

#[test]
fn detach_of_a_stranger_is_a_no_op() {
    let mut tree = WidgetTree::new();
    let a = plain(&mut tree, "a");
    let b = plain(&mut tree, "b");
    let c = plain(&mut tree, "c");
    push_child(&mut tree, a, b);
    assert!(!remove_child_by_child(&mut tree, a, c));
    assert!(!remove_child_by_id(&mut tree, a, "nobody".to_string()));
    assert_eq!(tree.children(a), &vec![b]);
    assert_eq!(tree.parent(b), Some(a));
    assert_eq!(tree.parent(c), None);
}

#[test]
fn detach_by_id_takes_the_first_match_and_swaps_in_the_last() {
    let mut tree = WidgetTree::new();
    let a = plain(&mut tree, "a");
    let b = plain(&mut tree, "b");
    let c = plain(&mut tree, "c");
    let d = plain(&mut tree, "d");
    let e = plain(&mut tree, "b");
    push_child(&mut tree, a, b);
    push_child(&mut tree, a, c);
    push_child(&mut tree, a, e);
    push_child(&mut tree, a, d);
    assert!(remove_child_by_id(&mut tree, a, "b".to_string()));
    assert_eq!(tree.children(a), &vec![d, c, e]);
    assert_eq!(tree.parent(b), None);
    assert_eq!(tree.parent(e), Some(a));
    assert!(tree.is_live(b));
}

#[test]
fn detach_makes_a_root() {
    let mut tree = WidgetTree::new();
    let a = plain(&mut tree, "a");
    let b = plain(&mut tree, "b");
    push_child(&mut tree, a, b);
    tree.detach(b);
    assert_eq!(tree.parent(b), None);
    assert_eq!(tree.children(a).len(), 0);
    tree.detach(b);
    assert_eq!(tree.parent(b), None);
}

#[test]
fn find_by_id_returns_the_first_match() {
    let mut tree = WidgetTree::new();
    let a = plain(&mut tree, "a");
    let b = plain(&mut tree, "x");
    let c = plain(&mut tree, "y");
    let d = plain(&mut tree, "y");
    push_child(&mut tree, a, b);
    push_child(&mut tree, a, c);
    push_child(&mut tree, a, d);
    assert_eq!(find_by_id(&tree, a, &"y".to_string()), Some(c));
    assert_eq!(find_by_id(&tree, a, &"x".to_string()), Some(b));
    assert_eq!(find_by_id(&tree, a, &"z".to_string()), None);
    assert_eq!(find_by_id(&tree, b, &"y".to_string()), None);
}

#[test]
fn destroying_a_parent_frees_its_children() {
    let mut tree = WidgetTree::new();
    let root = plain(&mut tree, "root");
    let a = plain(&mut tree, "a");
    let b = plain(&mut tree, "b");
    let c = plain(&mut tree, "c");
    let below = plain(&mut tree, "below");
    push_child(&mut tree, root, a);
    push_child(&mut tree, a, b);
    push_child(&mut tree, a, c);
    push_child(&mut tree, b, below);
    let gone = tree.destroy(a);
    assert_eq!(gone.id(), "a".to_string());
    assert!(!tree.is_live(a));
    assert!(tree.is_live(b));
    assert!(tree.is_live(c));
    assert_eq!(tree.parent(b), None);
    assert_eq!(tree.parent(c), None);
    assert_eq!(tree.parent(below), Some(b));
    assert_eq!(tree.children(root).len(), 0);
    assert_eq!(tree.len(), 5);
}

#[test]
fn handles_count_up_from_zero() {
    let mut tree = WidgetTree::new();
    assert_eq!(tree.len(), 0);
    assert!(!tree.is_live(0));
    let a = plain(&mut tree, "a");
    let b = plain(&mut tree, "b");
    assert_eq!((a, b), (0, 1));
    assert!(tree.is_live(a));
    assert_eq!(tree.widget(b).id(), "b".to_string());
}

#[test]
fn hit_test_finds_the_deepest_widget() {
    let mut tree = WidgetTree::new();
    let root = plain(&mut tree, "root");
    let panel = plain(&mut tree, "panel");
    let button = plain(&mut tree, "button");
    let hidden = plain(&mut tree, "hidden");
    push_child(&mut tree, root, hidden);
    push_child(&mut tree, root, panel);
    push_child(&mut tree, panel, button);
    tree.widget_mut(root).set_size((100, 100));
    tree.widget_mut(hidden).set_size((100, 100));
    tree.widget_mut(hidden).set_visible(false);
    tree.widget_mut(panel).set_pos((10, 10));
    tree.widget_mut(panel).set_size((50, 50));
    tree.widget_mut(button).set_pos((5, 5));
    tree.widget_mut(button).set_size((10, 10));
    // The panel tests its children in its parent's coordinates less its own
    // position, so the button spans 15..25 on both axes.
    assert_eq!(find_widget(&tree, root, (30, 30)), Some(panel));
    assert_eq!(find_widget(&tree, root, (10, 10)), Some(panel));
    assert_eq!(find_widget(&tree, root, (59, 59)), Some(panel));
    assert_eq!(find_widget(&tree, root, (60, 60)), Some(root));
    assert_eq!(find_widget(&tree, root, (5, 5)), Some(root));
    assert_eq!(find_widget(&tree, root, (100, 100)), None);
    assert_eq!(find_widget(&tree, panel, (15, 15)), Some(button));
    assert_eq!(find_widget(&tree, panel, (24, 24)), Some(button));
    assert_eq!(find_widget(&tree, panel, (25, 25)), Some(panel));
    assert_eq!(find_widget(&tree, panel, (9, 9)), None);
}

#[test]
fn hit_test_left_of_the_container_finds_nothing() {
    let mut tree = WidgetTree::new();
    let root = plain(&mut tree, "root");
    let child = plain(&mut tree, "child");
    push_child(&mut tree, root, child);
    tree.widget_mut(root).set_pos((20, 20));
    tree.widget_mut(root).set_size((10, 10));
    tree.widget_mut(child).set_size((10, 10));
    assert_eq!(find_widget(&tree, root, (5, 25)), None);
    assert_eq!(find_widget(&tree, root, (25, 25)), Some(child));
}
