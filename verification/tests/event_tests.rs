use nanoguirustsdl::common::MouseButton;
use nanoguirustsdl::events::{FocusRequest, HoverChange};
use nanoguirustsdl::screen::Screen;
use nanoguirustsdl::tree::WidgetTree;
use nanoguirustsdl::widget::{Widget, WidgetObj};
use nanoguirustsdl::widget_container::push_child;

fn plain(tree: &mut WidgetTree, id: &str, pos: (u32, u32), size: (u32, u32)) -> usize {
    let h = tree.add(Widget::Plain(WidgetObj::new(id.to_string())));
    tree.widget_mut(h).set_pos(pos);
    tree.widget_mut(h).set_size(size);
    h
}

fn screen(tree: &mut WidgetTree) -> usize {
    tree.add(Widget::Screen(Screen::new("screen".to_string(), "Screen".to_string(), (100, 100), 0)))
}

fn requests(list: &[FocusRequest]) -> Vec<(usize, usize)> {
    list.iter().map(|r| (r.widget, r.screen)).collect()
}

fn changes(list: &[HoverChange]) -> Vec<(usize, bool)> {
    list.iter().map(|c| (c.widget, c.entered)).collect()
}

#[test]
fn a_click_asks_for_the_focus_from_the_inside_out() {
    let mut tree = WidgetTree::new();
    let root = screen(&mut tree);
    let panel = plain(&mut tree, "panel", (10, 10), (50, 50));
    let button = plain(&mut tree, "button", (5, 5), (10, 10));
    let other = plain(&mut tree, "other", (60, 60), (10, 10));
    push_child(&mut tree, root, panel);
    push_child(&mut tree, root, other);
    push_child(&mut tree, panel, button);
    let mut told: Vec<FocusRequest> = Vec::new();
    let handled = tree.mouse_button_event(root, (12, 12), MouseButton::Left, true, 0, &mut told);
    assert!(!handled);
    // The screen itself asks nobody.
    assert_eq!(requests(&told), vec![(panel, root)]);

    told.clear();
    tree.mouse_button_event(panel, (16, 16), MouseButton::Left, true, 0, &mut told);
    assert_eq!(requests(&told), vec![(button, root), (panel, root)]);
}

#[test]
fn only_the_primary_button_going_down_asks_for_the_focus() {
    let mut tree = WidgetTree::new();
    let root = screen(&mut tree);
    let panel = plain(&mut tree, "panel", (0, 0), (50, 50));
    push_child(&mut tree, root, panel);
    let mut told: Vec<FocusRequest> = Vec::new();
    tree.mouse_button_event(root, (1, 1), MouseButton::Left, false, 0, &mut told);
    tree.mouse_button_event(root, (1, 1), MouseButton::Right, true, 0, &mut told);
    tree.mouse_button_event(root, (1, 1), MouseButton::Middle, true, 0, &mut told);
    assert!(told.is_empty());
    tree.mouse_button_event(root, (1, 1), MouseButton::Left, true, 0, &mut told);
    assert_eq!(requests(&told), vec![(panel, root)]);
}

#[test]
fn a_focused_widget_does_not_ask_again() {
    let mut tree = WidgetTree::new();
    let root = screen(&mut tree);
    let panel = plain(&mut tree, "panel", (0, 0), (50, 50));
    push_child(&mut tree, root, panel);
    assert!(!tree.focus_event(panel, true));
    assert!(tree.widget(panel).focused());
    let mut told: Vec<FocusRequest> = Vec::new();
    tree.mouse_button_event(root, (1, 1), MouseButton::Left, true, 0, &mut told);
    assert!(told.is_empty());
    tree.focus_event(panel, false);
    tree.mouse_button_event(root, (1, 1), MouseButton::Left, true, 0, &mut told);
    assert_eq!(requests(&told), vec![(panel, root)]);
}

#[test]
fn a_click_is_not_handed_to_hidden_or_missed_children() {
    let mut tree = WidgetTree::new();
    let root = screen(&mut tree);
    let hidden = plain(&mut tree, "hidden", (0, 0), (50, 50));
    let missed = plain(&mut tree, "missed", (60, 60), (10, 10));
    let both = plain(&mut tree, "both", (0, 0), (50, 50));
    tree.widget_mut(hidden).set_visible(false);
    push_child(&mut tree, root, hidden);
    push_child(&mut tree, root, missed);
    push_child(&mut tree, root, both);
    let mut told: Vec<FocusRequest> = Vec::new();
    tree.mouse_button_event(root, (1, 1), MouseButton::Left, true, 0, &mut told);
    assert_eq!(requests(&told), vec![(both, root)]);
}

#[test]
fn a_click_without_a_screen_tells_nobody() {
    let mut tree = WidgetTree::new();
    let root = plain(&mut tree, "root", (0, 0), (50, 50));
    let child = plain(&mut tree, "child", (0, 0), (50, 50));
    push_child(&mut tree, root, child);
    let mut told: Vec<FocusRequest> = Vec::new();
    assert!(!tree.mouse_button_event(root, (1, 1), MouseButton::Left, true, 0, &mut told));
    assert!(told.is_empty());
}

#[test]
fn a_click_left_of_the_widget_reaches_no_child() {
    let mut tree = WidgetTree::new();
    let root = screen(&mut tree);
    let panel = plain(&mut tree, "panel", (10, 10), (50, 50));
    let button = plain(&mut tree, "button", (0, 0), (10, 10));
    push_child(&mut tree, root, panel);
    push_child(&mut tree, panel, button);
    let mut told: Vec<FocusRequest> = Vec::new();
    tree.mouse_button_event(panel, (5, 15), MouseButton::Left, true, 0, &mut told);
    assert_eq!(requests(&told), vec![(panel, root)]);
}

#[test]
fn motion_enters_and_leaves() {
    let mut tree = WidgetTree::new();
    let root = screen(&mut tree);
    let left = plain(&mut tree, "left", (0, 0), (10, 10));
    let right = plain(&mut tree, "right", (10, 0), (10, 10));
    push_child(&mut tree, root, left);
    push_child(&mut tree, root, right);
    // From (8, 5) to (12, 5): out of the left one, into the right one.
    let mut list: Vec<HoverChange> = Vec::new();
    tree.motion_changes(root, (12, 5), (4, 0), &mut list);
    assert_eq!(changes(&list), vec![(left, false), (right, true)]);
    tree.widget_mut(left).mouse_enter_event((8, 5), true);
    assert!(tree.widget(left).base_ref().mouse_focus);
    assert!(!tree.mouse_motion_event(root, (12, 5), (4, 0), MouseButton::Unknown, 0));
    assert!(!tree.widget(left).base_ref().mouse_focus);
    assert!(tree.widget(right).base_ref().mouse_focus);
    // A move inside the right one changes nothing.
    list.clear();
    tree.motion_changes(root, (13, 6), (1, 1), &mut list);
    assert!(list.is_empty());
    tree.mouse_motion_event(root, (13, 6), (1, 1), MouseButton::Unknown, 0);
    assert!(tree.widget(right).base_ref().mouse_focus);
}

#[test]
fn motion_uses_both_parts_of_the_move() {
    let mut tree = WidgetTree::new();
    let root = screen(&mut tree);
    let low = plain(&mut tree, "low", (0, 10), (10, 10));
    push_child(&mut tree, root, low);
    // From (5, 8) to (5, 12): the move is all in y.
    let mut list: Vec<HoverChange> = Vec::new();
    tree.motion_changes(root, (5, 12), (0, 4), &mut list);
    assert_eq!(changes(&list), vec![(low, true)]);
    // From (1, 12) to (5, 12): the widget held the point before.
    list.clear();
    tree.motion_changes(root, (5, 12), (4, 0), &mut list);
    assert!(list.is_empty());
}

#[test]
fn motion_goes_down_where_the_pointer_is_or_was() {
    let mut tree = WidgetTree::new();
    let root = screen(&mut tree);
    let panel = plain(&mut tree, "panel", (0, 0), (20, 20));
    let inner = plain(&mut tree, "inner", (5, 5), (5, 5));
    let hidden = plain(&mut tree, "hidden", (0, 0), (20, 20));
    tree.widget_mut(hidden).set_visible(false);
    push_child(&mut tree, root, hidden);
    push_child(&mut tree, root, panel);
    push_child(&mut tree, panel, inner);
    let mut list: Vec<HoverChange> = Vec::new();
    // From (3, 3) to (6, 6), inside the panel, into the inner widget.
    tree.motion_changes(root, (6, 6), (3, 3), &mut list);
    assert_eq!(changes(&list), vec![(inner, true)]);
    // From (6, 6) to (30, 30): out of both, the outer one first.
    list.clear();
    tree.motion_changes(root, (30, 30), (24, 24), &mut list);
    assert_eq!(changes(&list), vec![(panel, false), (inner, false)]);
    // A move that started left of the origin was in no widget before.
    list.clear();
    tree.motion_changes(root, (1, 1), (5, 0), &mut list);
    assert_eq!(changes(&list), vec![(panel, true)]);
}

#[test]
fn enter_event_sets_the_hover_flag() {
    let mut tree = WidgetTree::new();
    let w = plain(&mut tree, "w", (0, 0), (1, 1));
    assert!(!tree.widget(w).base_ref().mouse_focus);
    assert!(!tree.mouse_enter_event(w, (0, 0), true));
    assert!(tree.widget(w).base_ref().mouse_focus);
    assert!(!tree.mouse_enter_event(w, (0, 0), false));
    assert!(!tree.widget(w).base_ref().mouse_focus);
}

#[test]
fn events_that_no_widget_takes() {
    let mut tree = WidgetTree::new();
    let root = screen(&mut tree);
    let panel = plain(&mut tree, "panel", (10, 10), (50, 50));
    let inner = plain(&mut tree, "inner", (0, 0), (50, 50));
    push_child(&mut tree, root, panel);
    push_child(&mut tree, panel, inner);
    assert!(!tree.scroll_event(root, (12, 12), (0, 1)));
    assert!(!tree.scroll_event(panel, (0, 0), (0, 1)));
    assert!(!tree.mouse_drag_event(root, (12, 12), (1, 1), MouseButton::Left, 0));
    assert!(!tree.keyboard_event(root, 0, Some(4), true, 0));
    assert!(!tree.keyboard_character_event(root, 97));
}

#[test]
fn motion_to_the_left_and_upwards() {
    let mut tree = WidgetTree::new();
    let root = screen(&mut tree);
    let left = plain(&mut tree, "left", (0, 0), (10, 10));
    let right = plain(&mut tree, "right", (10, 0), (10, 10));
    let low = plain(&mut tree, "low", (0, 10), (10, 10));
    push_child(&mut tree, root, left);
    push_child(&mut tree, root, right);
    push_child(&mut tree, root, low);
    // From (12, 5) to (8, 5): out of the right one, into the left one.
    let mut list: Vec<HoverChange> = Vec::new();
    tree.motion_changes(root, (8, 5), (-4, 0), &mut list);
    assert_eq!(changes(&list), vec![(left, true), (right, false)]);
    // From (5, 12) to (5, 8): out of the low one, into the left one.
    list.clear();
    tree.motion_changes(root, (5, 8), (0, -4), &mut list);
    assert_eq!(changes(&list), vec![(left, true), (low, false)]);
    tree.widget_mut(right).mouse_enter_event((12, 5), true);
    assert!(!tree.mouse_motion_event(root, (8, 5), (-4, 0), MouseButton::Unknown, 0));
    assert!(tree.widget(left).base_ref().mouse_focus);
    assert!(!tree.widget(right).base_ref().mouse_focus);
}

#[test]
fn motion_out_of_a_widget_on_its_left_side() {
    let mut tree = WidgetTree::new();
    let root = screen(&mut tree);
    let panel = plain(&mut tree, "panel", (10, 10), (20, 20));
    let inner = plain(&mut tree, "inner", (0, 0), (5, 5));
    push_child(&mut tree, root, panel);
    push_child(&mut tree, panel, inner);
    // From (12, 12), in the panel and in its child, to (5, 12), left of both.
    let mut list: Vec<HoverChange> = Vec::new();
    tree.motion_changes(root, (5, 12), (-7, 0), &mut list);
    assert_eq!(changes(&list), vec![(panel, false), (inner, false)]);
    // From (5, 12) back to (12, 12).
    list.clear();
    tree.motion_changes(root, (12, 12), (7, 0), &mut list);
    assert_eq!(changes(&list), vec![(panel, true), (inner, true)]);
    // The far corners of the plane.
    list.clear();
    tree.motion_changes(root, (0, 0), (i32::MIN, i32::MIN), &mut list);
    assert!(list.is_empty());
    tree.motion_changes(root, (u32::MAX, u32::MAX), (i32::MAX, i32::MAX), &mut list);
    assert!(list.is_empty());
    tree.motion_changes(root, (u32::MAX, u32::MAX), (i32::MIN, i32::MIN), &mut list);
    assert!(list.is_empty());
}
