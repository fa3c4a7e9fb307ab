use nanoguirustsdl::label::Label;
use nanoguirustsdl::screen::Screen;
use nanoguirustsdl::theme::Theme;
use nanoguirustsdl::tree::WidgetTree;
use nanoguirustsdl::widget::{Widget, WidgetObj, DEFAULT_FONT_SIZE};
use nanoguirustsdl::widget_container::push_child;
use nanoguirustsdl::window::Window;

fn plain(tree: &mut WidgetTree, id: &str) -> usize {
    tree.add(Widget::Plain(WidgetObj::new(id.to_string())))
}

#[test]
fn contains_is_half_open() {
    let mut widget = WidgetObj::new("w".to_string());
    widget.set_pos((0, 0));
    widget.set_size((10, 10));
    assert!(widget.contains((9, 9)));
    assert!(!widget.contains((10, 10)));
    assert!(widget.contains((0, 0)));
    assert!(!widget.contains((10, 0)));
    assert!(!widget.contains((0, 10)));
}

#[test]
fn contains_respects_the_position() {
    let mut widget = Widget::Plain(WidgetObj::new("w".to_string()));
    widget.set_pos((3, 4));
    widget.set_size((2, 1));
    assert!(widget.contains((3, 4)));
    assert!(widget.contains((4, 4)));
    assert!(!widget.contains((5, 4)));
    assert!(!widget.contains((3, 5)));
    assert!(!widget.contains((2, 4)));
    assert!(!widget.contains((3, 3)));
}

#[test]
fn contains_at_takes_points_left_of_the_origin() {
    let mut widget = WidgetObj::new("w".to_string());
    widget.set_pos((0, 0));
    widget.set_size((10, 10));
    assert!(widget.contains_at(0, 0));
    assert!(widget.contains_at(9, 9));
    assert!(!widget.contains_at(-1, 0));
    assert!(!widget.contains_at(0, -1));
    assert!(!widget.contains_at(10, 0));
    assert!(!widget.contains_at(i64::MIN, 5));
}

#[test]
fn contains_does_not_wrap_around() {
    let mut widget = WidgetObj::new("w".to_string());
    widget.set_pos((u32::MAX - 1, u32::MAX - 1));
    widget.set_size((10, 10));
    assert!(widget.contains((u32::MAX, u32::MAX)));
    assert!(!widget.contains((0, 0)));
    assert!(!widget.contains((5, 5)));
}

#[test]
fn an_empty_rectangle_contains_nothing() {
    let widget = WidgetObj::new("w".to_string());
    assert!(!widget.contains((0, 0)));
}

#[test]
fn font_size_resolution() {
    let mut tree = WidgetTree::new();
    let mut theme = Theme::new_debug();
    theme.set_standard_font_size(20);
    let theme = tree.add_theme(theme);
    let w = plain(&mut tree, "w");
    tree.widget_mut(w).set_theme(Some(theme));
    assert_eq!(tree.font_size(w), 20);
    tree.widget_mut(w).set_font_size(Some(8));
    assert_eq!(tree.font_size(w), 8);
    let bare = plain(&mut tree, "bare");
    assert_eq!(tree.font_size(bare), 12);
    tree.widget_mut(w).set_font_size(None);
    tree.widget_mut(w).set_theme(None);
    assert_eq!(tree.font_size(w), 12);
    assert_eq!(DEFAULT_FONT_SIZE, 12);
}

#[test]
fn font_size_of_a_widget_outside_a_tree() {
    let mut theme = Theme::new_debug();
    theme.set_standard_font_size(20);
    let mut widget = WidgetObj::new("w".to_string());
    assert_eq!(widget.font_size(Some(&theme)), 20);
    assert_eq!(widget.font_size(None), 12);
    widget.set_font_size(Some(8));
    assert_eq!(widget.font_size(Some(&theme)), 8);
    assert_eq!(Widget::Plain(widget).font_size(None), 8);
}

#[test]
fn a_new_widget_takes_the_font_size_of_its_theme() {
    let mut tree = WidgetTree::new();
    let mut theme = Theme::new_debug();
    theme.set_standard_font_size(20);
    let theme = tree.add_theme(theme);
    let mut widget_one = WidgetObj::new("one".to_string());
    widget_one.set_theme(Some(theme));
    let w = tree.add(Widget::Plain(widget_one));
    assert_eq!(tree.font_size(w), 20);
    let label = tree.add(Widget::Label(Label::new(
        "l".to_string(),
        "text".to_string(),
        "sans".to_string(),
        None,
    )));
    let window = tree.add(Widget::Window(Window::new("w".to_string(), "W".to_string())));
    let screen = tree.add(Widget::Screen(Screen::new(
        "s".to_string(),
        "S".to_string(),
        (8, 6),
        0,
    )));
    for h in [label, window, screen] {
        assert_eq!(tree.font_size(h), 12);
        tree.widget_mut(h).set_theme(Some(theme));
        assert_eq!(tree.font_size(h), 20);
    }
}

#[test]
fn a_new_widget_has_the_default_font_size() {
    let mut tree = WidgetTree::new();
    let w = plain(&mut tree, "w");
    assert_eq!(tree.font_size(w), 12);
}

#[test]
fn a_theme_that_is_not_there_counts_as_none() {
    let mut tree = WidgetTree::new();
    let w = plain(&mut tree, "w");
    tree.widget_mut(w).set_theme(Some(3));
    assert!(tree.theme_of(w).is_none());
    assert_eq!(tree.font_size(w), 12);
}

#[test]
fn a_change_of_the_theme_reaches_every_widget() {
    let mut tree = WidgetTree::new();
    let theme = tree.add_theme(Theme::new_debug());
    let a = plain(&mut tree, "a");
    let b = plain(&mut tree, "b");
    for w in [a, b] {
        tree.widget_mut(w).set_theme(Some(theme));
    }
    assert_eq!(tree.font_size(a), 16);
    tree.theme_mut(theme).set_standard_font_size(31);
    assert_eq!(tree.font_size(a), 31);
    assert_eq!(tree.font_size(b), 31);
}

#[test]
fn absolute_position_sums_up_the_chain() {
    let mut tree = WidgetTree::new();
    let root = plain(&mut tree, "root");
    let parent = plain(&mut tree, "parent");
    let child = plain(&mut tree, "child");
    push_child(&mut tree, root, parent);
    push_child(&mut tree, parent, child);
    tree.widget_mut(root).set_pos((4, 1));
    tree.widget_mut(parent).set_pos((6, 9));
    tree.widget_mut(child).set_pos((3, 4));
    assert_eq!(tree.absolute_position(root), (4, 1));
    assert_eq!(tree.absolute_position(parent), (10, 10));
    assert_eq!(tree.absolute_position(child), (13, 14));
    assert_eq!(tree.checked_absolute_position(child), Some((13, 14)));
}

#[test]
fn absolute_position_that_does_not_fit() {
    let mut tree = WidgetTree::new();
    let root = plain(&mut tree, "root");
    let child = plain(&mut tree, "child");
    push_child(&mut tree, root, child);
    tree.widget_mut(root).set_pos((u32::MAX, 0));
    tree.widget_mut(child).set_pos((1, 0));
    assert_eq!(tree.checked_absolute_position(root), Some((u32::MAX, 0)));
    assert_eq!(tree.checked_absolute_position(child), None);
    tree.widget_mut(child).set_pos((0, 7));
    assert_eq!(tree.checked_absolute_position(child), Some((u32::MAX, 7)));
}

#[test]
fn visible_recursive_follows_the_ancestors() {
    let mut tree = WidgetTree::new();
    let root = plain(&mut tree, "root");
    let parent = plain(&mut tree, "parent");
    let child = plain(&mut tree, "child");
    push_child(&mut tree, root, parent);
    push_child(&mut tree, parent, child);
    assert!(tree.visible_recursive(child));
    tree.widget_mut(child).set_visible(false);
    assert!(!tree.visible_recursive(child));
    assert!(tree.visible_recursive(parent));
    tree.widget_mut(child).set_visible(true);
    tree.widget_mut(root).set_visible(false);
    assert!(!tree.visible_recursive(child));
    assert!(!tree.visible_recursive(parent));
    assert!(!tree.visible_recursive(root));
    tree.widget_mut(root).set_visible(true);
    tree.widget_mut(parent).set_visible(false);
    assert!(!tree.visible_recursive(child));
    assert!(tree.visible_recursive(root));
}

#[test]
fn request_focus_tells_the_nearest_screen() {
    let mut tree = WidgetTree::new();
    let outer = tree.add(Widget::Screen(Screen::new(
        "outer".to_string(),
        "Outer".to_string(),
        (800, 600),
        0,
    )));
    let inner = tree.add(Widget::Screen(Screen::new(
        "inner".to_string(),
        "Inner".to_string(),
        (80, 60),
        0,
    )));
    let window = tree.add(Widget::Window(Window::new("window".to_string(), "W".to_string())));
    let label = tree.add(Widget::Label(Label::new(
        "label".to_string(),
        "text".to_string(),
        "sans".to_string(),
        None,
    )));
    let lonely = plain(&mut tree, "lonely");
    push_child(&mut tree, outer, inner);
    push_child(&mut tree, inner, window);
    push_child(&mut tree, window, label);
    assert_eq!(tree.request_focus(label), Some(inner));
    assert_eq!(tree.request_focus(window), Some(inner));
    assert_eq!(tree.request_focus(inner), None);
    assert_eq!(tree.request_focus(outer), None);
    assert_eq!(tree.request_focus(lonely), None);
    tree.detach(window);
    assert_eq!(tree.request_focus(label), None);
}
