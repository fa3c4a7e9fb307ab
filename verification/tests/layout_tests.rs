use nanoguirustsdl::layout::{BoxLayout, Orientation};
use nanoguirustsdl::tree::WidgetTree;
use nanoguirustsdl::widget::{Widget, WidgetObj};
use nanoguirustsdl::widget_container::push_child;

#[test]
fn preferred_size_no_layout_test() {
    let mut tree = WidgetTree::new();
    let widget_one = tree.add(Widget::Plain(WidgetObj::new("one".to_string())));

    tree.widget_mut(widget_one).set_size((10, 10));

    let result = tree.preferred_size(widget_one);
    assert_eq!(result, (10u32, 10u32));
}

#[test]
fn preferred_size_without_children_test() {
    let mut tree = WidgetTree::new();
    let widget_one = tree.add(Widget::Plain(WidgetObj::new("one".to_string())));
    let mut layout = BoxLayout::new(Orientation::Horizontal);

    layout.margin = 1;
    layout.spacing = 1;
    tree.widget_mut(widget_one).set_layout(Some(layout));
    tree.widget_mut(widget_one).set_size((10, 10));

    let result = tree.preferred_size(widget_one);
    assert_eq!(result, (2u32, 2u32));
}

#[test]
fn preferred_size_with_children_test() {
    let mut tree = WidgetTree::new();
    let widget_one = tree.add(Widget::Plain(WidgetObj::new("one".to_string())));
    let widget_two = tree.add(Widget::Plain(WidgetObj::new("two".to_string())));
    let mut layout = BoxLayout::new(Orientation::Horizontal);

    layout.margin = 1;
    layout.spacing = 1;
    tree.widget_mut(widget_one).set_layout(Some(layout));
    push_child(&mut tree, widget_one, widget_two);
    tree.widget_mut(widget_one).set_size((10, 10));
    tree.widget_mut(widget_two).set_size((10, 10));
    tree.widget_mut(widget_two).set_visible(false);

    let mut result = tree.preferred_size(widget_one);
    assert_eq!(result, (2u32, 2u32));

    tree.widget_mut(widget_two).set_visible(true);

    result = tree.preferred_size(widget_one);
    assert_eq!(result, (12u32, 12u32));

    tree.widget_mut(widget_two).set_fixed_size((5, 5));

    result = tree.preferred_size(widget_one);
    assert_eq!(result, (7u32, 7u32));
}

#[test]
fn preferred_size_with_children_of_children_test() {
    let mut tree = WidgetTree::new();
    let widget_one = tree.add(Widget::Plain(WidgetObj::new("one".to_string())));
    let widget_two = tree.add(Widget::Plain(WidgetObj::new("two".to_string())));
    let widget_three = tree.add(Widget::Plain(WidgetObj::new("three".to_string())));
    let mut layout_one = BoxLayout::new(Orientation::Horizontal);
    let mut layout_two = BoxLayout::new(Orientation::Horizontal);

    layout_one.margin = 1;
    layout_one.spacing = 1;
    layout_two.margin = 1;
    layout_two.spacing = 1;
    tree.widget_mut(widget_one).set_layout(Some(layout_one));
    tree.widget_mut(widget_two).set_layout(Some(layout_two));
    push_child(&mut tree, widget_one, widget_two);
    push_child(&mut tree, widget_two, widget_three);
    tree.widget_mut(widget_one).set_size((10, 10));
    tree.widget_mut(widget_two).set_size((10, 10));
    tree.widget_mut(widget_three).set_size((10, 10));

    let result = tree.preferred_size(widget_one);
    assert_eq!(result, (14u32, 14u32));
}
