use nanoguirustsdl::theme::Theme;
use nanoguirustsdl::tree::WidgetTree;
use nanoguirustsdl::widget::{Widget, WidgetObj};
use nanoguirustsdl::widget_container::{push_child, remove_child_by_child};

#[test]
fn push_and_remove_child_test() {
    let mut tree = WidgetTree::new();
    let widget_one = tree.add(Widget::Plain(WidgetObj::new("one".to_string())));
    let widget_two = tree.add(Widget::Plain(WidgetObj::new("two".to_string())));
    let widget_three = tree.add(Widget::Plain(WidgetObj::new("three".to_string())));

    {
        push_child(&mut tree, widget_one, widget_two);
        assert_eq!(tree.widget(widget_one).id(), "one".to_string());
        assert_eq!(tree.children(widget_one).len(), 1usize);

        if let Some(parent) = tree.parent(widget_two) {
            assert_eq!(tree.widget(parent).id(), tree.widget(widget_one).id())
        } else {
            panic!("parent should have value");
        }
    }
    {
        let children = tree.children(widget_one);
        let first_child = children[0];
        assert_eq!(tree.widget(first_child).id(), "two".to_string());

        if let Some(parent) = tree.parent(first_child) {
            assert_eq!(tree.widget(parent).id(), tree.widget(widget_one).id())
        } else {
            panic!("parent should have value");
        }
    }

    remove_child_by_child(&mut tree, widget_one, widget_two);
    push_child(&mut tree, widget_three, widget_two);
    assert_eq!(tree.children(widget_one).len(), 0usize);
    {
        let children_one = tree.children(widget_one);
        let children_three = tree.children(widget_three);
        let first_child = children_three[0];
        assert_eq!(children_one.len(), 0usize);
        assert_eq!(children_three.len(), 1usize);
        assert_eq!(tree.widget(first_child).id(), "two".to_string());

        if let Some(parent) = tree.parent(widget_two) {
            assert_eq!(tree.widget(parent).id(), tree.widget(widget_three).id())
        } else {
            panic!("parent should have value");
        }
    }
}

#[test]
fn parent_test() {
    let mut tree = WidgetTree::new();
    let widget_one = tree.add(Widget::Plain(WidgetObj::new("one".to_string())));
    let widget_two = tree.add(Widget::Plain(WidgetObj::new("two".to_string())));
    push_child(&mut tree, widget_one, widget_two);

    if let Some(parent) = tree.parent(widget_two) {
        assert_eq!(tree.widget(parent).id(), tree.widget(widget_one).id())
    } else {
        panic!("parent should have value");
    }
}

#[test]
fn dropped_parent_test() {
    println!("smh");
    let mut tree = WidgetTree::new();
    let widget_two: Option<usize>;
    {
        let widget_one = tree.add(Widget::Plain(WidgetObj::new("one".to_string())));
        let temp_widget_two = tree.add(Widget::Plain(WidgetObj::new("two".to_string())));
        push_child(&mut tree, widget_one, temp_widget_two);
        widget_two = Some(temp_widget_two);
        tree.destroy(widget_one);
    }

    let unwrapped = widget_two.unwrap();
    assert!(tree.is_live(unwrapped));

    if let Some(_) = tree.parent(unwrapped) {
        panic!("parent should be None");
    }
}

#[test]
fn theme_test() {
    let mut tree = WidgetTree::new();
    let mut theme = Theme::new_debug();
    theme.set_standard_font_size(20);
    let theme = tree.add_theme(theme);
    let mut widget_one = WidgetObj::new("one".to_string());
    widget_one.set_theme(Some(theme));

    match widget_one.theme {
        Some(val) => {
            assert_eq!(
                tree.theme(val).unwrap().standard_font_size(),
                tree.theme(theme).unwrap().standard_font_size()
            );
            assert_eq!(tree.theme(val).unwrap().standard_font_size(), 20);
        }
        None => panic!("Theme should have value"),
    };
}
