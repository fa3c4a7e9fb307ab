use nanoguirustsdl::common::{Color, Cursor, Font};
use nanoguirustsdl::label::Label;
use nanoguirustsdl::screen::Screen;
use nanoguirustsdl::theme::Theme;
use nanoguirustsdl::widget::{Widget, WidgetObj};
use nanoguirustsdl::window::Window;

#[test]
fn a_new_widget_has_the_defaults() {
    let widget = WidgetObj::new("one".to_string());
    assert_eq!(widget.id(), "one".to_string());
    assert_eq!(widget.pos(), (0, 0));
    assert_eq!(widget.size(), (0, 0));
    assert_eq!(widget.fixed_size(), (0, 0));
    assert!(widget.visible());
    assert!(widget.enabled());
    assert!(!widget.focused());
    assert!(!widget.mouse_focus);
    assert_eq!(widget.tooltip(), String::new());
    assert_eq!(widget.font_size, None);
    assert_eq!(widget.theme(), None);
    assert!(widget.layout().is_none());
    assert_eq!(widget.cursor(), Cursor::Arrow);
}

#[test]
fn setters_change_one_field() {
    let mut widget = Widget::Plain(WidgetObj::new("one".to_string()));
    widget.set_id("two".to_string());
    widget.set_pos((1, 2));
    widget.set_size((3, 4));
    widget.set_fixed_size((5, 6));
    widget.set_enabled(false);
    widget.set_tooltip("tip".to_string());
    widget.set_cursor(Cursor::Hand);
    widget.set_focused(true);
    assert_eq!(widget.id(), "two".to_string());
    assert_eq!(widget.pos(), (1, 2));
    assert_eq!(widget.size(), (3, 4));
    assert_eq!(widget.fixed_size(), (5, 6));
    assert!(!widget.enabled());
    assert!(widget.visible());
    assert!(widget.focused());
    assert_eq!(widget.tooltip(), "tip".to_string());
    assert_eq!(widget.cursor(), Cursor::Hand);
}

#[test]
fn focus_and_enter_events_set_the_flags() {
    let mut widget = WidgetObj::new("one".to_string());
    assert!(!widget.focus_event(true));
    assert!(widget.focused);
    assert!(!widget.mouse_enter_event((0, 0), true));
    assert!(widget.mouse_focus);
    assert!(!widget.focus_event(false));
    assert!(!widget.focused);
    assert!(widget.mouse_focus);
}

#[test]
fn kinds_are_told_apart() {
    let plain = Widget::Plain(WidgetObj::new("p".to_string()));
    let label = Widget::Label(Label::new(
        "l".to_string(),
        "text".to_string(),
        "sans".to_string(),
        None,
    ));
    let window = Widget::Window(Window::new("w".to_string(), "Title".to_string()));
    let screen = Widget::Screen(Screen::new("s".to_string(), "Cap".to_string(), (3, 4), 9));
    assert!(plain.as_window().is_none() && plain.as_screen().is_none());
    assert!(plain.as_label().is_none());
    assert_eq!(label.as_label().unwrap().caption(), "text".to_string());
    assert!(label.as_window().is_none());
    assert_eq!(window.as_window().unwrap().title(), "Title".to_string());
    assert!(window.as_screen().is_none());
    assert_eq!(screen.as_screen().unwrap().caption, "Cap".to_string());
    assert!(screen.as_window().is_none());
    assert_eq!(screen.id(), "s".to_string());
    assert_eq!(window.base_ref().id, "w".to_string());
}

#[test]
fn widgets_are_equal_by_identifier() {
    let mut one = Widget::Plain(WidgetObj::new("one".to_string()));
    let also_one = Widget::Window(Window::new("one".to_string(), "Title".to_string()));
    let two = Widget::Plain(WidgetObj::new("two".to_string()));
    one.set_pos((3, 4));
    assert!(one == also_one);
    assert!(one != two);
    one.set_id("two".to_string());
    assert!(one == two);
    assert!(one != also_one);
}

#[test]
fn a_new_label() {
    let label = Label::new(
        "l".to_string(),
        "text".to_string(),
        "Roboto-Regular.ttf".to_string(),
        Some(Font { name: "roboto".to_string() }),
    );
    assert_eq!(label.color(), (255, 255, 255, 125));
    assert_eq!(label.font, "Roboto-Regular.ttf".to_string());
    assert_eq!((label.line_width, label.box_height), (0, 0));
    assert_eq!(label.widget.id, "l".to_string());
    assert_eq!(label.font_handle.unwrap().name, "roboto".to_string());

    let made = Label::new_create_font(
        "m".to_string(),
        "text".to_string(),
        "Roboto-Regular.ttf".to_string(),
    );
    assert_eq!(made.font, "Roboto-Regular.ttf".to_string());
    assert_eq!(made.caption(), "text".to_string());
    assert_eq!(made.font_handle.unwrap().name, "Roboto-Regular.ttf".to_string());
}

#[test]
fn a_new_window() {
    let mut window = Window::new("w".to_string(), "Title".to_string());
    assert_eq!(window.title(), "Title".to_string());
    assert!(!window.modal());
    assert!(!window.drag());
    window.set_modal(true);
    window.set_drag(true);
    window.set_title("Other".to_string());
    assert!(window.modal() && window.drag());
    assert_eq!(window.title(), "Other".to_string());
    assert_eq!(window.widget.id, "w".to_string());
}

#[test]
fn a_new_screen_has_the_size_of_its_window() {
    let screen = Screen::new("s".to_string(), "Cap".to_string(), (800, 600), 1234);
    assert_eq!(screen.widget.size, (800, 600));
    assert_eq!(screen.widget.pos, (0, 0));
    assert_eq!(screen.framebuffer_size, (800, 600));
    assert_eq!(screen.last_interaction, 1234);
    assert_eq!(screen.mouse_pos, (0, 0));
    assert_eq!((screen.mouse_state, screen.modifiers), (0, 0));
    assert!(!screen.drag_active);
    assert!(screen.drag_widget.is_none());
    assert!(screen.process_events);
    assert!(screen.focussed_widgets.is_empty());
    assert_eq!(screen.caption, "Cap".to_string());
    assert!(screen.widget.visible);
    screen.update_focus(3);
    assert!(screen.focussed_widgets.is_empty());
}

#[test]
fn the_standard_theme() {
    let theme = Theme::new_debug();
    assert!(theme.font_normal().is_none());
    assert!(theme.font_bold().is_none());
    assert!(theme.font_icons().is_none());
    assert_eq!(theme.standard_font_size(), 16);
    assert_eq!(theme.button_font_size(), 20);
    assert_eq!(theme.textbox_font_size(), 20);
    assert_eq!(theme.window_corner_radius(), 2);
    assert_eq!(theme.window_header_height(), 30);
    assert_eq!(theme.window_dropshadow_size(), 10);
    assert_eq!(theme.button_corner_radius(), 2);
    assert_eq!(theme.dropshadow(), Color::from_intensity(0, 128));
    assert_eq!(theme.transparent(), Color::from_intensity(0, 0));
    assert_eq!(theme.border_dark(), Color::from_intensity(29, 255));
    assert_eq!(theme.border_light(), Color::from_intensity(92, 255));
    assert_eq!(theme.border_medium(), Color::from_intensity(35, 255));
    assert_eq!(theme.text_color(), Color::from_intensity(255, 160));
    assert_eq!(theme.disabled_text_color(), Color::from_intensity(255, 80));
    assert_eq!(theme.text_color_shadow(), Color::from_intensity(0, 160));
    assert_eq!(theme.icon_color(), Color::from_intensity(255, 160));
    assert_eq!(theme.button_gradient_top_focused(), Color::from_intensity(64, 255));
    assert_eq!(theme.button_gradient_bot_focused(), Color::from_intensity(48, 255));
    assert_eq!(theme.button_gradient_top_unfocused(), Color::from_intensity(74, 255));
    assert_eq!(theme.button_gradient_bot_unfocused(), Color::from_intensity(58, 255));
    assert_eq!(theme.button_gradient_top_pushed(), Color::from_intensity(41, 255));
    assert_eq!(theme.button_gradient_bot_pushed(), Color::from_intensity(29, 255));
    assert_eq!(theme.window_fill_unfocused(), Color::from_intensity(43, 230));
    assert_eq!(theme.window_fill_focused(), Color::from_intensity(45, 230));
    assert_eq!(theme.window_title_unfocused(), Color::from_intensity(220, 160));
    assert_eq!(theme.window_title_focused(), Color::from_intensity(255, 190));
    assert_eq!(theme.window_header_gradient_top(), Color::from_intensity(74, 255));
    assert_eq!(theme.window_header_gradient_bot(), Color::from_intensity(58, 255));
    assert_eq!(theme.window_header_sep_top(), Color::from_intensity(92, 255));
    assert_eq!(theme.window_header_sep_bot(), Color::from_intensity(29, 255));
    assert_eq!(theme.window_popup(), Color::from_intensity(50, 255));
    assert_eq!(theme.window_popup_transparent(), Color::from_intensity(50, 0));
}

#[test]
fn a_theme_with_fonts() {
    let mut theme = Theme::new(
        Font { name: "sans".to_string() },
        Font { name: "sans-bold".to_string() },
        Font { name: "icons".to_string() },
    );
    assert_eq!(theme.font_normal().unwrap().name, "sans".to_string());
    assert_eq!(theme.font_bold().unwrap().name, "sans-bold".to_string());
    assert_eq!(theme.font_icons().unwrap().name, "icons".to_string());
    assert_eq!(theme.window_header_height(), 30);
    assert_eq!(theme.text_color(), Color { r: 255, g: 255, b: 255, a: 160 });
    theme.set_font_bold(Font { name: "heavy".to_string() });
    theme.set_text_color(Color::new());
    theme.set_window_header_height(31);
    assert_eq!(theme.font_bold().unwrap().name, "heavy".to_string());
    assert_eq!(theme.font_normal().unwrap().name, "sans".to_string());
    assert_eq!(theme.text_color(), Color { r: 0, g: 0, b: 0, a: 0 });
    assert_eq!(theme.window_header_height(), 31);
    assert_eq!(theme.standard_font_size(), 16);
}
