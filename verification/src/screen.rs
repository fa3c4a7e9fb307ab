use crate::widget::WidgetObj;
use vstd::prelude::*;

verus! {

/// The root widget: it stands for the host's window and receives its input.
#[derive(Debug)]
pub struct Screen {
    pub widget: WidgetObj,
    /// The handles of the widgets on the focus path.
    pub focussed_widgets: Vec<usize>,
    pub framebuffer_size: (u32, u32),
    pub mouse_state: i32,
    pub modifiers: i32,
    pub mouse_pos: (u32, u32),
    pub drag_active: bool,
    /// The handle of the widget that is being dragged.
    pub drag_widget: Option<usize>,
    /// The host's clock, in milliseconds, at the last input.
    pub last_interaction: u32,
    pub process_events: bool,
    pub caption: String,
}

impl Screen {
    /// A screen for a host window of the given size, made at the time `now` of
    /// the host's clock.
    pub fn new(id: String, caption: String, window_size: (u32, u32), now: u32) -> (screen: Screen)
        ensures
            screen.widget == (WidgetObj { size: window_size, ..screen.widget }),
            (WidgetObj { size: (0u32, 0u32), ..screen.widget }).fresh(id),
            screen.focussed_widgets@ == Seq::<usize>::empty(),
            screen.caption == caption,
            screen.framebuffer_size == window_size,
            screen.mouse_pos == (0u32, 0u32),
            screen.mouse_state == 0,
            screen.modifiers == 0,
            !screen.drag_active,
            screen.drag_widget is None,
            screen.last_interaction == now,
            screen.process_events,
    {
        let mut widget = WidgetObj::new(id);
        widget.size = window_size;
        Screen {
            widget,
            focussed_widgets: Vec::new(),
            caption,
            framebuffer_size: window_size,
            mouse_pos: (0, 0),
            mouse_state: 0,
            modifiers: 0,
            drag_active: false,
            drag_widget: None,
            last_interaction: now,
            process_events: true,
        }
    }

    /// Told that the widget `widget` asks for the keyboard focus. The screen
    /// keeps no record of it.
    pub fn update_focus(&self, widget: usize) {
    }
}

} // verus!
