use crate::common::Cursor;
use crate::label::Label;
use crate::layout::BoxLayout;
use crate::screen::Screen;
use crate::theme::Theme;
use crate::window::Window;
use vstd::prelude::*;

verus! {

/// The font size of a widget that has neither an override nor a theme.
pub const DEFAULT_FONT_SIZE: u32 = 12;

/// What every widget carries: geometry, flags, and its optional theme and
/// layout. The links to parent and children are kept by the tree.
#[derive(Debug)]
pub struct WidgetObj {
    /// The handle of the theme in the tree's theme table.
    pub theme: Option<usize>,
    pub layout: Option<BoxLayout>,
    pub id: String,
    /// Position relative to the parent.
    pub pos: (u32, u32),
    pub size: (u32, u32),
    /// 0 on an axis leaves that axis to the layout.
    pub fixed_size: (u32, u32),
    pub visible: bool,
    pub enabled: bool,
    pub focused: bool,
    /// Whether the pointer is over the widget.
    pub mouse_focus: bool,
    pub tooltip: String,
    /// Overrides the theme's standard font size.
    pub font_size: Option<u32>,
    pub cursor: Cursor,
}

impl WidgetObj {
    /// What holds of a widget that was just made with the identifier `id`. It
    /// has no font size of its own: it takes that of its theme, or the
    /// default.
    pub open spec fn fresh(&self, id: String) -> bool {
        &&& self.id == id
        &&& self.theme is None
        &&& self.layout is None
        &&& self.pos == (0u32, 0u32)
        &&& self.size == (0u32, 0u32)
        &&& self.fixed_size == (0u32, 0u32)
        &&& self.visible
        &&& self.enabled
        &&& !self.focused
        &&& !self.mouse_focus
        &&& self.tooltip@ == Seq::<char>::empty()
        &&& self.font_size is None
        &&& self.cursor == Cursor::Arrow
    }

    pub fn new(id: String) -> (widget: WidgetObj)
        ensures
            widget.fresh(id),
            forall|theme: Option<Theme>|
                #[trigger] widget.resolved_font_size(theme) == match theme {
                    Some(t) => t.standard_font_size,
                    None => DEFAULT_FONT_SIZE,
                },
    {
        WidgetObj {
            theme: None,
            layout: None,
            id,
            pos: (0, 0),
            size: (0, 0),
            fixed_size: (0, 0),
            visible: true,
            enabled: true,
            focused: false,
            mouse_focus: false,
            tooltip: String::new(),
            font_size: None,
            cursor: Cursor::Arrow,
        }
    }

    /// Whether the point lies in the widget's rectangle, which is closed at
    /// its left and top edge and open at its right and bottom edge.
    pub open spec fn covers(&self, x: int, y: int) -> bool {
        &&& self.pos.0 <= x < self.pos.0 + self.size.0
        &&& self.pos.1 <= y < self.pos.1 + self.size.1
    }

    /// Whether the point, given in the parent's coordinates, lies in the
    /// widget's rectangle.
    pub fn contains(&self, p: (u32, u32)) -> (inside: bool)
        ensures
            inside == self.covers(p.0 as int, p.1 as int),
    {
        p.0 >= self.pos.0 && p.1 >= self.pos.1 && (p.0 as u64) < self.pos.0 as u64
            + self.size.0 as u64 && (p.1 as u64) < self.pos.1 as u64 + self.size.1 as u64
    }

    /// Whether the point, given in the parent's coordinates, lies in the
    /// widget's rectangle. The point may lie left of or above the parent's
    /// origin.
    pub fn contains_at(&self, x: i64, y: i64) -> (inside: bool)
        ensures
            inside == self.covers(x as int, y as int),
    {
        x >= self.pos.0 as i64 && y >= self.pos.1 as i64 && x < self.pos.0 as i64
            + self.size.0 as i64 && y < self.pos.1 as i64 + self.size.1 as i64
    }

    /// The size the widget takes on one axis when it is laid out: the fixed
    /// size where that is set, else the preferred size.
    pub open spec fn target(fixed: u32, preferred: int) -> int {
        if fixed > 0 {
            fixed as int
        } else {
            preferred
        }
    }

    /// The font size of the widget under the given theme: its own override
    /// where it has one, else the standard size of the theme, else the
    /// default.
    pub open spec fn resolved_font_size(&self, theme: Option<Theme>) -> u32 {
        match self.font_size {
            Some(size) => size,
            None => match theme {
                Some(theme) => theme.standard_font_size,
                None => DEFAULT_FONT_SIZE,
            },
        }
    }

    /// The font size of the widget under the given theme: its own override
    /// where it has one, else the standard size of the theme, else the
    /// default.
    pub fn font_size(&self, theme: Option<&Theme>) -> (size: u32)
        ensures
            size == self.resolved_font_size(
                match theme {
                    Some(t) => Some(*t),
                    None => None,
                },
            ),
    {
        match self.font_size {
            Some(size) => size,
            None => match theme {
                Some(theme) => theme.standard_font_size,
                None => DEFAULT_FONT_SIZE,
            },
        }
    }

    /// The pointer has entered or left the widget.
    pub fn mouse_enter_event(&mut self, p: (u32, u32), enter: bool) -> (handled: bool)
        ensures
            !handled,
            *final(self) == (WidgetObj { mouse_focus: enter, ..*old(self) }),
    {
        self.mouse_focus = enter;
        false
    }

    /// The widget has gained or lost the keyboard focus.
    pub fn focus_event(&mut self, focused: bool) -> (handled: bool)
        ensures
            !handled,
            *final(self) == (WidgetObj { focused, ..*old(self) }),
    {
        self.focused = focused;
        false
    }

    pub fn id(&self) -> (value: String)
        ensures
            value == self.id,
    {
        self.id.clone()
    }

    pub fn set_id(&mut self, value: String)
        ensures
            *final(self) == (WidgetObj { id: value, ..*old(self) }),
    {
        self.id = value;
    }

    pub fn pos(&self) -> (value: (u32, u32))
        ensures
            value == self.pos,
    {
        self.pos
    }

    pub fn set_pos(&mut self, value: (u32, u32))
        ensures
            *final(self) == (WidgetObj { pos: value, ..*old(self) }),
    {
        self.pos = value;
    }

    pub fn size(&self) -> (value: (u32, u32))
        ensures
            value == self.size,
    {
        self.size
    }

    pub fn set_size(&mut self, value: (u32, u32))
        ensures
            *final(self) == (WidgetObj { size: value, ..*old(self) }),
    {
        self.size = value;
    }

    pub fn fixed_size(&self) -> (value: (u32, u32))
        ensures
            value == self.fixed_size,
    {
        self.fixed_size
    }

    pub fn set_fixed_size(&mut self, value: (u32, u32))
        ensures
            *final(self) == (WidgetObj { fixed_size: value, ..*old(self) }),
    {
        self.fixed_size = value;
    }

    pub fn set_font_size(&mut self, value: Option<u32>)
        ensures
            *final(self) == (WidgetObj { font_size: value, ..*old(self) }),
    {
        self.font_size = value;
    }

    pub fn theme(&self) -> (value: Option<usize>)
        ensures
            value == self.theme,
    {
        self.theme
    }

    pub fn set_theme(&mut self, value: Option<usize>)
        ensures
            *final(self) == (WidgetObj { theme: value, ..*old(self) }),
    {
        self.theme = value;
    }

    pub fn enabled(&self) -> (value: bool)
        ensures
            value == self.enabled,
    {
        self.enabled
    }

    pub fn set_enabled(&mut self, value: bool)
        ensures
            *final(self) == (WidgetObj { enabled: value, ..*old(self) }),
    {
        self.enabled = value;
    }

    pub fn tooltip(&self) -> (value: String)
        ensures
            value == self.tooltip,
    {
        self.tooltip.clone()
    }

    pub fn set_tooltip(&mut self, value: String)
        ensures
            *final(self) == (WidgetObj { tooltip: value, ..*old(self) }),
    {
        self.tooltip = value;
    }

    pub fn visible(&self) -> (value: bool)
        ensures
            value == self.visible,
    {
        self.visible
    }

    pub fn set_visible(&mut self, value: bool)
        ensures
            *final(self) == (WidgetObj { visible: value, ..*old(self) }),
    {
        self.visible = value;
    }

    pub fn focused(&self) -> (value: bool)
        ensures
            value == self.focused,
    {
        self.focused
    }

    pub fn set_focused(&mut self, value: bool)
        ensures
            *final(self) == (WidgetObj { focused: value, ..*old(self) }),
    {
        self.focused = value;
    }

    pub fn layout(&self) -> (value: Option<BoxLayout>)
        ensures
            value == self.layout,
    {
        self.layout
    }

    pub fn set_layout(&mut self, value: Option<BoxLayout>)
        ensures
            *final(self) == (WidgetObj { layout: value, ..*old(self) }),
    {
        self.layout = value;
    }

    pub fn cursor(&self) -> (value: Cursor)
        ensures
            value == self.cursor,
    {
        self.cursor
    }

    pub fn set_cursor(&mut self, value: Cursor)
        ensures
            *final(self) == (WidgetObj { cursor: value, ..*old(self) }),
    {
        self.cursor = value;
    }
}

/// A widget of one of the four kinds.
#[derive(Debug)]
pub enum Widget {
    Plain(WidgetObj),
    Label(Label),
    Window(Window),
    Screen(Screen),
}

impl Widget {
    /// What the widget has in common with every other kind.
    pub open spec fn base(&self) -> WidgetObj {
        match self {
            Widget::Plain(w) => *w,
            Widget::Label(l) => l.widget,
            Widget::Window(w) => w.widget,
            Widget::Screen(s) => s.widget,
        }
    }

    /// The same widget with the common part replaced.
    pub open spec fn with_base(&self, base: WidgetObj) -> Widget {
        match self {
            Widget::Plain(_) => Widget::Plain(base),
            Widget::Label(l) => Widget::Label(Label { widget: base, ..*l }),
            Widget::Window(w) => Widget::Window(Window { widget: base, ..*w }),
            Widget::Screen(s) => Widget::Screen(Screen { widget: base, ..*s }),
        }
    }

    pub fn base_ref(&self) -> (base: &WidgetObj)
        ensures
            *base == self.base(),
    {
        match self {
            Widget::Plain(w) => w,
            Widget::Label(l) => &l.widget,
            Widget::Window(w) => &w.widget,
            Widget::Screen(s) => &s.widget,
        }
    }

    pub fn base_mut(&mut self) -> (base: &mut WidgetObj)
        ensures
            *base == old(self).base(),
            *final(self) == old(self).with_base(*final(base)),
    {
        match self {
            Widget::Plain(w) => w,
            Widget::Label(l) => &mut l.widget,
            Widget::Window(w) => &mut w.widget,
            Widget::Screen(s) => &mut s.widget,
        }
    }

    pub fn as_label(&self) -> (label: Option<&Label>)
        ensures
            match label {
                Some(l) => *self == Widget::Label(*l),
                None => !(self is Label),
            },
    {
        match self {
            Widget::Label(l) => Some(l),
            _ => None,
        }
    }

    pub fn as_window(&self) -> (window: Option<&Window>)
        ensures
            match window {
                Some(w) => *self == Widget::Window(*w),
                None => !(self is Window),
            },
    {
        match self {
            Widget::Window(w) => Some(w),
            _ => None,
        }
    }

    pub fn as_screen(&self) -> (screen: Option<&Screen>)
        ensures
            match screen {
                Some(s) => *self == Widget::Screen(*s),
                None => !(self is Screen),
            },
    {
        match self {
            Widget::Screen(s) => Some(s),
            _ => None,
        }
    }

    /// Whether the point, given in the parent's coordinates, lies in the
    /// widget's rectangle.
    pub fn contains(&self, p: (u32, u32)) -> (inside: bool)
        ensures
            inside == self.base().covers(p.0 as int, p.1 as int),
    {
        self.base_ref().contains(p)
    }

    /// The font size of the widget under the given theme: its own override
    /// where it has one, else the standard size of the theme, else the
    /// default.
    pub fn font_size(&self, theme: Option<&Theme>) -> (size: u32)
        ensures
            size == self.base().resolved_font_size(
                match theme {
                    Some(t) => Some(*t),
                    None => None,
                },
            ),
    {
        self.base_ref().font_size(theme)
    }

    /// The pointer has entered or left the widget.
    pub fn mouse_enter_event(&mut self, p: (u32, u32), enter: bool) -> (handled: bool)
        ensures
            !handled,
            *final(self) == old(self).with_base(
                WidgetObj { mouse_focus: enter, ..old(self).base() },
            ),
    {
        self.base_mut().mouse_enter_event(p, enter)
    }

    /// The widget has gained or lost the keyboard focus.
    pub fn focus_event(&mut self, focused: bool) -> (handled: bool)
        ensures
            !handled,
            *final(self) == old(self).with_base(WidgetObj { focused, ..old(self).base() }),
    {
        self.base_mut().focus_event(focused)
    }

    pub fn id(&self) -> (value: String)
        ensures
            value == self.base().id,
    {
        self.base_ref().id.clone()
    }

    /// Sets the identifier and leaves everything else as it was.
    pub fn set_id(&mut self, value: String)
        ensures
            *final(self) == old(self).with_base(WidgetObj { id: value, ..old(self).base() }),
    {
        self.base_mut().id = value;
    }

    pub fn pos(&self) -> (value: (u32, u32))
        ensures
            value == self.base().pos,
    {
        self.base_ref().pos
    }

    /// Sets the position, relative to the parent and leaves everything else as it was.
    pub fn set_pos(&mut self, value: (u32, u32))
        ensures
            *final(self) == old(self).with_base(WidgetObj { pos: value, ..old(self).base() }),
    {
        self.base_mut().pos = value;
    }

    pub fn size(&self) -> (value: (u32, u32))
        ensures
            value == self.base().size,
    {
        self.base_ref().size
    }

    /// Sets the size and leaves everything else as it was.
    pub fn set_size(&mut self, value: (u32, u32))
        ensures
            *final(self) == old(self).with_base(WidgetObj { size: value, ..old(self).base() }),
    {
        self.base_mut().size = value;
    }

    pub fn fixed_size(&self) -> (value: (u32, u32))
        ensures
            value == self.base().fixed_size,
    {
        self.base_ref().fixed_size
    }

    /// Sets the fixed size; 0 on an axis leaves that axis to the layout and leaves everything else as it was.
    pub fn set_fixed_size(&mut self, value: (u32, u32))
        ensures
            *final(self) == old(self).with_base(WidgetObj { fixed_size: value, ..old(self).base() }),
    {
        self.base_mut().fixed_size = value;
    }

    /// Sets the font size override and leaves everything else as it was.
    pub fn set_font_size(&mut self, value: Option<u32>)
        ensures
            *final(self) == old(self).with_base(WidgetObj { font_size: value, ..old(self).base() }),
    {
        self.base_mut().font_size = value;
    }

    pub fn theme(&self) -> (value: Option<usize>)
        ensures
            value == self.base().theme,
    {
        self.base_ref().theme
    }

    /// Sets the handle of the theme and leaves everything else as it was.
    pub fn set_theme(&mut self, value: Option<usize>)
        ensures
            *final(self) == old(self).with_base(WidgetObj { theme: value, ..old(self).base() }),
    {
        self.base_mut().theme = value;
    }

    pub fn enabled(&self) -> (value: bool)
        ensures
            value == self.base().enabled,
    {
        self.base_ref().enabled
    }

    /// Sets whether the widget reacts to input and leaves everything else as it was.
    pub fn set_enabled(&mut self, value: bool)
        ensures
            *final(self) == old(self).with_base(WidgetObj { enabled: value, ..old(self).base() }),
    {
        self.base_mut().enabled = value;
    }

    pub fn tooltip(&self) -> (value: String)
        ensures
            value == self.base().tooltip,
    {
        self.base_ref().tooltip.clone()
    }

    /// Sets the tooltip text and leaves everything else as it was.
    pub fn set_tooltip(&mut self, value: String)
        ensures
            *final(self) == old(self).with_base(WidgetObj { tooltip: value, ..old(self).base() }),
    {
        self.base_mut().tooltip = value;
    }

    pub fn visible(&self) -> (value: bool)
        ensures
            value == self.base().visible,
    {
        self.base_ref().visible
    }

    /// Sets the widget's own visibility flag and leaves everything else as it was.
    pub fn set_visible(&mut self, value: bool)
        ensures
            *final(self) == old(self).with_base(WidgetObj { visible: value, ..old(self).base() }),
    {
        self.base_mut().visible = value;
    }

    pub fn focused(&self) -> (value: bool)
        ensures
            value == self.base().focused,
    {
        self.base_ref().focused
    }

    /// Sets the keyboard focus flag and leaves everything else as it was.
    pub fn set_focused(&mut self, value: bool)
        ensures
            *final(self) == old(self).with_base(WidgetObj { focused: value, ..old(self).base() }),
    {
        self.base_mut().focused = value;
    }

    pub fn layout(&self) -> (value: Option<BoxLayout>)
        ensures
            value == self.base().layout,
    {
        self.base_ref().layout
    }

    /// Sets the layout strategy and leaves everything else as it was.
    pub fn set_layout(&mut self, value: Option<BoxLayout>)
        ensures
            *final(self) == old(self).with_base(WidgetObj { layout: value, ..old(self).base() }),
    {
        self.base_mut().layout = value;
    }

    pub fn cursor(&self) -> (value: Cursor)
        ensures
            value == self.base().cursor,
    {
        self.base_ref().cursor
    }

    /// Sets the pointer shape and leaves everything else as it was.
    pub fn set_cursor(&mut self, value: Cursor)
        ensures
            *final(self) == old(self).with_base(WidgetObj { cursor: value, ..old(self).base() }),
    {
        self.base_mut().cursor = value;
    }
}

/// Two widgets are equal where they have the same identifier.
impl PartialEq for Widget {
    fn eq(&self, other: &Widget) -> (equal: bool) {
        self.base_ref().id == other.base_ref().id
    }
}

impl vstd::std_specs::cmp::PartialEqSpecImpl for Widget {
    open spec fn obeys_eq_spec() -> bool {
        true
    }

    open spec fn eq_spec(&self, other: &Widget) -> bool {
        self.base().id@ == other.base().id@
    }
}

} // verus!
