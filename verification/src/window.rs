use crate::widget::WidgetObj;
use vstd::prelude::*;

verus! {

/// A widget with a title bar.
#[derive(Debug)]
pub struct Window {
    pub widget: WidgetObj,
    pub title: String,
    pub modal: bool,
    pub drag: bool,
}

impl Window {
    pub fn new(id: String, title: String) -> (window: Window)
        ensures
            window.widget.fresh(id),
            window.title == title,
            !window.modal,
            !window.drag,
    {
        Window { widget: WidgetObj::new(id), title, modal: false, drag: false }
    }

    pub fn title(&self) -> (value: String)
        ensures
            value == self.title,
    {
        self.title.clone()
    }

    pub fn set_title(&mut self, value: String)
        ensures
            *final(self) == (Window { title: value, ..*old(self) }),
    {
        self.title = value;
    }

    pub fn modal(&self) -> (value: bool)
        ensures
            value == self.modal,
    {
        self.modal
    }

    pub fn set_modal(&mut self, value: bool)
        ensures
            *final(self) == (Window { modal: value, ..*old(self) }),
    {
        self.modal = value;
    }

    pub fn drag(&self) -> (value: bool)
        ensures
            value == self.drag,
    {
        self.drag
    }

    pub fn set_drag(&mut self, value: bool)
        ensures
            *final(self) == (Window { drag: value, ..*old(self) }),
    {
        self.drag = value;
    }
}

} // verus!
