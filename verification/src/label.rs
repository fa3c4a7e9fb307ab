use crate::common::Font;
use crate::theme::Theme;
use crate::widget::{WidgetObj, DEFAULT_FONT_SIZE};
use vstd::prelude::*;

verus! {

/// A widget that shows a caption.
#[derive(Debug)]
pub struct Label {
    pub widget: WidgetObj,
    pub caption: String,
    /// The name of the font face.
    pub font: String,
    /// The loaded font, where the drawing layer has handed one over.
    pub font_handle: Option<Font>,
    pub color: (u8, u8, u8, u8),
    /// The width of the caption on one line, as the drawing layer measured it.
    pub line_width: u32,
    /// The height of the caption broken into lines of the fixed width, as the
    /// drawing layer measured it.
    pub box_height: u32,
}

impl Label {
    /// A label whose font the drawing layer loads from the file of that name.
    pub fn new_create_font(id: String, caption: String, font_filename: String) -> (label: Label)
        ensures
            label.widget.fresh(id),
            label.caption == caption,
            label.font == font_filename,
            label.font_handle == Some(Font { name: font_filename }),
            label.color == (255u8, 255u8, 255u8, 125u8),
            label.line_width == 0,
            label.box_height == 0,
    {
        let handle = Font { name: font_filename.clone() };
        Label::new(id, caption, font_filename, Some(handle))
    }

    pub fn new(id: String, caption: String, font_filename: String, font: Option<Font>) -> (label:
        Label)
        ensures
            label.widget.fresh(id),
            label.caption == caption,
            label.font == font_filename,
            label.font_handle == font,
            label.color == (255u8, 255u8, 255u8, 125u8),
            label.line_width == 0,
            label.box_height == 0,
    {
        Label {
            widget: WidgetObj::new(id),
            caption,
            color: (255, 255, 255, 125),
            font: font_filename,
            font_handle: font,
            line_width: 0,
            box_height: 0,
        }
    }

    /// The height of one line of text under the given theme.
    pub open spec fn line_height(theme: Option<Theme>) -> u32 {
        match theme {
            Some(t) => t.standard_font_size,
            None => DEFAULT_FONT_SIZE,
        }
    }

    /// The size that the caption asks for: nothing where it is empty; where
    /// the width is fixed, that width and the measured height of the broken
    /// text; else the measured width of one line and the theme's line height.
    pub open spec fn spec_preferred_size(&self, theme: Option<Theme>) -> (int, int) {
        if self.caption@.len() == 0 {
            (0, 0)
        } else if self.widget.fixed_size.0 > 0 {
            (self.widget.fixed_size.0 as int, self.box_height as int)
        } else {
            (self.line_width as int, Label::line_height(theme) as int)
        }
    }

    /// The size that the caption asks for, from what the drawing layer
    /// measured.
    pub fn preferred_size(&self, theme: Option<&Theme>) -> (size: (u32, u32))
        ensures
            size.0 == self.spec_preferred_size(
                match theme {
                    Some(t) => Some(*t),
                    None => None,
                },
            ).0,
            size.1 == self.spec_preferred_size(
                match theme {
                    Some(t) => Some(*t),
                    None => None,
                },
            ).1,
    {
        if self.caption.as_str().is_empty() {
            return (0, 0);
        }
        if self.widget.fixed_size.0 > 0 {
            (self.widget.fixed_size.0, self.box_height)
        } else {
            let height = match theme {
                Some(t) => t.standard_font_size,
                None => DEFAULT_FONT_SIZE,
            };
            (self.line_width, height)
        }
    }

    pub fn caption(&self) -> (value: String)
        ensures
            value == self.caption,
    {
        self.caption.clone()
    }

    pub fn set_caption(&mut self, value: String)
        ensures
            *final(self) == (Label { caption: value, ..*old(self) }),
    {
        self.caption = value;
    }

    pub fn color(&self) -> (value: (u8, u8, u8, u8))
        ensures
            value == self.color,
    {
        self.color
    }

    pub fn set_color(&mut self, value: (u8, u8, u8, u8))
        ensures
            *final(self) == (Label { color: value, ..*old(self) }),
    {
        self.color = value;
    }

    /// Records what the drawing layer measured for the caption: its width on
    /// one line, and its height when broken into lines of the fixed width.
    pub fn set_text_extent(&mut self, line_width: u32, box_height: u32)
        ensures
            *final(self) == (Label { line_width, box_height, ..*old(self) }),
    {
        self.line_width = line_width;
        self.box_height = box_height;
    }
}

} // verus!
