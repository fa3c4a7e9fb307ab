use crate::common::{Color, Font};
use vstd::prelude::*;

verus! {

/// The metrics, fonts and colours that widgets fall back on. One theme is
/// shared by every widget that names it.
#[derive(Clone, Debug)]
pub struct Theme {
    pub font_normal: Option<Font>,
    pub font_bold: Option<Font>,
    pub font_icons: Option<Font>,
    pub standard_font_size: u32,
    pub button_font_size: u32,
    pub textbox_font_size: u32,
    pub window_corner_radius: u32,
    pub window_header_height: u32,
    pub window_dropshadow_size: u32,
    pub button_corner_radius: u32,
    pub dropshadow: Color,
    pub transparent: Color,
    pub border_dark: Color,
    pub border_light: Color,
    pub border_medium: Color,
    pub text_color: Color,
    pub disabled_text_color: Color,
    pub text_color_shadow: Color,
    pub icon_color: Color,
    pub button_gradient_top_focused: Color,
    pub button_gradient_bot_focused: Color,
    pub button_gradient_top_unfocused: Color,
    pub button_gradient_bot_unfocused: Color,
    pub button_gradient_top_pushed: Color,
    pub button_gradient_bot_pushed: Color,
    pub window_fill_unfocused: Color,
    pub window_fill_focused: Color,
    pub window_title_unfocused: Color,
    pub window_title_focused: Color,
    pub window_header_gradient_top: Color,
    pub window_header_gradient_bot: Color,
    pub window_header_sep_top: Color,
    pub window_header_sep_bot: Color,
    pub window_popup: Color,
    pub window_popup_transparent: Color,
}

/// A grey of the given intensity and opacity.
pub open spec fn grey(intensity: u8, alpha: u8) -> Color {
    Color { r: intensity, g: intensity, b: intensity, a: alpha }
}

impl Theme {
    /// The standard theme with the given fonts.
    pub open spec fn standard(
        font_normal: Option<Font>,
        font_bold: Option<Font>,
        font_icons: Option<Font>,
    ) -> Theme {
        Theme {
            font_normal,
            font_bold,
            font_icons,
            standard_font_size: 16,
            button_font_size: 20,
            textbox_font_size: 20,
            window_corner_radius: 2,
            window_header_height: 30,
            window_dropshadow_size: 10,
            button_corner_radius: 2,
            dropshadow: grey(0, 128),
            transparent: grey(0, 0),
            border_dark: grey(29, 255),
            border_light: grey(92, 255),
            border_medium: grey(35, 255),
            text_color: grey(255, 160),
            disabled_text_color: grey(255, 80),
            text_color_shadow: grey(0, 160),
            icon_color: grey(255, 160),
            button_gradient_top_focused: grey(64, 255),
            button_gradient_bot_focused: grey(48, 255),
            button_gradient_top_unfocused: grey(74, 255),
            button_gradient_bot_unfocused: grey(58, 255),
            button_gradient_top_pushed: grey(41, 255),
            button_gradient_bot_pushed: grey(29, 255),
            window_fill_unfocused: grey(43, 230),
            window_fill_focused: grey(45, 230),
            window_title_unfocused: grey(220, 160),
            window_title_focused: grey(255, 190),
            window_header_gradient_top: grey(74, 255),
            window_header_gradient_bot: grey(58, 255),
            window_header_sep_top: grey(92, 255),
            window_header_sep_bot: grey(29, 255),
            window_popup: grey(50, 255),
            window_popup_transparent: grey(50, 0),
        }
    }

    /// The standard theme with its three fonts, which the drawing layer has
    /// loaded.
    pub fn new(font_normal: Font, font_bold: Font, font_icons: Font) -> (theme: Theme)
        ensures
            theme == Theme::standard(Some(font_normal), Some(font_bold), Some(font_icons)),
    {
        let mut theme = Theme::new_debug();
        theme.font_normal = Some(font_normal);
        theme.font_bold = Some(font_bold);
        theme.font_icons = Some(font_icons);
        theme
    }

    /// The standard theme without fonts, for use where nothing is drawn.
    pub fn new_debug() -> (theme: Theme)
        ensures
            theme == Theme::standard(None, None, None),
    {
        Theme {
            font_normal: None,
            font_bold: None,
            font_icons: None,
            standard_font_size: 16,
            button_font_size: 20,
            textbox_font_size: 20,
            window_corner_radius: 2,
            window_header_height: 30,
            window_dropshadow_size: 10,
            button_corner_radius: 2,
            dropshadow: Color::from_intensity(0, 128),
            transparent: Color::from_intensity(0, 0),
            border_dark: Color::from_intensity(29, 255),
            border_light: Color::from_intensity(92, 255),
            border_medium: Color::from_intensity(35, 255),
            text_color: Color::from_intensity(255, 160),
            disabled_text_color: Color::from_intensity(255, 80),
            text_color_shadow: Color::from_intensity(0, 160),
            icon_color: Color::from_intensity(255, 160),
            button_gradient_top_focused: Color::from_intensity(64, 255),
            button_gradient_bot_focused: Color::from_intensity(48, 255),
            button_gradient_top_unfocused: Color::from_intensity(74, 255),
            button_gradient_bot_unfocused: Color::from_intensity(58, 255),
            button_gradient_top_pushed: Color::from_intensity(41, 255),
            button_gradient_bot_pushed: Color::from_intensity(29, 255),
            window_fill_unfocused: Color::from_intensity(43, 230),
            window_fill_focused: Color::from_intensity(45, 230),
            window_title_unfocused: Color::from_intensity(220, 160),
            window_title_focused: Color::from_intensity(255, 190),
            window_header_gradient_top: Color::from_intensity(74, 255),
            window_header_gradient_bot: Color::from_intensity(58, 255),
            window_header_sep_top: Color::from_intensity(92, 255),
            window_header_sep_bot: Color::from_intensity(29, 255),
            window_popup: Color::from_intensity(50, 255),
            window_popup_transparent: Color::from_intensity(50, 0),
        }
    }

    /// The font, or `None` where the theme has none.
    pub fn font_normal(&self) -> (font: Option<&Font>)
        ensures
            match font {
                Some(found) => self.font_normal == Some(*found),
                None => self.font_normal is None,
            },
    {
        match &self.font_normal {
            Some(font) => Some(font),
            None => None,
        }
    }

    pub fn set_font_normal(&mut self, new_val: Font)
        ensures
            *final(self) == (Theme { font_normal: Some(new_val), ..*old(self) }),
    {
        self.font_normal = Some(new_val);
    }

    /// The font, or `None` where the theme has none.
    pub fn font_bold(&self) -> (font: Option<&Font>)
        ensures
            match font {
                Some(found) => self.font_bold == Some(*found),
                None => self.font_bold is None,
            },
    {
        match &self.font_bold {
            Some(font) => Some(font),
            None => None,
        }
    }

    pub fn set_font_bold(&mut self, new_val: Font)
        ensures
            *final(self) == (Theme { font_bold: Some(new_val), ..*old(self) }),
    {
        self.font_bold = Some(new_val);
    }

    /// The font, or `None` where the theme has none.
    pub fn font_icons(&self) -> (font: Option<&Font>)
        ensures
            match font {
                Some(found) => self.font_icons == Some(*found),
                None => self.font_icons is None,
            },
    {
        match &self.font_icons {
            Some(font) => Some(font),
            None => None,
        }
    }

    pub fn set_font_icons(&mut self, new_val: Font)
        ensures
            *final(self) == (Theme { font_icons: Some(new_val), ..*old(self) }),
    {
        self.font_icons = Some(new_val);
    }

    pub fn standard_font_size(&self) -> (value: u32)
        ensures
            value == self.standard_font_size,
    {
        self.standard_font_size
    }

    pub fn set_standard_font_size(&mut self, new_val: u32)
        ensures
            *final(self) == (Theme { standard_font_size: new_val, ..*old(self) }),
    {
        self.standard_font_size = new_val;
    }

    pub fn button_font_size(&self) -> (value: u32)
        ensures
            value == self.button_font_size,
    {
        self.button_font_size
    }

    pub fn set_button_font_size(&mut self, new_val: u32)
        ensures
            *final(self) == (Theme { button_font_size: new_val, ..*old(self) }),
    {
        self.button_font_size = new_val;
    }

    pub fn textbox_font_size(&self) -> (value: u32)
        ensures
            value == self.textbox_font_size,
    {
        self.textbox_font_size
    }

    pub fn set_textbox_font_size(&mut self, new_val: u32)
        ensures
            *final(self) == (Theme { textbox_font_size: new_val, ..*old(self) }),
    {
        self.textbox_font_size = new_val;
    }

    pub fn window_corner_radius(&self) -> (value: u32)
        ensures
            value == self.window_corner_radius,
    {
        self.window_corner_radius
    }

    pub fn set_window_corner_radius(&mut self, new_val: u32)
        ensures
            *final(self) == (Theme { window_corner_radius: new_val, ..*old(self) }),
    {
        self.window_corner_radius = new_val;
    }

    pub fn window_header_height(&self) -> (value: u32)
        ensures
            value == self.window_header_height,
    {
        self.window_header_height
    }

    pub fn set_window_header_height(&mut self, new_val: u32)
        ensures
            *final(self) == (Theme { window_header_height: new_val, ..*old(self) }),
    {
        self.window_header_height = new_val;
    }

    pub fn window_dropshadow_size(&self) -> (value: u32)
        ensures
            value == self.window_dropshadow_size,
    {
        self.window_dropshadow_size
    }

    pub fn set_window_dropshadow_size(&mut self, new_val: u32)
        ensures
            *final(self) == (Theme { window_dropshadow_size: new_val, ..*old(self) }),
    {
        self.window_dropshadow_size = new_val;
    }

    pub fn button_corner_radius(&self) -> (value: u32)
        ensures
            value == self.button_corner_radius,
    {
        self.button_corner_radius
    }

    pub fn set_button_corner_radius(&mut self, new_val: u32)
        ensures
            *final(self) == (Theme { button_corner_radius: new_val, ..*old(self) }),
    {
        self.button_corner_radius = new_val;
    }

    pub fn dropshadow(&self) -> (value: Color)
        ensures
            value == self.dropshadow,
    {
        self.dropshadow
    }

    pub fn set_dropshadow(&mut self, new_val: Color)
        ensures
            *final(self) == (Theme { dropshadow: new_val, ..*old(self) }),
    {
        self.dropshadow = new_val;
    }

    pub fn transparent(&self) -> (value: Color)
        ensures
            value == self.transparent,
    {
        self.transparent
    }

    pub fn set_transparent(&mut self, new_val: Color)
        ensures
            *final(self) == (Theme { transparent: new_val, ..*old(self) }),
    {
        self.transparent = new_val;
    }

    pub fn border_dark(&self) -> (value: Color)
        ensures
            value == self.border_dark,
    {
        self.border_dark
    }

    pub fn set_border_dark(&mut self, new_val: Color)
        ensures
            *final(self) == (Theme { border_dark: new_val, ..*old(self) }),
    {
        self.border_dark = new_val;
    }

    pub fn border_light(&self) -> (value: Color)
        ensures
            value == self.border_light,
    {
        self.border_light
    }

    pub fn set_border_light(&mut self, new_val: Color)
        ensures
            *final(self) == (Theme { border_light: new_val, ..*old(self) }),
    {
        self.border_light = new_val;
    }

    pub fn border_medium(&self) -> (value: Color)
        ensures
            value == self.border_medium,
    {
        self.border_medium
    }

    pub fn set_border_medium(&mut self, new_val: Color)
        ensures
            *final(self) == (Theme { border_medium: new_val, ..*old(self) }),
    {
        self.border_medium = new_val;
    }

    pub fn text_color(&self) -> (value: Color)
        ensures
            value == self.text_color,
    {
        self.text_color
    }

    pub fn set_text_color(&mut self, new_val: Color)
        ensures
            *final(self) == (Theme { text_color: new_val, ..*old(self) }),
    {
        self.text_color = new_val;
    }

    pub fn disabled_text_color(&self) -> (value: Color)
        ensures
            value == self.disabled_text_color,
    {
        self.disabled_text_color
    }

    pub fn set_disabled_text_color(&mut self, new_val: Color)
        ensures
            *final(self) == (Theme { disabled_text_color: new_val, ..*old(self) }),
    {
        self.disabled_text_color = new_val;
    }

    pub fn text_color_shadow(&self) -> (value: Color)
        ensures
            value == self.text_color_shadow,
    {
        self.text_color_shadow
    }

    pub fn set_text_color_shadow(&mut self, new_val: Color)
        ensures
            *final(self) == (Theme { text_color_shadow: new_val, ..*old(self) }),
    {
        self.text_color_shadow = new_val;
    }

    pub fn icon_color(&self) -> (value: Color)
        ensures
            value == self.icon_color,
    {
        self.icon_color
    }

    pub fn set_icon_color(&mut self, new_val: Color)
        ensures
            *final(self) == (Theme { icon_color: new_val, ..*old(self) }),
    {
        self.icon_color = new_val;
    }

    pub fn button_gradient_top_focused(&self) -> (value: Color)
        ensures
            value == self.button_gradient_top_focused,
    {
        self.button_gradient_top_focused
    }

    pub fn set_button_gradient_top_focused(&mut self, new_val: Color)
        ensures
            *final(self) == (Theme { button_gradient_top_focused: new_val, ..*old(self) }),
    {
        self.button_gradient_top_focused = new_val;
    }

    pub fn button_gradient_bot_focused(&self) -> (value: Color)
        ensures
            value == self.button_gradient_bot_focused,
    {
        self.button_gradient_bot_focused
    }

    pub fn set_button_gradient_bot_focused(&mut self, new_val: Color)
        ensures
            *final(self) == (Theme { button_gradient_bot_focused: new_val, ..*old(self) }),
    {
        self.button_gradient_bot_focused = new_val;
    }

    pub fn button_gradient_top_unfocused(&self) -> (value: Color)
        ensures
            value == self.button_gradient_top_unfocused,
    {
        self.button_gradient_top_unfocused
    }

    pub fn set_button_gradient_top_unfocused(&mut self, new_val: Color)
        ensures
            *final(self) == (Theme { button_gradient_top_unfocused: new_val, ..*old(self) }),
    {
        self.button_gradient_top_unfocused = new_val;
    }

    pub fn button_gradient_bot_unfocused(&self) -> (value: Color)
        ensures
            value == self.button_gradient_bot_unfocused,
    {
        self.button_gradient_bot_unfocused
    }

    pub fn set_button_gradient_bot_unfocused(&mut self, new_val: Color)
        ensures
            *final(self) == (Theme { button_gradient_bot_unfocused: new_val, ..*old(self) }),
    {
        self.button_gradient_bot_unfocused = new_val;
    }

    pub fn button_gradient_top_pushed(&self) -> (value: Color)
        ensures
            value == self.button_gradient_top_pushed,
    {
        self.button_gradient_top_pushed
    }

    pub fn set_button_gradient_top_pushed(&mut self, new_val: Color)
        ensures
            *final(self) == (Theme { button_gradient_top_pushed: new_val, ..*old(self) }),
    {
        self.button_gradient_top_pushed = new_val;
    }

    pub fn button_gradient_bot_pushed(&self) -> (value: Color)
        ensures
            value == self.button_gradient_bot_pushed,
    {
        self.button_gradient_bot_pushed
    }

    pub fn set_button_gradient_bot_pushed(&mut self, new_val: Color)
        ensures
            *final(self) == (Theme { button_gradient_bot_pushed: new_val, ..*old(self) }),
    {
        self.button_gradient_bot_pushed = new_val;
    }

    pub fn window_fill_unfocused(&self) -> (value: Color)
        ensures
            value == self.window_fill_unfocused,
    {
        self.window_fill_unfocused
    }

    pub fn set_window_fill_unfocused(&mut self, new_val: Color)
        ensures
            *final(self) == (Theme { window_fill_unfocused: new_val, ..*old(self) }),
    {
        self.window_fill_unfocused = new_val;
    }

    pub fn window_fill_focused(&self) -> (value: Color)
        ensures
            value == self.window_fill_focused,
    {
        self.window_fill_focused
    }

    pub fn set_window_fill_focused(&mut self, new_val: Color)
        ensures
            *final(self) == (Theme { window_fill_focused: new_val, ..*old(self) }),
    {
        self.window_fill_focused = new_val;
    }

    pub fn window_title_unfocused(&self) -> (value: Color)
        ensures
            value == self.window_title_unfocused,
    {
        self.window_title_unfocused
    }

    pub fn set_window_title_unfocused(&mut self, new_val: Color)
        ensures
            *final(self) == (Theme { window_title_unfocused: new_val, ..*old(self) }),
    {
        self.window_title_unfocused = new_val;
    }

    pub fn window_title_focused(&self) -> (value: Color)
        ensures
            value == self.window_title_focused,
    {
        self.window_title_focused
    }

    pub fn set_window_title_focused(&mut self, new_val: Color)
        ensures
            *final(self) == (Theme { window_title_focused: new_val, ..*old(self) }),
    {
        self.window_title_focused = new_val;
    }

    pub fn window_header_gradient_top(&self) -> (value: Color)
        ensures
            value == self.window_header_gradient_top,
    {
        self.window_header_gradient_top
    }

    pub fn set_window_header_gradient_top(&mut self, new_val: Color)
        ensures
            *final(self) == (Theme { window_header_gradient_top: new_val, ..*old(self) }),
    {
        self.window_header_gradient_top = new_val;
    }

    pub fn window_header_gradient_bot(&self) -> (value: Color)
        ensures
            value == self.window_header_gradient_bot,
    {
        self.window_header_gradient_bot
    }

    pub fn set_window_header_gradient_bot(&mut self, new_val: Color)
        ensures
            *final(self) == (Theme { window_header_gradient_bot: new_val, ..*old(self) }),
    {
        self.window_header_gradient_bot = new_val;
    }

    pub fn window_header_sep_top(&self) -> (value: Color)
        ensures
            value == self.window_header_sep_top,
    {
        self.window_header_sep_top
    }

    pub fn set_window_header_sep_top(&mut self, new_val: Color)
        ensures
            *final(self) == (Theme { window_header_sep_top: new_val, ..*old(self) }),
    {
        self.window_header_sep_top = new_val;
    }

    pub fn window_header_sep_bot(&self) -> (value: Color)
        ensures
            value == self.window_header_sep_bot,
    {
        self.window_header_sep_bot
    }

    pub fn set_window_header_sep_bot(&mut self, new_val: Color)
        ensures
            *final(self) == (Theme { window_header_sep_bot: new_val, ..*old(self) }),
    {
        self.window_header_sep_bot = new_val;
    }

    pub fn window_popup(&self) -> (value: Color)
        ensures
            value == self.window_popup,
    {
        self.window_popup
    }

    pub fn set_window_popup(&mut self, new_val: Color)
        ensures
            *final(self) == (Theme { window_popup: new_val, ..*old(self) }),
    {
        self.window_popup = new_val;
    }

    pub fn window_popup_transparent(&self) -> (value: Color)
        ensures
            value == self.window_popup_transparent,
    {
        self.window_popup_transparent
    }

    pub fn set_window_popup_transparent(&mut self, new_val: Color)
        ensures
            *final(self) == (Theme { window_popup_transparent: new_val, ..*old(self) }),
    {
        self.window_popup_transparent = new_val;
    }

}

} // verus!
