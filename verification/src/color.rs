use vstd::prelude::*;

verus! {

/// An opaque colour of three 8-bit channels.
#[derive(Clone, Copy, Debug, PartialEq, Eq, Structural)]
pub struct Color {
    pub r: u8,
    pub g: u8,
    pub b: u8,
}

impl View for Color {
    type V = Color;

    open spec fn view(&self) -> Color {
        *self
    }
}

impl DeepView for Color {
    type V = Color;

    open spec fn deep_view(&self) -> Color {
        *self
    }
}

impl Color {
    /// The colour with the given channels.
    pub open spec fn rgb(r: u8, g: u8, b: u8) -> Color {
        Color { r, g, b }
    }

    /// Builds a colour from its three channels.
    pub fn from_rgb(r: u8, g: u8, b: u8) -> (c: Color)
        ensures
            c == Color::rgb(r, g, b),
    {
        Color { r, g, b }
    }
}

/// The colour of a heading of the given level: one entry per level from 1 to 5,
/// and one shared grey entry for every other level.
pub open spec fn heading_color(level: nat, dark: bool) -> Color {
    if level == 1 {
        if dark { Color::rgb(255, 175, 135) } else { Color::rgb(180, 85, 20) }
    } else if level == 2 {
        if dark { Color::rgb(200, 175, 255) } else { Color::rgb(100, 80, 175) }
    } else if level == 3 {
        if dark { Color::rgb(135, 215, 255) } else { Color::rgb(35, 120, 175) }
    } else if level == 4 {
        if dark { Color::rgb(175, 255, 200) } else { Color::rgb(50, 140, 90) }
    } else if level == 5 {
        if dark { Color::rgb(255, 200, 175) } else { Color::rgb(175, 80, 50) }
    } else {
        if dark { Color::rgb(220, 220, 220) } else { Color::rgb(60, 60, 60) }
    }
}

/// The colour of ordinary text.
pub open spec fn normal_color(dark: bool) -> Color {
    if dark { Color::rgb(220, 220, 220) } else { Color::rgb(32, 32, 32) }
}

/// The colour behind code.
pub open spec fn code_background(dark: bool) -> Color {
    if dark { Color::rgb(45, 45, 45) } else { Color::rgb(245, 245, 245) }
}

/// The colour of the bar beside a quotation.
pub open spec fn blockquote_color(dark: bool) -> Color {
    if dark { Color::rgb(100, 160, 200) } else { Color::rgb(70, 130, 180) }
}

/// The colour of a link.
pub open spec fn link_color(dark: bool) -> Color {
    if dark { Color::rgb(100, 149, 237) } else { Color::rgb(0, 0, 238) }
}

/// Resolves the colour of a heading; levels outside 1 to 5 share the grey entry.
pub fn heading_style_to_color(level: usize, is_dark: bool) -> (c: Color)
    ensures
        c == heading_color(level as nat, is_dark),
{
    if level == 1 {
        if is_dark { Color::from_rgb(255, 175, 135) } else { Color::from_rgb(180, 85, 20) }
    } else if level == 2 {
        if is_dark { Color::from_rgb(200, 175, 255) } else { Color::from_rgb(100, 80, 175) }
    } else if level == 3 {
        if is_dark { Color::from_rgb(135, 215, 255) } else { Color::from_rgb(35, 120, 175) }
    } else if level == 4 {
        if is_dark { Color::from_rgb(175, 255, 200) } else { Color::from_rgb(50, 140, 90) }
    } else if level == 5 {
        if is_dark { Color::from_rgb(255, 200, 175) } else { Color::from_rgb(175, 80, 50) }
    } else {
        if is_dark { Color::from_rgb(220, 220, 220) } else { Color::from_rgb(60, 60, 60) }
    }
}

/// Resolves the colour of ordinary text.
pub fn get_text_color(is_dark: bool) -> (c: Color)
    ensures
        c == normal_color(is_dark),
{
    if is_dark { Color::from_rgb(220, 220, 220) } else { Color::from_rgb(32, 32, 32) }
}

/// Resolves the colour behind code.
pub fn get_code_background(is_dark: bool) -> (c: Color)
    ensures
        c == code_background(is_dark),
{
    if is_dark { Color::from_rgb(45, 45, 45) } else { Color::from_rgb(245, 245, 245) }
}

/// Resolves the colour of the bar beside a quotation.
pub fn get_blockquote_color(is_dark: bool) -> (c: Color)
    ensures
        c == blockquote_color(is_dark),
{
    if is_dark { Color::from_rgb(100, 160, 200) } else { Color::from_rgb(70, 130, 180) }
}

/// Resolves the colour of a link.
pub fn get_link_color(is_dark: bool) -> (c: Color)
    ensures
        c == link_color(is_dark),
{
    if is_dark { Color::from_rgb(100, 149, 237) } else { Color::from_rgb(0, 0, 238) }
}

} // verus!
