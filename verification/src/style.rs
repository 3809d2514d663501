//! How an alert is drawn: the colours of each theme and the two lines of
//! text. Colours and sizes are whole numbers; whoever draws turns them into
//! fractions.

use vstd::prelude::*;
use vstd::string::StringExecFns;
use crate::alert::{AlertWindow, AlertWindowView};
use crate::reminder::Theme;

verus! {

/// The value of a colour channel that stands for full intensity.
pub const COLOR_UNIT: u32 = 100_000;

/// The share of the surface's width that a line of text may fill, in percent.
pub const TEXT_WIDTH_PERCENT: u32 = 90;

/// A colour in linear sRGB. Each channel counts in parts of [`COLOR_UNIT`].
#[derive(Clone, Copy, Debug, PartialEq, Eq, Structural)]
pub struct Color {
    pub r: u32,
    pub g: u32,
    pub b: u32,
    pub a: u32,
}

/// A grey of the given shade and opacity.
pub open spec fn grey(shade: u32, a: u32) -> Color {
    Color { r: shade, g: shade, b: shade, a }
}

/// The background of an alert window in `theme`.
pub open spec fn background_of(theme: Theme) -> Color {
    match theme {
        Theme::Dark => grey(1_298, 98_000),
        Theme::Light => grey(87_137, 95_000),
    }
}

/// The colour of the text of an alert window in `theme`.
pub open spec fn font_color_of(theme: Theme) -> Color {
    match theme {
        Theme::Dark => grey(87_137, 100_000),
        Theme::Light => grey(1_298, 100_000),
    }
}

/// The background of an alert window in `theme`.
pub fn background_color(theme: Theme) -> (color: Color)
    ensures
        color == background_of(theme),
{
    match theme {
        Theme::Dark => Color { r: 1_298, g: 1_298, b: 1_298, a: 98_000 },
        Theme::Light => Color { r: 87_137, g: 87_137, b: 87_137, a: 95_000 },
    }
}

/// The colour of the text of an alert window in `theme`.
pub fn font_color(theme: Theme) -> (color: Color)
    ensures
        color == font_color_of(theme),
{
    match theme {
        Theme::Dark => Color { r: 87_137, g: 87_137, b: 87_137, a: 100_000 },
        Theme::Light => Color { r: 1_298, g: 1_298, b: 1_298, a: 100_000 },
    }
}

/// The weight of the typeface of a line.
#[derive(Clone, Copy, Debug, PartialEq, Eq, Structural)]
pub enum Typeface {
    Black,
    Medium,
}

/// Where a line of text may be broken.
#[derive(Clone, Copy, Debug, PartialEq, Eq, Structural)]
pub enum LineBreaker {
    /// After any character.
    AnyChar,
    /// Where the Unicode line breaking rules allow it.
    Unicode,
}

/// One line of text on an alert window.
#[derive(Clone, Debug, PartialEq, Eq)]
pub struct TextLine {
    /// What the line says.
    pub text: String,
    /// The typeface.
    pub typeface: Typeface,
    /// The font size in pixels.
    pub scale: u32,
    /// The colour.
    pub color: Color,
    /// The distance of the text from the left edge of the surface.
    pub x: u32,
    /// The distance of the text from the top edge of the surface.
    pub y: u32,
    /// The width of the surface; the text fills [`TEXT_WIDTH_PERCENT`] of it.
    pub surface_width: u32,
    /// The height of the surface, which bounds the text.
    pub surface_height: u32,
    /// Where the line may be broken.
    pub breaker: LineBreaker,
}

/// A line of text as a mathematical value.
pub struct TextLineView {
    pub text: Seq<char>,
    pub typeface: Typeface,
    pub scale: nat,
    pub color: Color,
    pub x: nat,
    pub y: nat,
    pub surface_width: nat,
    pub surface_height: nat,
    pub breaker: LineBreaker,
}

impl View for TextLine {
    type V = TextLineView;

    open spec fn view(&self) -> TextLineView {
        TextLineView {
            text: self.text@,
            typeface: self.typeface,
            scale: self.scale as nat,
            color: self.color,
            x: self.x as nat,
            y: self.y as nat,
            surface_width: self.surface_width as nat,
            surface_height: self.surface_height as nat,
            breaker: self.breaker,
        }
    }
}

/// The heading of every alert: the word `Reminder`, large and heavy.
pub open spec fn title_line_of(window: AlertWindowView) -> TextLineView {
    TextLineView {
        text: "Reminder"@,
        typeface: Typeface::Black,
        scale: 40,
        color: font_color_of(window.theme),
        x: 15,
        y: 10,
        surface_width: window.width,
        surface_height: window.height,
        breaker: LineBreaker::AnyChar,
    }
}

/// The line below the heading: the text of the reminder.
pub open spec fn reminder_line_of(window: AlertWindowView) -> TextLineView {
    TextLineView {
        text: window.reminder_string,
        typeface: Typeface::Medium,
        scale: 25,
        color: font_color_of(window.theme),
        x: 15,
        y: 55,
        surface_width: window.width,
        surface_height: window.height,
        breaker: LineBreaker::Unicode,
    }
}

/// The heading of the alert `window`.
pub fn title_line(window: &AlertWindow) -> (line: TextLine)
    ensures
        line@ == title_line_of(window@),
{
    TextLine {
        text: String::from_str("Reminder"),
        typeface: Typeface::Black,
        scale: 40,
        color: font_color(window.theme),
        x: 15,
        y: 10,
        surface_width: window.width,
        surface_height: window.height,
        breaker: LineBreaker::AnyChar,
    }
}

/// The line of the alert `window` that shows the reminder's text.
pub fn reminder_line(window: &AlertWindow) -> (line: TextLine)
    ensures
        line@ == reminder_line_of(window@),
{
    TextLine {
        text: window.reminder_string.clone(),
        typeface: Typeface::Medium,
        scale: 25,
        color: font_color(window.theme),
        x: 15,
        y: 55,
        surface_width: window.width,
        surface_height: window.height,
        breaker: LineBreaker::Unicode,
    }
}

/// In each theme the text has the shade of the other theme's background, so
/// text and background never have the same shade, and the text is opaque.
pub proof fn lemma_text_contrasts_with_background(theme: Theme)
    ensures
        font_color_of(theme).r == background_of(
            match theme {
                Theme::Dark => Theme::Light,
                Theme::Light => Theme::Dark,
            },
        ).r,
        font_color_of(theme).r != background_of(theme).r,
        font_color_of(theme).a == COLOR_UNIT,
        background_of(theme).a < COLOR_UNIT,
{
}

/// Both lines of an alert have the colour of the window's theme and follow
/// the size of its surface; the heading stands above the text and does not
/// reach into it.
pub proof fn lemma_lines_follow_window(window: AlertWindowView)
    ensures
        title_line_of(window).color == font_color_of(window.theme),
        reminder_line_of(window).color == font_color_of(window.theme),
        title_line_of(window).surface_width == window.width,
        reminder_line_of(window).surface_width == window.width,
        title_line_of(window).surface_height == window.height,
        reminder_line_of(window).surface_height == window.height,
        reminder_line_of(window).text == window.reminder_string,
        title_line_of(window).y + title_line_of(window).scale <= reminder_line_of(window).y,
{
}

} // verus!
