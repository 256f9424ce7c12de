//! The status bar at the top of the screen: what to paint, and which text.

use vstd::prelude::*;
use crate::config::{
    Window, TEXT_COLOR, TOP_BAR_COLOR, TOP_BAR_HEIGHT, TOP_BAR_TEXT_OFFSET,
};
use crate::geometry::Rectangle;

verus! {

/// The longest text, in bytes, that one text request can carry.
pub const MAX_TEXT_LENGTH: usize = 255;

/// Distance in pixels between the text's base line and the bar's lower edge.
pub const TEXT_BASELINE_INSET: i16 = 4;

/// What to paint to refresh the status bar: a filled rectangle in
/// `fill_color`, then `text` at `(text_x, text_y)` in `text_color` on
/// `text_background`.
#[derive(Debug, PartialEq, Eq)]
pub struct BarPaint {
    pub fill: Rectangle,
    pub fill_color: u32,
    pub text_color: u32,
    pub text_background: u32,
    pub text_x: i16,
    pub text_y: i16,
    pub text: Vec<u8>,
}

/// The label shown while no window is focused: the bytes of `MSWM`.
pub open spec fn default_label() -> Seq<u8> {
    seq![0x4du8, 0x53u8, 0x57u8, 0x4du8]
}

/// The text of the status bar: the title of the focused window, cut to the
/// length that a text request can carry, or the default label where no
/// window is focused or its title is not known.
pub open spec fn bar_text(focused: Option<Window>, title: Option<Seq<u8>>) -> Seq<u8> {
    match (focused, title) {
        (Some(_), Some(title)) => if title.len() > MAX_TEXT_LENGTH {
            title.take(MAX_TEXT_LENGTH as int)
        } else {
            title
        },
        _ => default_label(),
    }
}

/// The strip of the screen that the status bar fills.
pub open spec fn bar_strip(screen_width: u16) -> Rectangle {
    Rectangle { x: 0, y: 0, width: screen_width, height: TOP_BAR_HEIGHT }
}

/// Plans the repaint of the status bar of a screen `screen_width` pixels
/// wide. `focused` is the focused window and `title` its title, where it
/// has one.
pub fn draw_top_bar(screen_width: u16, focused: Option<Window>, title: Option<Vec<u8>>) -> (paint:
    BarPaint)
    ensures
        paint.fill == bar_strip(screen_width),
        paint.fill_color == TOP_BAR_COLOR,
        paint.text_color == TEXT_COLOR,
        paint.text_background == TOP_BAR_COLOR,
        paint.text_x == TOP_BAR_TEXT_OFFSET,
        paint.text_y == TOP_BAR_HEIGHT - TEXT_BASELINE_INSET,
        paint.text@ == bar_text(
            focused,
            match title {
                Some(title) => Some(title@),
                None => None,
            },
        ),
        paint.text@.len() <= MAX_TEXT_LENGTH,
{
    let text: Vec<u8> = match (focused, title) {
        (Some(_), Some(title)) => {
            let mut text = title;
            if text.len() > MAX_TEXT_LENGTH {
                text.truncate(MAX_TEXT_LENGTH);
            }
            text
        },
        _ => {
            let mut label: Vec<u8> = Vec::new();
            label.push(0x4du8);
            label.push(0x53u8);
            label.push(0x57u8);
            label.push(0x4du8);
            label
        },
    };
    let bar: i16 = TOP_BAR_HEIGHT as i16;
    BarPaint {
        fill: Rectangle { x: 0, y: 0, width: screen_width, height: TOP_BAR_HEIGHT },
        fill_color: TOP_BAR_COLOR,
        text_color: TEXT_COLOR,
        text_background: TOP_BAR_COLOR,
        text_x: TOP_BAR_TEXT_OFFSET,
        text_y: bar - TEXT_BASELINE_INSET,
        text,
    }
}

} // verus!
