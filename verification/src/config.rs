//! Configuration constants of the window manager.

use vstd::prelude::*;

verus! {

/// An X11 window identifier.
pub type Window = u32;

/// Modifier bit that must be held for pointer operations on a window (Mod4).
pub const MOD_MASK: u16 = 0x40;

/// Pointer button that starts a move.
pub const MOVE_BUTTON: u8 = 1;

/// Pointer button that starts a resize.
pub const RESIZE_BUTTON: u8 = 3;

/// Foreground colour of the status bar text.
pub const TEXT_COLOR: u32 = 0xfffafafa;

/// Background colour of the status bar.
pub const TOP_BAR_COLOR: u32 = 0xff224488;

/// Height in pixels of the status bar at the top of the screen.
pub const TOP_BAR_HEIGHT: u16 = 20;

/// Horizontal offset in pixels of the status bar text.
pub const TOP_BAR_TEXT_OFFSET: i16 = 4;

/// Smallest width and height that an interactive resize may produce.
pub const MIN_WIN_WIDTH: i32 = 10;

/// Whether `state`, the modifier state of a pointer event, holds the
/// window-manager modifier.
pub open spec fn has_modifier(state: u16) -> bool {
    state & MOD_MASK != 0
}

/// Tests whether the modifier state of a pointer event holds the
/// window-manager modifier.
pub fn holds_modifier(state: u16) -> (held: bool)
    ensures
        held == has_modifier(state),
{
    state & MOD_MASK != 0
}

} // verus!
