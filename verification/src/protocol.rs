//! The events that the manager reacts to and the requests that it answers
//! with, as plain values. Whoever owns the connection to the display server
//! turns notifications into `Event`s and carries the `Request`s out.

use vstd::prelude::*;
use x11rb::protocol::xproto::{
    ConfigWindow, ConfigureRequestEvent, ConfigureWindowAux, StackMode, CONFIGURE_REQUEST_EVENT,
};
use crate::config::Window;
use crate::geometry::Rectangle;

verus! {

/// Bits of a configure request's value mask: which fields the client set.
pub const CONFIG_X: u16 = 1;

pub const CONFIG_Y: u16 = 2;

pub const CONFIG_WIDTH: u16 = 4;

pub const CONFIG_HEIGHT: u16 = 8;

pub const CONFIG_BORDER_WIDTH: u16 = 16;

pub const CONFIG_SIBLING: u16 = 32;

pub const CONFIG_STACK_MODE: u16 = 64;

/// The events that the manager selects on the root window: pointer motion,
/// button presses and releases, and the notification and redirection of
/// changes to the root's children.
pub const ROOT_EVENT_MASK: u32 = 0x0000_0040 | 0x0000_0004 | 0x0000_0008 | 0x0008_0000
    | 0x0010_0000;

/// The events that the manager selects on a frame: the pointer entering and
/// leaving, and the notification and redirection of changes to the client.
pub const FRAME_EVENT_MASK: u32 = 0x0000_0010 | 0x0000_0020 | 0x0008_0000 | 0x0010_0000;

/// The pointer events that a button grab reports: presses, releases and
/// motion.
pub const GRAB_EVENT_MASK: u32 = 0x0000_0004 | 0x0000_0008 | 0x0000_0040;

/// The button index that stands for every button.
pub const ANY_BUTTON: u8 = 0;

/// The width in pixels of a frame's border.
pub const FRAME_BORDER_WIDTH: u16 = 1;

/// A grab of pointer buttons on a window.
#[derive(Clone, Copy, Debug, PartialEq, Eq, Structural)]
pub struct ButtonGrab {
    pub window: Window,
    /// The events to report while a button is down.
    pub event_mask: u32,
    /// The button, or `ANY_BUTTON`.
    pub button: u8,
    /// The modifiers that must be held.
    pub modifiers: u16,
}

/// A grab of a key on a window.
#[derive(Clone, Copy, Debug, PartialEq, Eq, Structural)]
pub struct KeyGrab {
    pub window: Window,
    /// The modifiers that must be held.
    pub modifiers: u16,
    /// The key code.
    pub key: u8,
}

/// A client's wish for a new geometry or stacking position.
#[derive(Clone, Copy, Debug, PartialEq, Eq, Structural)]
pub struct ConfigureRequest {
    pub window: Window,
    pub parent: Window,
    pub sibling: Window,
    pub x: i16,
    pub y: i16,
    pub width: u16,
    pub height: u16,
    pub border_width: u16,
    pub stack_mode: u32,
    pub value_mask: u16,
}

/// The changes that a request to configure a window carries: each field is
/// either set or left as it is.
#[derive(Clone, Copy, Debug, PartialEq, Eq, Structural)]
pub struct WindowChanges {
    pub x: Option<i32>,
    pub y: Option<i32>,
    pub width: Option<u32>,
    pub height: Option<u32>,
    pub border_width: Option<u32>,
    pub sibling: Option<Window>,
    pub stack_mode: Option<u32>,
}

/// The map state of a window that is not mapped.
pub const MAP_STATE_UNMAPPED: u8 = 0;

/// What the display server says of a child of the root window.
#[derive(Clone, Copy, Debug, PartialEq, Eq, Structural)]
pub struct ChildWindow {
    pub window: Window,
    /// 0 if the window is unmapped, 1 if it is mapped but not viewable,
    /// 2 if it is viewable.
    pub map_state: u8,
    /// Whether the window asked to be left alone by window managers.
    pub override_redirect: bool,
}

/// A button of the pointer went down.
#[derive(Clone, Copy, Debug, PartialEq, Eq, Structural)]
pub struct ButtonPress {
    /// The button.
    pub detail: u8,
    /// The modifiers held.
    pub state: u16,
    /// The window that the press is reported for.
    pub event: Window,
    /// The pointer's position on the screen.
    pub root_x: i16,
    pub root_y: i16,
}

/// What happened.
#[derive(Clone, Copy, Debug, PartialEq, Eq, Structural)]
pub enum EventKind {
    ConfigureRequest(ConfigureRequest),
    ButtonPress(ButtonPress),
    ButtonRelease { detail: u8 },
    MotionNotify { root_x: i16, root_y: i16 },
    /// The pointer entered the window `event`.
    EnterNotify { event: Window },
    LeaveNotify,
    KeyPress { state: u16, detail: u8 },
    MapRequest { window: Window },
    UnmapNotify { window: Window },
    /// Any other event: the manager does not react to it.
    Other,
}

/// An event with the sequence number of the request that it answers, where
/// it carries one.
#[derive(Clone, Copy, Debug, PartialEq, Eq, Structural)]
pub struct Event {
    pub sequence: Option<u16>,
    pub kind: EventKind,
}

/// What the manager must learn from the display server before it can handle
/// an event.
#[derive(Clone, Copy, Debug, PartialEq, Eq, Structural)]
pub enum Probe {
    /// Nothing.
    Nothing,
    /// The geometry of this window.
    Geometry { window: Window },
    /// The geometry of this window and a fresh identifier for its frame.
    NewWindow { window: Window },
    /// The geometry of the root window.
    Screen,
}

/// What the display server answered to a probe.
#[derive(Clone, Copy, Debug, PartialEq, Eq, Structural)]
pub enum Reply {
    /// Nothing was asked, or the answer could not be had.
    Nothing,
    Geometry { geometry: Rectangle },
    NewWindow { geometry: Rectangle, frame: Window },
    Screen { geometry: Rectangle },
}

/// What the manager asks of the display server.
#[derive(Debug, PartialEq, Eq)]
pub enum Request {
    /// Create the frame window `frame` on the root window.
    CreateFrame { frame: Window, geometry: Rectangle },
    GrabServer,
    UngrabServer,
    /// Make `window` a child of `parent` at `(x, y)`. Where `remember` is
    /// set, the request's sequence number is to be handed to the manager, so
    /// that the notifications it provokes are skipped.
    Reparent { window: Window, parent: Window, x: i16, y: i16, remember: bool },
    MapWindow { window: Window },
    UnmapWindow { window: Window },
    DestroyWindow { window: Window },
    /// Grab the pointer buttons on `window`, under the manager's modifier.
    GrabButtons { window: Window },
    /// Grab the bound keys on `window`.
    GrabKeys { window: Window },
    ConfigureWindow { window: Window, changes: WindowChanges },
    /// Repaint the status bar.
    RefreshTopBar,
    /// Start a program.
    Spawn { program: String },
    Flush,
}

impl WindowChanges {
    /// No change at all.
    pub open spec fn none() -> WindowChanges {
        WindowChanges {
            x: None,
            y: None,
            width: None,
            height: None,
            border_width: None,
            sibling: None,
            stack_mode: None,
        }
    }

    /// A new position, everything else as it is.
    pub open spec fn position(x: i32, y: i32) -> WindowChanges {
        WindowChanges { x: Some(x), y: Some(y), ..WindowChanges::none() }
    }

    /// A new size, everything else as it is.
    pub open spec fn size(width: u32, height: u32) -> WindowChanges {
        WindowChanges { width: Some(width), height: Some(height), ..WindowChanges::none() }
    }

    /// A new position and size.
    pub open spec fn geometry(x: i32, y: i32, width: u32, height: u32) -> WindowChanges {
        WindowChanges {
            x: Some(x),
            y: Some(y),
            width: Some(width),
            height: Some(height),
            ..WindowChanges::none()
        }
    }

    /// Builds the changes that set a new position.
    pub fn to_position(x: i32, y: i32) -> (changes: WindowChanges)
        ensures
            changes == WindowChanges::position(x, y),
    {
        WindowChanges {
            x: Some(x),
            y: Some(y),
            width: None,
            height: None,
            border_width: None,
            sibling: None,
            stack_mode: None,
        }
    }

    /// Builds the changes that set a new size.
    pub fn to_size(width: u32, height: u32) -> (changes: WindowChanges)
        ensures
            changes == WindowChanges::size(width, height),
    {
        WindowChanges {
            x: None,
            y: None,
            width: Some(width),
            height: Some(height),
            border_width: None,
            sibling: None,
            stack_mode: None,
        }
    }

    /// Builds the changes that set a new position and size.
    pub fn to_geometry(x: i32, y: i32, width: u32, height: u32) -> (changes: WindowChanges)
        ensures
            changes == WindowChanges::geometry(x, y, width, height),
    {
        WindowChanges {
            x: Some(x),
            y: Some(y),
            width: Some(width),
            height: Some(height),
            border_width: None,
            sibling: None,
            stack_mode: None,
        }
    }
}

/// The changes that grant a configure request as it stands: every field
/// that the client set in the value mask, with the value it asked for.
pub open spec fn requested_changes(request: ConfigureRequest) -> WindowChanges {
    WindowChanges {
        x: if request.value_mask & CONFIG_X != 0 {
            Some(request.x as i32)
        } else {
            None
        },
        y: if request.value_mask & CONFIG_Y != 0 {
            Some(request.y as i32)
        } else {
            None
        },
        width: if request.value_mask & CONFIG_WIDTH != 0 {
            Some(request.width as u32)
        } else {
            None
        },
        height: if request.value_mask & CONFIG_HEIGHT != 0 {
            Some(request.height as u32)
        } else {
            None
        },
        border_width: if request.value_mask & CONFIG_BORDER_WIDTH != 0 {
            Some(request.border_width as u32)
        } else {
            None
        },
        sibling: if request.value_mask & CONFIG_SIBLING != 0 {
            Some(request.sibling)
        } else {
            None
        },
        stack_mode: if request.value_mask & CONFIG_STACK_MODE != 0 {
            Some(request.stack_mode)
        } else {
            None
        },
    }
}

/// `x11rb::protocol::xproto::ConfigureWindowAux::from_configure_request`:
/// builds the changes that accept a configure request. It copies each of
/// x, y, width, height, border width, sibling and stack mode whose bit
/// (1, 2, 4, 8, 16, 32, 64 in this order) is set in the value mask, widened
/// to 32 bits, and leaves the others unset.
#[verifier::external_body]
pub(crate) fn changes_from_request(request: &ConfigureRequest) -> (changes: WindowChanges)
    ensures
        changes == requested_changes(*request),
{
    let event = ConfigureRequestEvent {
        response_type: CONFIGURE_REQUEST_EVENT, sequence: 0,
        stack_mode: StackMode::from(request.stack_mode),
        parent: request.parent, window: request.window, sibling: request.sibling,
        x: request.x, y: request.y, width: request.width, height: request.height,
        border_width: request.border_width,
        value_mask: ConfigWindow::from(request.value_mask),
    };
    let aux = ConfigureWindowAux::from_configure_request(&event);
    WindowChanges {
        x: aux.x, y: aux.y, width: aux.width, height: aux.height,
        border_width: aux.border_width, sibling: aux.sibling,
        stack_mode: aux.stack_mode.map(u32::from),
    }
}

} // verus!
