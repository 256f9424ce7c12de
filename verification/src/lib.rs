//! The core of a reparenting, tiling window manager for X11.
//!
//! The library holds the manager's state and decides; it never talks to the
//! display server. For every event it says what it needs to know first
//! (`wm::WM::probe`), and then turns the event and the answer into the next
//! state and a list of requests (`wm::WM::handle_event`). Whoever owns the
//! connection asks, sends and comes back with the next event.
//!
//! - `registry`: which frame holds which client.
//! - `order`: the floating windows and the tiling order.
//! - `sequence`: the filter for notifications of the manager's own requests.
//! - `interaction`: the state machine of pointer-driven moves and resizes.
//! - `focus`: the window that the pointer is in.
//! - `layout`, `tiling`: the two tiling layouts and what they guarantee.
//! - `keymap`, `keybind`: key names, chords and the commands bound to them.
//! - `bar`: the status bar.
//! - `protocol`: events, probes, replies and requests as plain values.
//! - `model`: the manager as a state machine over mathematical values.
//! - `wm`: the manager itself.

pub mod bar;
pub mod config;
pub mod focus;
pub mod geometry;
pub mod interaction;
pub mod keybind;
pub mod keymap;
pub mod layout;
pub mod model;
pub mod order;
pub mod protocol;
pub mod registry;
pub mod sequence;
pub mod tiling;
pub mod wm;
