//! Which window the pointer is in.

use vstd::prelude::*;
use crate::config::Window;

verus! {

/// Records the client window that the pointer entered last and has not left.
pub struct FocusTracker {
    focused: Option<Window>,
}

impl View for FocusTracker {
    type V = Option<Window>;

    closed spec fn view(&self) -> Option<Window> {
        self.focused
    }
}

impl FocusTracker {
    /// A tracker with no window focused.
    pub fn new() -> (tracker: FocusTracker)
        ensures
            tracker@ == None::<Window>,
    {
        FocusTracker { focused: None }
    }

    /// The focused window, if any.
    pub fn focused(&self) -> (window: Option<Window>)
        ensures
            window == self@,
    {
        self.focused
    }

    /// The pointer entered the frame of `client`.
    pub fn enter(&mut self, client: Window)
        ensures
            final(self)@ == Some(client),
    {
        self.focused = Some(client);
    }

    /// The pointer left the focused window.
    pub fn leave(&mut self)
        ensures
            final(self)@ == None::<Window>,
    {
        self.focused = None;
    }
}

} // verus!
