//! The state machine of pointer-driven moves and resizes: at most one is in
//! progress at any time.

use vstd::prelude::*;
use crate::config::{has_modifier, holds_modifier, Window, MIN_WIN_WIDTH, MOVE_BUTTON, RESIZE_BUTTON};
use crate::geometry::Rectangle;

verus! {

/// What a drag does to the window.
#[derive(Clone, Copy, Debug, PartialEq, Eq, Structural)]
pub enum DragMode {
    Move,
    Resize,
}

/// What was recorded when a drag began.
#[derive(Clone, Copy, Debug, PartialEq, Eq, Structural)]
pub struct DragContext {
    /// The client window that is dragged.
    pub window: Window,
    /// Its frame.
    pub frame: Window,
    /// Where the pointer was when the button went down.
    pub pointer_x: i16,
    pub pointer_y: i16,
    /// Position and size of the frame at that moment.
    pub origin: Rectangle,
}

/// The state of the interaction.
#[derive(Clone, Copy, Debug, PartialEq, Eq, Structural)]
pub enum InteractionState {
    Idle,
    Moving(DragContext),
    Resizing(DragContext),
}

/// What a pointer motion asks of the windows during a drag.
#[derive(Clone, Copy, Debug, PartialEq, Eq, Structural)]
pub enum DragUpdate {
    /// Place the frame at this position.
    MoveTo { frame: Window, x: i32, y: i32 },
    /// Give frame and client this size.
    ResizeTo { frame: Window, window: Window, width: u32, height: u32 },
}

/// The drag that a button press asks for: the modifier must be held and the
/// button must be the one bound to moving or to resizing.
pub open spec fn drag_mode(state: u16, button: u8) -> Option<DragMode> {
    if !has_modifier(state) {
        None
    } else if button == MOVE_BUTTON {
        Some(DragMode::Move)
    } else if button == RESIZE_BUTTON {
        Some(DragMode::Resize)
    } else {
        None
    }
}

/// The state that a drag of the given mode begins in.
pub open spec fn started(mode: DragMode, context: DragContext) -> InteractionState {
    match mode {
        DragMode::Move => InteractionState::Moving(context),
        DragMode::Resize => InteractionState::Resizing(context),
    }
}

/// The state after a press that qualifies for a drag: only an idle
/// controller begins one.
pub open spec fn state_after_press(
    state: InteractionState,
    mode: DragMode,
    context: DragContext,
) -> InteractionState {
    match state {
        InteractionState::Idle => started(mode, context),
        _ => state,
    }
}

/// The state after a button release: the drag ends when the released button
/// is the one that the drag's mode is bound to, and goes on otherwise.
pub open spec fn state_after_release(state: InteractionState, button: u8) -> InteractionState {
    match state {
        InteractionState::Idle => InteractionState::Idle,
        InteractionState::Moving(_) => if button == MOVE_BUTTON {
            InteractionState::Idle
        } else {
            state
        },
        InteractionState::Resizing(_) => if button == RESIZE_BUTTON {
            InteractionState::Idle
        } else {
            state
        },
    }
}

/// The larger of an extent and the smallest extent a resize may give.
pub open spec fn floored(extent: int) -> int {
    if extent < MIN_WIN_WIDTH {
        MIN_WIN_WIDTH as int
    } else {
        extent
    }
}

/// What a motion of the pointer to `(x, y)` asks for: while moving, the
/// frame's origin displaced as the pointer was; while resizing, the size at
/// the press grown as the pointer was displaced, but never under the floor.
pub open spec fn update_for_motion(state: InteractionState, x: i16, y: i16) -> Option<DragUpdate> {
    match state {
        InteractionState::Idle => None,
        InteractionState::Moving(context) => Some(
            DragUpdate::MoveTo {
                frame: context.frame,
                x: (context.origin.x + (x - context.pointer_x)) as i32,
                y: (context.origin.y + (y - context.pointer_y)) as i32,
            },
        ),
        InteractionState::Resizing(context) => Some(
            DragUpdate::ResizeTo {
                frame: context.frame,
                window: context.window,
                width: floored(context.origin.width + (x - context.pointer_x)) as u32,
                height: floored(context.origin.height + (y - context.pointer_y)) as u32,
            },
        ),
    }
}

/// Decides which drag, if any, a button press asks for.
pub fn mode_for_press(state: u16, button: u8) -> (mode: Option<DragMode>)
    ensures
        mode == drag_mode(state, button),
{
    if !holds_modifier(state) {
        None
    } else if button == MOVE_BUTTON {
        Some(DragMode::Move)
    } else if button == RESIZE_BUTTON {
        Some(DragMode::Resize)
    } else {
        None
    }
}

/// Tracks the drag in progress, if any.
pub struct InteractionController {
    state: InteractionState,
}

impl View for InteractionController {
    type V = InteractionState;

    closed spec fn view(&self) -> InteractionState {
        self.state
    }
}

impl InteractionController {
    /// An idle controller.
    pub fn new() -> (controller: InteractionController)
        ensures
            controller@ == InteractionState::Idle,
    {
        InteractionController { state: InteractionState::Idle }
    }

    /// The current state.
    pub fn state(&self) -> (state: InteractionState)
        ensures
            state == self@,
    {
        self.state
    }

    /// Whether no drag is in progress.
    pub fn is_idle(&self) -> (idle: bool)
        ensures
            idle == (self@ == InteractionState::Idle),
    {
        match self.state {
            InteractionState::Idle => true,
            _ => false,
        }
    }

    /// Begins a drag, unless one is in progress already. Returns whether the
    /// drag began.
    pub fn press(&mut self, mode: DragMode, context: DragContext) -> (began: bool)
        ensures
            final(self)@ == state_after_press(old(self)@, mode, context),
            began == (old(self)@ == InteractionState::Idle),
    {
        if self.is_idle() {
            self.state = match mode {
                DragMode::Move => InteractionState::Moving(context),
                DragMode::Resize => InteractionState::Resizing(context),
            };
            true
        } else {
            false
        }
    }

    /// Ends the drag if `button` is the button that began it.
    pub fn release(&mut self, button: u8)
        ensures
            final(self)@ == state_after_release(old(self)@, button),
    {
        match self.state {
            InteractionState::Idle => {},
            InteractionState::Moving(_) => {
                if button == MOVE_BUTTON {
                    self.state = InteractionState::Idle;
                }
            },
            InteractionState::Resizing(_) => {
                if button == RESIZE_BUTTON {
                    self.state = InteractionState::Idle;
                }
            },
        }
    }

    /// Computes what a motion of the pointer to `(x, y)` asks of the dragged
    /// window. Nothing is asked while no drag is in progress.
    pub fn motion(&self, x: i16, y: i16) -> (update: Option<DragUpdate>)
        ensures
            update == update_for_motion(self@, x, y),
    {
        match self.state {
            InteractionState::Idle => None,
            InteractionState::Moving(context) => {
                let dx: i32 = x as i32 - context.pointer_x as i32;
                let dy: i32 = y as i32 - context.pointer_y as i32;
                Some(
                    DragUpdate::MoveTo {
                        frame: context.frame,
                        x: context.origin.x as i32 + dx,
                        y: context.origin.y as i32 + dy,
                    },
                )
            },
            InteractionState::Resizing(context) => {
                let dx: i32 = x as i32 - context.pointer_x as i32;
                let dy: i32 = y as i32 - context.pointer_y as i32;
                let width: i32 = at_least_minimum(context.origin.width as i32 + dx);
                let height: i32 = at_least_minimum(context.origin.height as i32 + dy);
                Some(
                    DragUpdate::ResizeTo {
                        frame: context.frame,
                        window: context.window,
                        width: width as u32,
                        height: height as u32,
                    },
                )
            },
        }
    }
}

/// Raises an extent to the smallest one a resize may give.
pub fn at_least_minimum(extent: i32) -> (result: i32)
    ensures
        result == floored(extent as int),
        result >= MIN_WIN_WIDTH,
{
    if extent < MIN_WIN_WIDTH {
        MIN_WIN_WIDTH
    } else {
        extent
    }
}

/// A resize never gives a window a width or a height under the floor,
/// however far the pointer is dragged back: an extent that would fall under
/// the floor is the floor.
pub proof fn lemma_resize_floor(context: DragContext, x: i16, y: i16)
    ensures
        update_for_motion(InteractionState::Resizing(context), x, y) matches Some(
            DragUpdate::ResizeTo { width, height, .. },
        ) && width >= MIN_WIN_WIDTH && height >= MIN_WIN_WIDTH && (context.origin.width + (x
            - context.pointer_x) < MIN_WIN_WIDTH ==> width == MIN_WIN_WIDTH) && (
        context.origin.height + (y - context.pointer_y) < MIN_WIN_WIDTH ==> height
            == MIN_WIN_WIDTH),
{
}

} // verus!
