use mswm::config::{holds_modifier, MIN_WIN_WIDTH, MOD_MASK, MOVE_BUTTON, RESIZE_BUTTON};
use mswm::focus::FocusTracker;
use mswm::geometry::Rectangle;
use mswm::interaction::{
    at_least_minimum, mode_for_press, DragContext, DragMode, DragUpdate, InteractionController,
    InteractionState,
};
use x11rb::protocol::xproto::ModMask;

fn context() -> DragContext {
    DragContext {
        window: 10,
        frame: 100,
        pointer_x: 60,
        pointer_y: 60,
        origin: Rectangle { x: 50, y: 50, width: 200, height: 100 },
    }
}

#[test]
fn modifier_is_the_fourth_modifier_of_the_protocol() {
    assert_eq!(MOD_MASK, u16::from(ModMask::M4));
    assert!(holds_modifier(0x40));
    assert!(holds_modifier(0x41));
    assert!(!holds_modifier(0x01));
    assert!(!holds_modifier(0));
}

#[test]
fn press_needs_modifier_and_a_bound_button() {
    assert_eq!(mode_for_press(MOD_MASK, MOVE_BUTTON), Some(DragMode::Move));
    assert_eq!(mode_for_press(MOD_MASK | 1, RESIZE_BUTTON), Some(DragMode::Resize));
    assert_eq!(mode_for_press(MOD_MASK, 2), None);
    assert_eq!(mode_for_press(0, MOVE_BUTTON), None);
    assert_eq!(mode_for_press(1, RESIZE_BUTTON), None);
}

#[test]
fn moving_follows_the_pointer() {
    let mut controller = InteractionController::new();
    assert!(controller.press(DragMode::Move, context()));
    assert_eq!(
        controller.motion(80, 90),
        Some(DragUpdate::MoveTo { frame: 100, x: 70, y: 80 })
    );
    assert_eq!(
        controller.motion(-30000, 32767),
        Some(DragUpdate::MoveTo { frame: 100, x: -30010, y: 32757 })
    );
}

#[test]
fn resizing_grows_with_the_pointer() {
    let mut controller = InteractionController::new();
    assert!(controller.press(DragMode::Resize, context()));
    assert_eq!(
        controller.motion(80, 90),
        Some(DragUpdate::ResizeTo { frame: 100, window: 10, width: 220, height: 130 })
    );
}

#[test]
fn resizing_stops_at_the_floor() {
    let mut controller = InteractionController::new();
    assert!(controller.press(DragMode::Resize, context()));
    assert_eq!(
        controller.motion(-200, -200),
        Some(DragUpdate::ResizeTo { frame: 100, window: 10, width: 10, height: 10 })
    );
    // One pixel above the floor in width, exactly at the floor in height.
    assert_eq!(
        controller.motion(60 - 189, 60 - 90),
        Some(DragUpdate::ResizeTo { frame: 100, window: 10, width: 11, height: 10 })
    );
    assert_eq!(at_least_minimum(-5), MIN_WIN_WIDTH);
    assert_eq!(at_least_minimum(0), MIN_WIN_WIDTH);
    assert_eq!(at_least_minimum(10), 10);
    assert_eq!(at_least_minimum(11), 11);
}

#[test]
fn idle_controller_ignores_motion_and_release() {
    let mut controller = InteractionController::new();
    assert_eq!(controller.motion(5, 5), None);
    controller.release(MOVE_BUTTON);
    assert_eq!(controller.state(), InteractionState::Idle);
    assert!(controller.is_idle());
}

#[test]
fn release_of_the_matching_button_ends_the_drag() {
    let mut controller = InteractionController::new();
    controller.press(DragMode::Move, context());
    assert_eq!(controller.state(), InteractionState::Moving(context()));
    controller.release(RESIZE_BUTTON);
    assert_eq!(controller.state(), InteractionState::Moving(context()));
    controller.release(MOVE_BUTTON);
    assert_eq!(controller.state(), InteractionState::Idle);

    controller.press(DragMode::Resize, context());
    assert_eq!(controller.state(), InteractionState::Resizing(context()));
    controller.release(MOVE_BUTTON);
    assert_eq!(controller.state(), InteractionState::Resizing(context()));
    controller.release(RESIZE_BUTTON);
    assert_eq!(controller.state(), InteractionState::Idle);
}

#[test]
fn drags_do_not_nest() {
    let mut controller = InteractionController::new();
    assert!(controller.press(DragMode::Move, context()));
    let other = DragContext { window: 11, frame: 101, ..context() };
    assert!(!controller.press(DragMode::Resize, other));
    assert_eq!(controller.state(), InteractionState::Moving(context()));
}

#[test]
fn focus_follows_enter_and_leave() {
    let mut focus = FocusTracker::new();
    assert_eq!(focus.focused(), None);
    focus.enter(10);
    assert_eq!(focus.focused(), Some(10));
    focus.enter(11);
    assert_eq!(focus.focused(), Some(11));
    focus.leave();
    assert_eq!(focus.focused(), None);
    focus.leave();
    assert_eq!(focus.focused(), None);
    focus.enter(4);
    assert_eq!(focus.focused(), Some(4));
}
