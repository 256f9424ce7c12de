//! The window manager as a state machine over plain mathematical values:
//! what each event makes of the state and which requests it gives rise to.

use vstd::prelude::*;
use crate::config::{Window, TOP_BAR_HEIGHT};
use crate::geometry::Rectangle;
use crate::interaction::{
    drag_mode, started, state_after_release, update_for_motion, DragContext, DragMode,
    DragUpdate, InteractionState,
};
use crate::keybind::{Command, KeyBind};
use crate::layout::{arrangement_of, can_lay_out, fibonacci_arrangement};
use crate::order::{
    disjoint, first_position, is_first_position, lemma_first_position,
    lemma_first_position_found, lemma_push_without, swapped, without,
};
use crate::protocol::{
    requested_changes, ButtonPress, ConfigureRequest, Event, EventKind, Probe, Reply, Request,
    WindowChanges,
};
use crate::registry::{lemma_register_unregister, mutually_inverse, RegistryError};
use crate::sequence::{ascending, pending_after, passes, with_remembered};

verus! {

/// Why an event could not be handled.
#[derive(Clone, Copy, Debug, PartialEq, Eq, Structural)]
pub enum WmError {
    /// The window could not be registered.
    Registry(RegistryError),
    /// The frame of a new window would lie beyond the addressable screen.
    FrameOutOfRange,
    /// The screen is lower than the status bar, or too large to address.
    UnusableScreen,
}

/// The state of the window manager.
#[verifier::ext_equal]
pub struct WmView {
    /// The root window.
    pub root: Window,
    /// The drag in progress.
    pub interaction: InteractionState,
    /// The window that the pointer is in.
    pub focused: Option<Window>,
    /// The sequence numbers whose notifications are to be skipped.
    pub pending: Seq<u16>,
    /// The frame of each managed client.
    pub frames: Map<Window, Window>,
    /// The client of each frame.
    pub clients: Map<Window, Window>,
    /// The tiling order.
    pub tiling: Seq<Window>,
    /// The floating windows.
    pub floating: Seq<Window>,
}

/// Whether a window with this geometry can be given a frame: the frame lies
/// lower by the height of the status bar, and its position must be
/// addressable.
pub open spec fn frame_fits(geometry: Rectangle) -> bool {
    geometry.y + TOP_BAR_HEIGHT <= i16::MAX
}

/// The geometry of the frame of a window with the given geometry.
pub open spec fn frame_geometry(geometry: Rectangle) -> Rectangle {
    Rectangle {
        x: geometry.x,
        y: (geometry.y + TOP_BAR_HEIGHT) as i16,
        width: geometry.width,
        height: geometry.height,
    }
}

/// The requests that take a window under management.
pub open spec fn manage_requests(client: Window, geometry: Rectangle, frame: Window) -> Seq<
    Request,
> {
    seq![
        Request::CreateFrame { frame, geometry: frame_geometry(geometry) },
        Request::GrabServer,
        Request::Reparent { window: client, parent: frame, x: 0, y: 0, remember: true },
        Request::MapWindow { window: client },
        Request::MapWindow { window: frame },
        Request::GrabButtons { window: client },
        Request::GrabKeys { window: client },
        Request::UngrabServer,
        Request::Flush,
    ]
}

/// The requests that place one window: its frame takes the rectangle and the
/// client fills the frame; a window without a frame takes the rectangle
/// itself.
pub open spec fn placement_requests(
    window: Window,
    rectangle: Rectangle,
    frames: Map<Window, Window>,
) -> Seq<Request> {
    if frames.contains_key(window) {
        seq![
            Request::ConfigureWindow {
                window: frames[window],
                changes: WindowChanges::geometry(
                    rectangle.x as i32,
                    rectangle.y as i32,
                    rectangle.width as u32,
                    rectangle.height as u32,
                ),
            },
            Request::ConfigureWindow {
                window,
                changes: WindowChanges::geometry(
                    0,
                    0,
                    rectangle.width as u32,
                    rectangle.height as u32,
                ),
            },
        ]
    } else {
        seq![
            Request::ConfigureWindow {
                window,
                changes: WindowChanges::geometry(
                    rectangle.x as i32,
                    rectangle.y as i32,
                    rectangle.width as u32,
                    rectangle.height as u32,
                ),
            },
        ]
    }
}

/// The requests that place the windows of an arrangement, in its order.
pub open spec fn arrangement_requests(
    placed: Seq<(Window, Rectangle)>,
    frames: Map<Window, Window>,
) -> Seq<Request>
    decreases placed.len(),
{
    if placed.len() == 0 {
        Seq::empty()
    } else {
        arrangement_requests(placed.drop_last(), frames) + placement_requests(
            placed.last().0,
            placed.last().1,
            frames,
        )
    }
}

/// The requests that carry an arrangement out: the placements, a repaint of
/// the status bar and a flush.
pub open spec fn layout_requests(
    placed: Seq<(Window, Rectangle)>,
    frames: Map<Window, Window>,
) -> Seq<Request> {
    arrangement_requests(placed, frames) + seq![Request::RefreshTopBar, Request::Flush]
}

/// The requests that a pointer motion gives rise to during a drag.
pub open spec fn motion_requests(state: InteractionState, x: i16, y: i16) -> Seq<Request> {
    match update_for_motion(state, x, y) {
        None => Seq::empty(),
        Some(DragUpdate::MoveTo { frame, x, y }) => seq![
            Request::ConfigureWindow { window: frame, changes: WindowChanges::position(x, y) },
            Request::Flush,
        ],
        Some(DragUpdate::ResizeTo { frame, window, width, height }) => seq![
            Request::ConfigureWindow { window: frame, changes: WindowChanges::size(width, height) },
            Request::ConfigureWindow { window, changes: WindowChanges::size(width, height) },
            Request::Flush,
        ],
    }
}

/// The requests that grant a client's configure request as it stands.
pub open spec fn configure_requests(request: ConfigureRequest) -> Seq<Request> {
    seq![
        Request::ConfigureWindow { window: request.window, changes: requested_changes(request) },
        Request::Flush,
    ]
}

impl WmView {
    /// The invariant of the state: frames and clients correspond one to one,
    /// the remembered sequence numbers ascend, no window occurs twice in the
    /// two orders, and the windows in them are the managed clients.
    pub open spec fn wf(self) -> bool {
        &&& mutually_inverse(self.frames, self.clients)
        &&& ascending(self.pending)
        &&& self.floating.no_duplicates()
        &&& self.tiling.no_duplicates()
        &&& disjoint(self.floating, self.tiling)
        &&& forall|window: Window|
            (self.floating.contains(window) || self.tiling.contains(window))
                <==> #[trigger] self.frames.contains_key(window)
    }

    /// The state after the request with the given sequence number was sent,
    /// whose notifications are to be skipped.
    pub open spec fn after_remember(self, sequence: u16) -> WmView {
        WmView { pending: with_remembered(self.pending, sequence), ..self }
    }

    /// The state after the filter has seen an event.
    pub open spec fn after_filter(self, sequence: Option<u16>) -> WmView {
        WmView { pending: pending_after(self.pending, sequence), ..self }
    }

    /// Whether `client` can be taken under management with the frame
    /// `frame`, or why not.
    pub open spec fn manage_result(self, client: Window, frame: Window) -> Result<
        (),
        RegistryError,
    > {
        if self.frames.contains_key(client) {
            Err(RegistryError::ClientRegistered)
        } else if self.clients.contains_key(frame) {
            Err(RegistryError::FrameRegistered)
        } else {
            Ok(())
        }
    }

    /// The state after an attempt to take `client` under management: where
    /// it succeeds the pair is registered and the client floats.
    pub open spec fn after_manage(self, client: Window, frame: Window) -> WmView {
        if self.manage_result(client, frame).is_ok() {
            WmView {
                frames: self.frames.insert(client, frame),
                clients: self.clients.insert(frame, client),
                floating: self.floating.push(client),
                ..self
            }
        } else {
            self
        }
    }

    /// The state after `client` was released: it is forgotten with its
    /// frame and leaves the order that held it. Nothing changes where the
    /// client is not managed.
    pub open spec fn after_unmanage(self, client: Window) -> WmView {
        if self.frames.contains_key(client) {
            WmView {
                frames: self.frames.remove(client),
                clients: self.clients.remove(self.frames[client]),
                floating: without(self.floating, client),
                tiling: without(self.tiling, client),
                ..self
            }
        } else {
            self
        }
    }

    /// The requests that release `client`: none where it is not managed.
    pub open spec fn unmanage_requests(self, client: Window) -> Seq<Request> {
        if self.frames.contains_key(client) {
            seq![
                Request::Reparent { window: client, parent: self.root, x: 0, y: 0, remember: false },
                Request::UnmapWindow { window: self.frames[client] },
                Request::DestroyWindow { window: self.frames[client] },
                Request::Flush,
            ]
        } else {
            Seq::empty()
        }
    }

    /// The state after a layout was applied: the floating windows have
    /// joined the tiling order.
    pub open spec fn after_apply_layout(self) -> WmView {
        WmView { tiling: self.tiling + self.floating, floating: Seq::empty(), ..self }
    }

    /// The place of the focused window in the tiling order, if it has one
    /// from which it can move towards the front.
    pub open spec fn place_to_raise(self) -> Option<int> {
        match self.focused {
            Some(window) => match first_position(self.tiling, window) {
                Some(place) => if place > 0 {
                    Some(place)
                } else {
                    None
                },
                None => None,
            },
            None => None,
        }
    }

    /// The place of the focused window in the tiling order, if it has one
    /// from which it can move towards the end.
    pub open spec fn place_to_lower(self) -> Option<int> {
        match self.focused {
            Some(window) => match first_position(self.tiling, window) {
                Some(place) => if place < self.tiling.len() - 1 {
                    Some(place)
                } else {
                    None
                },
                None => None,
            },
            None => None,
        }
    }

    /// The state after the windows at `place` and `neighbour` of the tiling
    /// order changed places. The focus is left as it is: it stays with the
    /// focused window as that window moves.
    pub open spec fn after_exchange(self, place: int, neighbour: int) -> WmView {
        WmView { tiling: swapped(self.tiling, place, neighbour), ..self }
    }

    /// The state after the focused window was asked to move one place
    /// towards the front of the tiling order: where it can move, it changes
    /// places with the window before it, keeps the focus, and the layout is
    /// applied again.
    pub open spec fn after_stack_inc(self) -> WmView {
        match self.place_to_raise() {
            Some(place) => self.after_exchange(place, place - 1).after_apply_layout(),
            None => self,
        }
    }

    /// The state after the focused window was asked to move one place
    /// towards the end of the tiling order: where it can move, it changes
    /// places with the window behind it, keeps the focus, and the layout is
    /// applied again.
    pub open spec fn after_stack_dec(self) -> WmView {
        match self.place_to_lower() {
            Some(place) => self.after_exchange(place, place + 1).after_apply_layout(),
            None => self,
        }
    }

    /// The managed client and the frame that a pointer event reported for
    /// `window` is about: `window` is the client or its frame.
    pub open spec fn framed_pair(self, window: Window) -> Option<(Window, Window)> {
        if self.frames.contains_key(window) {
            Some((window, self.frames[window]))
        } else if self.clients.contains_key(window) {
            Some((self.clients[window], window))
        } else {
            None
        }
    }

    /// The drag that a button press begins, with the client to drag and the
    /// frame whose geometry the drag starts from: the controller must be
    /// idle, the press must ask for a drag and must be over a managed
    /// window.
    pub open spec fn press_target(self, press: ButtonPress) -> Option<(DragMode, Window, Window)> {
        if self.interaction != InteractionState::Idle {
            None
        } else {
            match (drag_mode(press.state, press.detail), self.framed_pair(press.event)) {
                (Some(mode), Some((client, frame))) => Some((mode, client, frame)),
                _ => None,
            }
        }
    }

    /// The state after a button press, given the geometry of the frame.
    pub open spec fn after_press(self, press: ButtonPress, geometry: Rectangle) -> WmView {
        match self.press_target(press) {
            Some((mode, client, frame)) => WmView {
                interaction: started(
                    mode,
                    DragContext {
                        window: client,
                        frame,
                        pointer_x: press.root_x,
                        pointer_y: press.root_y,
                        origin: geometry,
                    },
                ),
                ..self
            },
            None => self,
        }
    }

    /// The state after a button release.
    pub open spec fn after_release(self, button: u8) -> WmView {
        WmView { interaction: state_after_release(self.interaction, button), ..self }
    }

    /// The state after the pointer entered `window`: where it is the frame
    /// of a managed client, or the client itself, the client is focused.
    pub open spec fn after_enter(self, window: Window) -> WmView {
        match self.framed_pair(window) {
            Some((client, _)) => WmView { focused: Some(client), ..self },
            None => self,
        }
    }

    /// The state after the pointer left a frame.
    pub open spec fn after_leave(self) -> WmView {
        WmView { focused: None, ..self }
    }

    /// The state after a command was carried out on a screen that can be
    /// laid out.
    pub open spec fn after_command(self, command: Command) -> WmView {
        match command {
            Command::ApplyLayout(_) => self.after_apply_layout(),
            Command::StackInc => self.after_stack_inc(),
            Command::StackDec => self.after_stack_dec(),
            Command::Spawn(_) => self,
        }
    }

    /// The requests that a command gives rise to on a screen that can be
    /// laid out.
    pub open spec fn command_requests(self, command: Command, screen: Rectangle) -> Seq<Request> {
        match command {
            Command::ApplyLayout(kind) => layout_requests(
                arrangement_of(kind, screen, self.after_apply_layout().tiling),
                self.frames,
            ),
            Command::StackInc => if self.place_to_raise().is_some() {
                layout_requests(
                    fibonacci_arrangement(screen, self.after_stack_inc().tiling),
                    self.frames,
                )
            } else {
                Seq::empty()
            },
            Command::StackDec => if self.place_to_lower().is_some() {
                layout_requests(
                    fibonacci_arrangement(screen, self.after_stack_dec().tiling),
                    self.frames,
                )
            } else {
                Seq::empty()
            },
            Command::Spawn(program) => seq![Request::Spawn { program }],
        }
    }

    /// What a key press does, given the command bound to the key and the
    /// geometry of the screen where it was asked for: the next state, and
    /// the requests or the reason for which there are none. A command that
    /// lays windows out is dropped where the screen is not known, and fails
    /// where the screen cannot be laid out.
    pub open spec fn key_outcome(self, command: Option<Command>, screen: Option<Rectangle>) -> (
        WmView,
        Result<Seq<Request>, WmError>,
    ) {
        match command {
            None => (self, Ok(Seq::empty())),
            Some(Command::Spawn(program)) => (self, Ok(seq![Request::Spawn { program }])),
            Some(command) => match screen {
                None => (self, Ok(Seq::empty())),
                Some(screen) => if can_lay_out(screen) {
                    (self.after_command(command), Ok(self.command_requests(command, screen)))
                } else {
                    (self, Err(WmError::UnusableScreen))
                },
            },
        }
    }

    /// What the manager must ask the display server before it can handle
    /// `event`. An event that the filter will skip needs nothing.
    pub open spec fn probe_for(self, event: Event, bound: Map<KeyBind, Command>) -> Probe {
        if !passes(self.pending, event.sequence) {
            Probe::Nothing
        } else {
            match event.kind {
                EventKind::ButtonPress(press) => match self.press_target(press) {
                    Some((_, _, frame)) => Probe::Geometry { window: frame },
                    None => Probe::Nothing,
                },
                EventKind::MapRequest { window } => Probe::NewWindow { window },
                EventKind::KeyPress { state, detail } => {
                    let bind = KeyBind { mask: state, key: detail as u16 };
                    if bound.contains_key(bind) && !(bound[bind] is Spawn) {
                        Probe::Screen
                    } else {
                        Probe::Nothing
                    }
                },
                _ => Probe::Nothing,
            }
        }
    }

    /// What an event that passed the filter does, given the display
    /// server's answer to the probe: the next state, and the requests or the
    /// reason for which there are none. An event whose answer is missing is
    /// dropped.
    pub open spec fn dispatch_outcome(
        self,
        kind: EventKind,
        reply: Reply,
        bound: Map<KeyBind, Command>,
    ) -> (WmView, Result<Seq<Request>, WmError>) {
        match kind {
            EventKind::ConfigureRequest(request) => (self, Ok(configure_requests(request))),
            EventKind::ButtonPress(press) => match reply {
                Reply::Geometry { geometry } => (
                    self.after_press(press, geometry),
                    Ok(Seq::empty()),
                ),
                _ => (self, Ok(Seq::empty())),
            },
            EventKind::ButtonRelease { detail } => (self.after_release(detail), Ok(Seq::empty())),
            EventKind::MotionNotify { root_x, root_y } => (
                self,
                Ok(motion_requests(self.interaction, root_x, root_y)),
            ),
            EventKind::EnterNotify { event } => (self.after_enter(event), Ok(Seq::empty())),
            EventKind::LeaveNotify => (self.after_leave(), Ok(Seq::empty())),
            EventKind::KeyPress { state, detail } => {
                let bind = KeyBind { mask: state, key: detail as u16 };
                self.key_outcome(
                    if bound.contains_key(bind) {
                        Some(bound[bind])
                    } else {
                        None
                    },
                    match reply {
                        Reply::Screen { geometry } => Some(geometry),
                        _ => None,
                    },
                )
            },
            EventKind::MapRequest { window } => match reply {
                Reply::NewWindow { geometry, frame } => if !frame_fits(geometry) {
                    (self, Err(WmError::FrameOutOfRange))
                } else {
                    match self.manage_result(window, frame) {
                        Ok(_) => (
                            self.after_manage(window, frame),
                            Ok(manage_requests(window, geometry, frame)),
                        ),
                        Err(error) => (self, Err(WmError::Registry(error))),
                    }
                },
                _ => (self, Ok(Seq::empty())),
            },
            EventKind::UnmapNotify { window } => (
                self.after_unmanage(window),
                Ok(self.unmanage_requests(window)),
            ),
            EventKind::Other => (self, Ok(Seq::empty())),
        }
    }

    /// What an event does: the filter sees it first, and only an event that
    /// passes is dispatched.
    pub open spec fn event_outcome(self, event: Event, reply: Reply, bound: Map<KeyBind, Command>) -> (
        WmView,
        Result<Seq<Request>, WmError>,
    ) {
        let filtered = self.after_filter(event.sequence);
        if passes(self.pending, event.sequence) {
            filtered.dispatch_outcome(event.kind, reply, bound)
        } else {
            (filtered, Ok(Seq::empty()))
        }
    }
}

/// Taking a window under management and releasing it at once leaves the
/// state as it was: both directions of the registry and both orders.
pub proof fn lemma_manage_unmanage(state: WmView, client: Window, frame: Window)
    requires
        state.wf(),
        state.manage_result(client, frame).is_ok(),
    ensures
        state.after_manage(client, frame).frames.contains_key(client),
        state.after_manage(client, frame).after_unmanage(client) == state,
{
    lemma_register_unregister(state.frames, state.clients, client, frame);
    lemma_push_without(state.floating, client);
    lemma_push_without(state.tiling, client);
}

/// Where the focused window can move towards the front of the tiling order,
/// it stands one place further to the front afterwards, the window that
/// stood there has taken its old place, and the focus is still on it.
pub proof fn lemma_stack_inc_tracks_focus(state: WmView)
    requires
        state.place_to_raise().is_some(),
    ensures
        ({
            let place = state.place_to_raise().unwrap();
            let after = state.after_stack_inc();
            &&& 0 < place < state.tiling.len()
            &&& state.focused == Some(state.tiling[place])
            &&& after.focused == state.focused
            &&& after.tiling[place - 1] == state.tiling[place]
            &&& after.tiling[place] == state.tiling[place - 1]
            &&& after.tiling == swapped(state.tiling, place, place - 1) + state.floating
            &&& after.floating == Seq::<Window>::empty()
        }),
{
    lemma_first_position_found(state.tiling, state.focused.unwrap());
}

/// Where the focused window can move towards the end of the tiling order,
/// it stands one place further to the end afterwards, the window that stood
/// there has taken its old place, and the focus is still on it.
pub proof fn lemma_stack_dec_tracks_focus(state: WmView)
    requires
        state.place_to_lower().is_some(),
    ensures
        ({
            let place = state.place_to_lower().unwrap();
            let after = state.after_stack_dec();
            &&& 0 <= place < state.tiling.len() - 1
            &&& state.focused == Some(state.tiling[place])
            &&& after.focused == state.focused
            &&& after.tiling[place + 1] == state.tiling[place]
            &&& after.tiling[place] == state.tiling[place + 1]
            &&& after.tiling == swapped(state.tiling, place, place + 1) + state.floating
            &&& after.floating == Seq::<Window>::empty()
        }),
{
    lemma_first_position_found(state.tiling, state.focused.unwrap());
}

/// A focused window that cannot move, because it stands at the end it was
/// asked to move to or because it is not in the tiling order, leaves the
/// state as it is and asks nothing of the display server.
pub proof fn lemma_stack_clamps(state: WmView, screen: Rectangle)
    ensures
        state.place_to_raise().is_none() ==> state.after_stack_inc() == state
            && state.command_requests(Command::StackInc, screen) == Seq::<Request>::empty(),
        state.place_to_lower().is_none() ==> state.after_stack_dec() == state
            && state.command_requests(Command::StackDec, screen) == Seq::<Request>::empty(),
{
}

/// Moving the focused window towards the front and then towards the end
/// gives the tiling order and the focus back: what remains of the two
/// commands is that the layout was applied. Where no window floats, the
/// state is as it was.
pub proof fn lemma_raise_then_lower(state: WmView)
    requires
        state.wf(),
        state.place_to_raise().is_some(),
    ensures
        state.after_stack_inc().after_stack_dec() == state.after_apply_layout(),
        state.floating.len() == 0 ==> state.after_stack_inc().after_stack_dec() == state,
{
    let window = state.focused.unwrap();
    let place = state.place_to_raise().unwrap();
    let raised = state.after_stack_inc();
    lemma_stack_inc_tracks_focus(state);
    lemma_first_position_found(state.tiling, window);
    assert forall|j: int| 0 <= j < place - 1 implies raised.tiling[j] != window by {
        assert(raised.tiling[j] == state.tiling[j]);
    }
    assert(is_first_position(raised.tiling, window, place - 1));
    lemma_first_position(raised.tiling, window, place - 1);
    assert(raised.place_to_lower() == Some(place - 1));
    assert(raised.after_stack_dec() =~= state.after_apply_layout());
    if state.floating.len() == 0 {
        assert(state.after_apply_layout() =~= state);
    }
}

/// Moving the focused window towards the end and then towards the front
/// gives the tiling order and the focus back: what remains of the two
/// commands is that the layout was applied. Where no window floats, the
/// state is as it was.
pub proof fn lemma_lower_then_raise(state: WmView)
    requires
        state.wf(),
        state.place_to_lower().is_some(),
    ensures
        state.after_stack_dec().after_stack_inc() == state.after_apply_layout(),
        state.floating.len() == 0 ==> state.after_stack_dec().after_stack_inc() == state,
{
    let window = state.focused.unwrap();
    let place = state.place_to_lower().unwrap();
    let lowered = state.after_stack_dec();
    lemma_stack_dec_tracks_focus(state);
    lemma_first_position_found(state.tiling, window);
    assert forall|j: int| 0 <= j < place + 1 implies lowered.tiling[j] != window by {
        if j < place {
            assert(lowered.tiling[j] == state.tiling[j]);
        } else {
            assert(lowered.tiling[j] == state.tiling[place + 1]);
        }
    }
    assert(is_first_position(lowered.tiling, window, place + 1));
    lemma_first_position(lowered.tiling, window, place + 1);
    assert(lowered.place_to_raise() == Some(place + 1));
    assert(lowered.after_stack_inc() =~= state.after_apply_layout());
    if state.floating.len() == 0 {
        assert(state.after_apply_layout() =~= state);
    }
}

/// Releasing a window that is not managed changes nothing and asks
/// nothing of the display server.
pub proof fn lemma_unmanage_unknown(state: WmView, client: Window)
    requires
        !state.frames.contains_key(client),
    ensures
        state.after_unmanage(client) == state,
        state.unmanage_requests(client) == Seq::<Request>::empty(),
{
}

/// A button press and the release that ends the drag ask nothing of the
/// display server, whatever the geometry of the frame, and leave the
/// controller idle when the button released is the one pressed.
pub proof fn lemma_press_release_asks_nothing(
    state: WmView,
    press: ButtonPress,
    geometry: Rectangle,
    bound: Map<KeyBind, Command>,
)
    requires
        state.interaction == InteractionState::Idle,
    ensures
        state.dispatch_outcome(
            EventKind::ButtonPress(press),
            Reply::Geometry { geometry },
            bound,
        ).1 == Ok::<Seq<Request>, WmError>(Seq::empty()),
        state.after_press(press, geometry).dispatch_outcome(
            EventKind::ButtonRelease { detail: press.detail },
            Reply::Nothing,
            bound,
        ).1 == Ok::<Seq<Request>, WmError>(Seq::empty()),
        state.after_press(press, geometry).after_release(press.detail).interaction
            == InteractionState::Idle,
{
}

} // verus!
