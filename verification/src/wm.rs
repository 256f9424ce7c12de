//! The window manager: it owns the registry, the two orders, the filter,
//! the drag controller and the focus, and turns each event into the next
//! state and the requests to send.

use vstd::prelude::*;
use crate::bar::{bar_strip, bar_text, BarPaint, MAX_TEXT_LENGTH, TEXT_BASELINE_INSET};
use crate::config::{
    Window, MOD_MASK, TEXT_COLOR, TOP_BAR_COLOR, TOP_BAR_HEIGHT, TOP_BAR_TEXT_OFFSET,
};
use crate::focus::FocusTracker;
use crate::geometry::Rectangle;
use crate::interaction::{
    mode_for_press, DragContext, DragMode, DragUpdate, InteractionController, InteractionState,
};
use crate::keybind::{Command, KeyBind, KeyHandler};
use crate::layout::{
    can_lay_out, fibonacci_arrangement, fits_layout, FibonacciLayout, WindowLayout,
};
use crate::model::{
    arrangement_requests, configure_requests, frame_fits, layout_requests, manage_requests,
    motion_requests, placement_requests, WmError, WmView,
};
use crate::order::{find_window, lemma_pushed, WindowOrdering};
use crate::protocol::{
    changes_from_request, ButtonGrab, ButtonPress, ChildWindow, ConfigureRequest, Event,
    EventKind, KeyGrab, Probe, Reply, Request, WindowChanges, ANY_BUTTON, GRAB_EVENT_MASK,
    MAP_STATE_UNMAPPED,
};
use crate::registry::{RegistryError, WindowRegistry};
use crate::sequence::{lemma_drop_older_keeps_match, passes, SequenceFilter};

verus! {

/// Whether a window found when the manager starts is to be managed: it is
/// mapped and did not ask to be left alone.
pub open spec fn wants_management(child: ChildWindow) -> bool {
    child.map_state != MAP_STATE_UNMAPPED && !child.override_redirect
}

/// The grab that reports the key `bind` on `window`. A key code has eight
/// bits: only the low byte of the bound key travels.
pub open spec fn key_grab(window: Window, bind: KeyBind) -> KeyGrab {
    KeyGrab { window, modifiers: bind.mask, key: (bind.key % 0x100) as u8 }
}

/// The grabs that report the keys `keys` on `window`, in their order.
pub open spec fn key_grabs(window: Window, keys: Seq<KeyBind>) -> Seq<KeyGrab> {
    keys.map_values(|bind: KeyBind| key_grab(window, bind))
}

/// Whether `keys` lists each key that `bound` binds exactly once.
pub open spec fn lists_bound_keys(keys: Seq<KeyBind>, bound: Map<KeyBind, Command>) -> bool {
    &&& keys.no_duplicates()
    &&& forall|bind: KeyBind| keys.contains(bind) <==> bound.contains_key(bind)
}

/// The window manager.
pub struct WM {
    root: Window,
    interaction: InteractionController,
    focus: FocusTracker,
    sequence_ignore: SequenceFilter,
    registry: WindowRegistry,
    order: WindowOrdering,
}

impl View for WM {
    type V = WmView;

    closed spec fn view(&self) -> WmView {
        WmView {
            root: self.root,
            interaction: self.interaction@,
            focused: self.focus@,
            pending: self.sequence_ignore@,
            frames: self.registry.frames(),
            clients: self.registry.clients(),
            tiling: self.order.tiling(),
            floating: self.order.floating(),
        }
    }
}

impl WM {
    /// The invariant of the window manager: that of its state, over a
    /// finite registry.
    pub open spec fn wf(&self) -> bool {
        &&& self@.wf()
        &&& self@.frames.dom().finite()
        &&& self@.clients.dom().finite()
    }

    /// A window manager for the screen with the root window `root`, with no
    /// window managed yet.
    pub fn create_wm(root: Window) -> (wm: WM)
        ensures
            wm.wf(),
            wm@ == (WmView {
                root,
                interaction: InteractionState::Idle,
                focused: None,
                pending: Seq::empty(),
                frames: Map::empty(),
                clients: Map::empty(),
                tiling: Seq::empty(),
                floating: Seq::empty(),
            }),
    {
        WM {
            root,
            interaction: InteractionController::new(),
            focus: FocusTracker::new(),
            sequence_ignore: SequenceFilter::new(),
            registry: WindowRegistry::new(),
            order: WindowOrdering::new(),
        }
    }

    /// The root window.
    pub fn root(&self) -> (root: Window)
        ensures
            root == self@.root,
    {
        self.root
    }

    /// The window that the pointer is in, if any.
    pub fn focused(&self) -> (window: Option<Window>)
        ensures
            window == self@.focused,
    {
        self.focus.focused()
    }

    /// The frame of `client`, if it is managed.
    pub fn frame_of(&self, client: Window) -> (frame: Option<Window>)
        ensures
            frame == (if self@.frames.contains_key(client) {
                Some(self@.frames[client])
            } else {
                None
            }),
    {
        self.registry.frame_of(client)
    }

    /// The client that `frame` holds, if it is a frame.
    pub fn client_of(&self, frame: Window) -> (client: Option<Window>)
        ensures
            client == (if self@.clients.contains_key(frame) {
                Some(self@.clients[frame])
            } else {
                None
            }),
    {
        self.registry.client_of(frame)
    }

    /// The number of managed windows.
    pub fn managed_count(&self) -> (count: usize)
        ensures
            count == self@.frames.len(),
    {
        self.registry.len()
    }

    /// The tiling order.
    pub fn tiling_order(&self) -> (windows: &Vec<Window>)
        ensures
            windows@ == self@.tiling,
    {
        self.order.tiling_windows()
    }

    /// The floating windows.
    pub fn floating_order(&self) -> (windows: &Vec<Window>)
        ensures
            windows@ == self@.floating,
    {
        self.order.floating_windows()
    }

    /// The state of the drag controller.
    pub fn interaction(&self) -> (state: InteractionState)
        ensures
            state == self@.interaction,
    {
        self.interaction.state()
    }

    /// The number of sequence numbers whose notifications are still to be
    /// skipped.
    pub fn pending_count(&self) -> (count: usize)
        ensures
            count == self@.pending.len(),
    {
        self.sequence_ignore.len()
    }

    /// Remembers the request with the given sequence number: the
    /// notifications that it provokes will be skipped. Only the low 16 bits
    /// of the number travel with a notification.
    pub fn remember_request(&mut self, sequence_number: u64)
        requires
            old(self).wf(),
        ensures
            final(self).wf(),
            final(self)@ == old(self)@.after_remember((sequence_number % 0x1_0000) as u16),
    {
        let low: u16 = (sequence_number % 0x1_0000) as u16;
        self.sequence_ignore.remember(low);
    }

    /// Decides whether `event` is to be processed or is the echo of one of
    /// the manager's own requests.
    pub fn should_execute(&mut self, event: &Event) -> (process: bool)
        requires
            old(self).wf(),
        ensures
            final(self).wf(),
            final(self)@ == old(self)@.after_filter(event.sequence),
            process == passes(old(self)@.pending, event.sequence),
    {
        self.sequence_ignore.should_process(event.sequence)
    }

    /// Picks, among the children of the root window found when the manager
    /// starts, those to take under management: the mapped ones that did not
    /// ask to be left alone, in the order in which they are listed.
    pub fn scan(children: &Vec<ChildWindow>) -> (windows: Vec<Window>)
        ensures
            windows@ == children@.filter(|child: ChildWindow| wants_management(child)).map_values(
                |child: ChildWindow| child.window,
            ),
    {
        let ghost wanted = |child: ChildWindow| wants_management(child);
        let ghost window_of = |child: ChildWindow| child.window;
        let mut windows: Vec<Window> = Vec::new();
        let mut i: usize = 0;
        assert(children@.take(0).filter(wanted) =~= Seq::<ChildWindow>::empty()) by {
            reveal(Seq::filter);
        }
        while i < children.len()
            invariant
                i <= children.len(),
                wanted == (|child: ChildWindow| wants_management(child)),
                window_of == (|child: ChildWindow| child.window),
                windows@ == children@.take(i as int).filter(wanted).map_values(window_of),
            decreases children.len() - i,
        {
            let child = children[i];
            proof {
                assert(children@.take(i + 1).drop_last() =~= children@.take(i as int));
                reveal_with_fuel(Seq::filter, 2);
            }
            if child.map_state != MAP_STATE_UNMAPPED && !child.override_redirect {
                windows.push(child.window);
            }
            i += 1;
        }
        assert(children@.take(children.len() as int) =~= children@);
        windows
    }

    /// Takes the window `win` under management: `geometry` is its current
    /// geometry and `frame` a fresh identifier for its frame. Fails, and
    /// changes nothing, where the window is managed already or the frame is
    /// in use.
    pub fn manage(&mut self, win: Window, geometry: Rectangle, frame: Window) -> (result: Result<
        Vec<Request>,
        RegistryError,
    >)
        requires
            old(self).wf(),
            frame_fits(geometry),
        ensures
            final(self).wf(),
            final(self)@ == old(self)@.after_manage(win, frame),
            match result {
                Ok(requests) => old(self)@.manage_result(win, frame).is_ok() && requests@
                    == manage_requests(win, geometry, frame),
                Err(error) => old(self)@.manage_result(win, frame) == Err::<(), RegistryError>(
                    error,
                ),
            },
    {
        match self.registry.register(win, frame) {
            Err(error) => {
                return Err(error);
            },
            Ok(_) => {},
        }
        self.order.push_floating(win);
        let bar: i16 = TOP_BAR_HEIGHT as i16;
        let frame_geometry = Rectangle {
            x: geometry.x,
            y: geometry.y + bar,
            width: geometry.width,
            height: geometry.height,
        };
        let mut requests: Vec<Request> = Vec::new();
        requests.push(Request::CreateFrame { frame, geometry: frame_geometry });
        requests.push(Request::GrabServer);
        requests.push(Request::Reparent { window: win, parent: frame, x: 0, y: 0, remember: true });
        requests.push(Request::MapWindow { window: win });
        requests.push(Request::MapWindow { window: frame });
        requests.push(Request::GrabButtons { window: win });
        requests.push(Request::GrabKeys { window: win });
        requests.push(Request::UngrabServer);
        requests.push(Request::Flush);
        proof {
            lemma_pushed(old(self)@.floating, win);
        }
        Ok(requests)
    }

    /// Releases the window `win`: it is forgotten with its frame, leaves
    /// the order that held it, goes back to the root window, and its frame
    /// is destroyed. A window that is not managed is left alone.
    pub fn unmanage(&mut self, win: Window) -> (requests: Vec<Request>)
        requires
            old(self).wf(),
        ensures
            final(self).wf(),
            final(self)@ == old(self)@.after_unmanage(win),
            requests@ == old(self)@.unmanage_requests(win),
            !old(self)@.frames.contains_key(win) ==> final(self)@ == old(self)@ && requests@
                == Seq::<Request>::empty(),
    {
        let mut requests: Vec<Request> = Vec::new();
        match self.registry.unregister(win) {
            Some(frame) => {
                self.order.remove(win);
                requests.push(
                    Request::Reparent { window: win, parent: self.root, x: 0, y: 0, remember: false },
                );
                requests.push(Request::UnmapWindow { window: frame });
                requests.push(Request::DestroyWindow { window: frame });
                requests.push(Request::Flush);
                proof {
                    assert forall|window: Window|
                        (self@.floating.contains(window) || self@.tiling.contains(window))
                            <==> #[trigger] self@.frames.contains_key(window) by {
                        if window != win {
                            assert(self.order.contains(window) == old(self).order.contains(
                                window,
                            ));
                        }
                    }
                }
            },
            None => {},
        }
        requests
    }

    /// Grants a client's configure request as it stands.
    pub fn handle_configure_request(&self, request: &ConfigureRequest) -> (requests: Vec<Request>)
        ensures
            requests@ == configure_requests(*request),
    {
        let mut requests: Vec<Request> = Vec::new();
        requests.push(
            Request::ConfigureWindow {
                window: request.window,
                changes: changes_from_request(request),
            },
        );
        requests.push(Request::Flush);
        requests
    }

    /// Computes the requests that lay the tiling order out on `screen`.
    pub fn create_new_layout<L: WindowLayout>(&self, layout: L, screen: Rectangle) -> (requests:
        Vec<Request>)
        requires
            can_lay_out(screen),
        ensures
            requests@ == layout_requests(
                layout.arrangement(screen, self@.tiling),
                self@.frames,
            ),
    {
        let ghost arrangement = layout.arrangement(screen, self@.tiling);
        let placed = layout.layout(screen, self.order.tiling_windows());
        let mut requests: Vec<Request> = Vec::new();
        let mut i: usize = 0;
        while i < placed.len()
            invariant
                i <= placed.len(),
                placed@ == arrangement,
                requests@ == arrangement_requests(placed@.take(i as int), self@.frames),
            decreases placed.len() - i,
        {
            let (window, rectangle) = placed[i];
            proof {
                assert(placed@.take(i + 1).drop_last() =~= placed@.take(i as int));
            }
            match self.registry.frame_of(window) {
                Some(frame) => {
                    requests.push(
                        Request::ConfigureWindow {
                            window: frame,
                            changes: WindowChanges::to_geometry(
                                rectangle.x as i32,
                                rectangle.y as i32,
                                rectangle.width as u32,
                                rectangle.height as u32,
                            ),
                        },
                    );
                    requests.push(
                        Request::ConfigureWindow {
                            window,
                            changes: WindowChanges::to_geometry(
                                0,
                                0,
                                rectangle.width as u32,
                                rectangle.height as u32,
                            ),
                        },
                    );
                },
                None => {
                    requests.push(
                        Request::ConfigureWindow {
                            window,
                            changes: WindowChanges::to_geometry(
                                rectangle.x as i32,
                                rectangle.y as i32,
                                rectangle.width as u32,
                                rectangle.height as u32,
                            ),
                        },
                    );
                },
            }
            i += 1;
        }
        assert(placed@.take(placed.len() as int) =~= placed@);
        requests.push(Request::RefreshTopBar);
        requests.push(Request::Flush);
        requests
    }

    /// Hands the floating windows to the tiling order and lays all windows
    /// out on `screen`.
    pub fn apply_layout<L: WindowLayout>(&mut self, layout: L, screen: Rectangle) -> (requests:
        Vec<Request>)
        requires
            old(self).wf(),
            can_lay_out(screen),
        ensures
            final(self).wf(),
            final(self)@ == old(self)@.after_apply_layout(),
            requests@ == layout_requests(
                layout.arrangement(screen, old(self)@.after_apply_layout().tiling),
                old(self)@.frames,
            ),
    {
        self.order.tile_all();
        proof {
            assert forall|window: Window|
                (self@.floating.contains(window) || self@.tiling.contains(window))
                    <==> #[trigger] self@.frames.contains_key(window) by {
                assert(self.order.contains(window) == old(self).order.contains(window));
            }
        }
        self.create_new_layout(layout, screen)
    }

    /// Moves the focused window one place towards the front of the tiling
    /// order, unless it stands first, and applies the layout again. The
    /// focus stays on the window that moved.
    pub fn stack_inc(&mut self, screen: Rectangle) -> (requests: Vec<Request>)
        requires
            old(self).wf(),
            can_lay_out(screen),
        ensures
            final(self).wf(),
            final(self)@ == old(self)@.after_stack_inc(),
            final(self)@.focused == old(self)@.focused,
            requests@ == old(self)@.command_requests(Command::StackInc, screen),
    {
        match self.focus.focused() {
            Some(window) => match find_window(self.order.tiling_windows(), window) {
                Some(place) => {
                    if place > 0 {
                        return self.exchange(place, place - 1, screen);
                    }
                },
                None => {},
            },
            None => {},
        }
        Vec::new()
    }

    /// Moves the focused window one place towards the end of the tiling
    /// order, unless it stands last, and applies the layout again. The
    /// focus stays on the window that moved.
    pub fn stack_dec(&mut self, screen: Rectangle) -> (requests: Vec<Request>)
        requires
            old(self).wf(),
            can_lay_out(screen),
        ensures
            final(self).wf(),
            final(self)@ == old(self)@.after_stack_dec(),
            final(self)@.focused == old(self)@.focused,
            requests@ == old(self)@.command_requests(Command::StackDec, screen),
    {
        match self.focus.focused() {
            Some(window) => match find_window(self.order.tiling_windows(), window) {
                Some(place) => {
                    if place < self.order.tiling_windows().len() - 1 {
                        return self.exchange(place, place + 1, screen);
                    }
                },
                None => {},
            },
            None => {},
        }
        Vec::new()
    }

    /// Moves the focused window from `place` of the tiling order to
    /// `neighbour`, in exchange for the window there, keeps the focus on it,
    /// and applies the layout.
    fn exchange(&mut self, place: usize, neighbour: usize, screen: Rectangle) -> (requests: Vec<
        Request,
    >)
        requires
            old(self).wf(),
            can_lay_out(screen),
            place < old(self)@.tiling.len(),
            neighbour < old(self)@.tiling.len(),
            old(self)@.focused == Some(old(self)@.tiling[place as int]),
        ensures
            final(self).wf(),
            final(self)@ == old(self)@.after_exchange(
                place as int,
                neighbour as int,
            ).after_apply_layout(),
            final(self)@.focused == Some(final(self)@.tiling[neighbour as int]),
            requests@ == layout_requests(
                fibonacci_arrangement(
                    screen,
                    old(self)@.after_exchange(
                        place as int,
                        neighbour as int,
                    ).after_apply_layout().tiling,
                ),
                old(self)@.frames,
            ),
    {
        let moved = self.order.tiling_windows()[place];
        self.order.swap_tiling(place, neighbour);
        self.focus.enter(moved);
        proof {
            assert forall|window: Window|
                (self@.floating.contains(window) || self@.tiling.contains(window))
                    <==> #[trigger] self@.frames.contains_key(window) by {
                assert(self.order.contains(window) == old(self).order.contains(window));
            }
        }
        self.apply_layout(FibonacciLayout, screen)
    }

    /// Finds the managed client and the frame that a pointer event reported
    /// for `window` is about.
    pub fn framed_pair(&self, window: Window) -> (pair: Option<(Window, Window)>)
        ensures
            pair == self@.framed_pair(window),
    {
        match self.registry.frame_of(window) {
            Some(frame) => Some((window, frame)),
            None => match self.registry.client_of(window) {
                Some(client) => Some((client, window)),
                None => None,
            },
        }
    }

    /// Finds the drag that a button press asks for, the client to drag and
    /// the frame whose geometry is needed before the drag can begin. Nothing
    /// is returned where the press begins no drag.
    pub fn press_target(&self, press: &ButtonPress) -> (target: Option<
        (DragMode, Window, Window),
    >)
        ensures
            target == self@.press_target(*press),
    {
        if !self.interaction.is_idle() {
            return None;
        }
        match mode_for_press(press.state, press.detail) {
            Some(mode) => match self.framed_pair(press.event) {
                Some((client, frame)) => Some((mode, client, frame)),
                None => None,
            },
            None => None,
        }
    }

    /// Handles a button press: where it asks for a drag of a managed
    /// window, the drag begins from the geometry `geometry` of the frame.
    pub fn handle_button_press(&mut self, press: &ButtonPress, geometry: Rectangle)
        requires
            old(self).wf(),
        ensures
            final(self).wf(),
            final(self)@ == old(self)@.after_press(*press, geometry),
    {
        match self.press_target(press) {
            Some((mode, client, frame)) => {
                self.interaction.press(
                    mode,
                    DragContext {
                        window: client,
                        frame,
                        pointer_x: press.root_x,
                        pointer_y: press.root_y,
                        origin: geometry,
                    },
                );
            },
            None => {},
        }
    }

    /// Handles a button release: it ends the drag that the button began.
    pub fn handle_button_release(&mut self, button: u8)
        requires
            old(self).wf(),
        ensures
            final(self).wf(),
            final(self)@ == old(self)@.after_release(button),
    {
        self.interaction.release(button);
    }

    /// Handles a pointer motion to `(x, y)`: during a drag it moves the
    /// frame or resizes frame and client.
    pub fn handle_motion_notify(&self, x: i16, y: i16) -> (requests: Vec<Request>)
        ensures
            requests@ == motion_requests(self@.interaction, x, y),
    {
        let mut requests: Vec<Request> = Vec::new();
        match self.interaction.motion(x, y) {
            None => {},
            Some(DragUpdate::MoveTo { frame, x, y }) => {
                requests.push(
                    Request::ConfigureWindow {
                        window: frame,
                        changes: WindowChanges::to_position(x, y),
                    },
                );
                requests.push(Request::Flush);
            },
            Some(DragUpdate::ResizeTo { frame, window, width, height }) => {
                requests.push(
                    Request::ConfigureWindow {
                        window: frame,
                        changes: WindowChanges::to_size(width, height),
                    },
                );
                requests.push(
                    Request::ConfigureWindow { window, changes: WindowChanges::to_size(width, height) },
                );
                requests.push(Request::Flush);
            },
        }
        requests
    }

    /// The pointer entered `window`: where it is the frame of a managed
    /// client, or the client itself, the client is focused.
    pub fn handle_enter_notify(&mut self, window: Window)
        requires
            old(self).wf(),
        ensures
            final(self).wf(),
            final(self)@ == old(self)@.after_enter(window),
    {
        match self.framed_pair(window) {
            Some((client, _)) => {
                self.focus.enter(client);
            },
            None => {},
        }
    }

    /// The pointer left a frame.
    pub fn handle_leave_notify(&mut self)
        requires
            old(self).wf(),
        ensures
            final(self).wf(),
            final(self)@ == old(self)@.after_leave(),
    {
        self.focus.leave();
    }

    /// Handles a key press: carries out the command that `key_handler`
    /// binds to the key. `screen` is the geometry of the root window, where
    /// it was asked for.
    pub fn handle_key_press<H: KeyHandler>(
        &mut self,
        state: u16,
        detail: u8,
        key_handler: &H,
        screen: Option<Rectangle>,
    ) -> (result: Result<Vec<Request>, WmError>)
        requires
            old(self).wf(),
        ensures
            final(self).wf(),
            ({
                let bind = KeyBind { mask: state, key: detail as u16 };
                let command = if key_handler.bound().contains_key(bind) {
                    Some(key_handler.bound()[bind])
                } else {
                    None
                };
                let outcome = old(self)@.key_outcome(command, screen);
                &&& final(self)@ == outcome.0
                &&& match result {
                    Ok(requests) => outcome.1 == Ok::<Seq<Request>, WmError>(requests@),
                    Err(error) => outcome.1 == Err::<Seq<Request>, WmError>(error),
                }
            }),
    {
        let command = match key_handler.handle_key_bind(state, detail) {
            Some(command) => command,
            None => {
                return Ok(Vec::new());
            },
        };
        match command {
            Command::Spawn(program) => {
                let mut requests: Vec<Request> = Vec::new();
                requests.push(Request::Spawn { program: program.clone() });
                return Ok(requests);
            },
            _ => {},
        }
        let screen = match screen {
            Some(screen) => screen,
            None => {
                return Ok(Vec::new());
            },
        };
        if !fits_layout(screen) {
            return Err(WmError::UnusableScreen);
        }
        match command {
            Command::ApplyLayout(kind) => Ok(self.apply_layout(*kind, screen)),
            Command::StackInc => Ok(self.stack_inc(screen)),
            Command::StackDec => Ok(self.stack_dec(screen)),
            Command::Spawn(_) => Ok(Vec::new()),
        }
    }

    /// Describes the grab that lets the manager see the pointer buttons
    /// pressed on `win` under its modifier.
    pub fn grab_buttons(&self, win: Window) -> (grab: ButtonGrab)
        ensures
            grab == (ButtonGrab {
                window: win,
                event_mask: GRAB_EVENT_MASK,
                button: ANY_BUTTON,
                modifiers: MOD_MASK,
            }),
    {
        ButtonGrab {
            window: win,
            event_mask: GRAB_EVENT_MASK,
            button: ANY_BUTTON,
            modifiers: MOD_MASK,
        }
    }

    /// Describes the grabs that let the manager see the bound keys pressed
    /// on `win`: one for each key that `key_handler` binds.
    pub fn grab_keys<H: KeyHandler>(&self, key_handler: &H, win: Window) -> (grabs: Vec<KeyGrab>)
        ensures
            exists|keys: Seq<KeyBind>|
                lists_bound_keys(keys, key_handler.bound()) && grabs@ == #[trigger] key_grabs(
                    win,
                    keys,
                ),
    {
        let keys = key_handler.grab_keys();
        let mut grabs: Vec<KeyGrab> = Vec::new();
        let mut i: usize = 0;
        while i < keys.len()
            invariant
                i <= keys.len(),
                grabs.len() == i,
                forall|j: int| 0 <= j < i ==> grabs@[j] == key_grab(win, #[trigger] keys@[j]),
            decreases keys.len() - i,
        {
            let bind = keys[i];
            grabs.push(KeyGrab { window: win, modifiers: bind.mask, key: (bind.key % 0x100) as u8 });
            i += 1;
        }
        assert(grabs@ =~= key_grabs(win, keys@));
        grabs
    }

    /// Plans the repaint of the status bar of a screen `screen_width` pixels
    /// wide: it shows the title of the focused window, where `title` gives
    /// it, and the default label otherwise.
    pub fn draw_top_bar(&self, screen_width: u16, title: Option<Vec<u8>>) -> (paint: BarPaint)
        ensures
            paint.fill == bar_strip(screen_width),
            paint.fill_color == TOP_BAR_COLOR,
            paint.text_color == TEXT_COLOR,
            paint.text_background == TOP_BAR_COLOR,
            paint.text_x == TOP_BAR_TEXT_OFFSET,
            paint.text_y == TOP_BAR_HEIGHT - TEXT_BASELINE_INSET,
            paint.text@ == bar_text(
                self@.focused,
                match title {
                    Some(title) => Some(title@),
                    None => None,
                },
            ),
            paint.text@.len() <= MAX_TEXT_LENGTH,
    {
        crate::bar::draw_top_bar(screen_width, self.focus.focused(), title)
    }

    /// Says what must be asked of the display server before `event` can be
    /// handled.
    pub fn probe<H: KeyHandler>(&self, event: &Event, key_handler: &H) -> (probe: Probe)
        ensures
            probe == self@.probe_for(*event, key_handler.bound()),
    {
        match event.sequence {
            Some(number) => {
                proof {
                    lemma_drop_older_keeps_match(self@.pending, number);
                }
                if self.sequence_ignore.is_remembered(number) {
                    return Probe::Nothing;
                }
            },
            None => {},
        }
        match event.kind {
            EventKind::ButtonPress(press) => match self.press_target(&press) {
                Some((_, _, frame)) => Probe::Geometry { window: frame },
                None => Probe::Nothing,
            },
            EventKind::MapRequest { window } => Probe::NewWindow { window },
            EventKind::KeyPress { state, detail } => match key_handler.handle_key_bind(
                state,
                detail,
            ) {
                Some(Command::Spawn(_)) => Probe::Nothing,
                Some(_) => Probe::Screen,
                None => Probe::Nothing,
            },
            _ => Probe::Nothing,
        }
    }

    /// Handles one event: the filter sees it first, and an event that
    /// passes is dispatched by its kind. `reply` is the display server's
    /// answer to the probe for this event.
    pub fn handle_event<H: KeyHandler>(
        &mut self,
        event: &Event,
        reply: Reply,
        key_handler: &H,
    ) -> (result: Result<Vec<Request>, WmError>)
        requires
            old(self).wf(),
        ensures
            final(self).wf(),
            ({
                let outcome = old(self)@.event_outcome(*event, reply, key_handler.bound());
                &&& final(self)@ == outcome.0
                &&& match result {
                    Ok(requests) => outcome.1 == Ok::<Seq<Request>, WmError>(requests@),
                    Err(error) => outcome.1 == Err::<Seq<Request>, WmError>(error),
                }
            }),
    {
        if !self.should_execute(event) {
            return Ok(Vec::new());
        }
        match event.kind {
            EventKind::ConfigureRequest(request) => Ok(self.handle_configure_request(&request)),
            EventKind::ButtonPress(press) => {
                match reply {
                    Reply::Geometry { geometry } => {
                        self.handle_button_press(&press, geometry);
                    },
                    _ => {},
                }
                Ok(Vec::new())
            },
            EventKind::ButtonRelease { detail } => {
                self.handle_button_release(detail);
                Ok(Vec::new())
            },
            EventKind::MotionNotify { root_x, root_y } => Ok(
                self.handle_motion_notify(root_x, root_y),
            ),
            EventKind::EnterNotify { event } => {
                self.handle_enter_notify(event);
                Ok(Vec::new())
            },
            EventKind::LeaveNotify => {
                self.handle_leave_notify();
                Ok(Vec::new())
            },
            EventKind::KeyPress { state, detail } => {
                let screen = match reply {
                    Reply::Screen { geometry } => Some(geometry),
                    _ => None,
                };
                self.handle_key_press(state, detail, key_handler, screen)
            },
            EventKind::MapRequest { window } => match reply {
                Reply::NewWindow { geometry, frame } => {
                    if geometry.y as i32 + TOP_BAR_HEIGHT as i32 > i16::MAX as i32 {
                        return Err(WmError::FrameOutOfRange);
                    }
                    match self.manage(window, geometry, frame) {
                        Ok(requests) => Ok(requests),
                        Err(error) => Err(WmError::Registry(error)),
                    }
                },
                _ => Ok(Vec::new()),
            },
            EventKind::UnmapNotify { window } => Ok(self.unmanage(window)),
            EventKind::Other => Ok(Vec::new()),
        }
    }
}

} // verus!
