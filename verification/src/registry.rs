//! The registry of managed windows: which frame holds which client.

use std::collections::HashMap;
use vstd::prelude::*;
use vstd::std_specs::hash::group_hash_axioms;
use crate::config::Window;

verus! {

/// Why a pair of windows could not be registered.
#[derive(Clone, Copy, Debug, PartialEq, Eq, Structural)]
pub enum RegistryError {
    /// The client already has a frame.
    ClientRegistered,
    /// The frame already holds a client.
    FrameRegistered,
}

/// The two-way mapping between client windows and their frames.
pub struct WindowRegistry {
    window_map: HashMap<Window, Window>,
    window_map_reverse: HashMap<Window, Window>,
}

/// Whether `frames`, from client to frame, and `clients`, from frame to
/// client, are each other's inverse.
pub open spec fn mutually_inverse(
    frames: Map<Window, Window>,
    clients: Map<Window, Window>,
) -> bool {
    &&& forall|client: Window| #[trigger]
        frames.contains_key(client) ==> clients.contains_key(frames[client])
            && clients[frames[client]] == client
    &&& forall|frame: Window| #[trigger]
        clients.contains_key(frame) ==> frames.contains_key(clients[frame])
            && frames[clients[frame]] == frame
}

impl WindowRegistry {
    /// The frame of each managed client.
    pub closed spec fn frames(&self) -> Map<Window, Window> {
        self.window_map@
    }

    /// The client of each frame.
    pub closed spec fn clients(&self) -> Map<Window, Window> {
        self.window_map_reverse@
    }

    /// The registry's invariant: the two directions agree, so that frames
    /// and clients correspond one to one.
    pub open spec fn wf(&self) -> bool {
        &&& mutually_inverse(self.frames(), self.clients())
        &&& self.frames().dom().finite()
        &&& self.clients().dom().finite()
    }

    /// Whether `client` is managed.
    pub open spec fn manages(&self, client: Window) -> bool {
        self.frames().contains_key(client)
    }

    /// An empty registry.
    pub fn new() -> (registry: WindowRegistry)
        ensures
            registry.wf(),
            registry.frames() == Map::<Window, Window>::empty(),
            registry.clients() == Map::<Window, Window>::empty(),
    {
        broadcast use group_hash_axioms;

        WindowRegistry { window_map: HashMap::new(), window_map_reverse: HashMap::new() }
    }

    /// Records that `frame` holds `client`. Fails, and changes nothing, where
    /// the client already has a frame or the frame already holds a client.
    pub fn register(&mut self, client: Window, frame: Window) -> (result: Result<(), RegistryError>)
        requires
            old(self).wf(),
        ensures
            final(self).wf(),
            old(self).frames().contains_key(client) ==> result == Err::<(), RegistryError>(
                RegistryError::ClientRegistered,
            ),
            !old(self).frames().contains_key(client) && old(self).clients().contains_key(frame)
                ==> result == Err::<(), RegistryError>(RegistryError::FrameRegistered),
            !old(self).frames().contains_key(client) && !old(self).clients().contains_key(frame)
                ==> result.is_ok(),
            result.is_ok() ==> final(self).frames() == old(self).frames().insert(client, frame)
                && final(self).clients() == old(self).clients().insert(frame, client),
            result.is_err() ==> final(self).frames() == old(self).frames() && final(self).clients() == old(self).clients(),
    {
        broadcast use group_hash_axioms;

        if self.window_map.contains_key(&client) {
            return Err(RegistryError::ClientRegistered);
        }
        if self.window_map_reverse.contains_key(&frame) {
            return Err(RegistryError::FrameRegistered);
        }
        self.window_map.insert(client, frame);
        self.window_map_reverse.insert(frame, client);
        Ok(())
    }

    /// Forgets `client` and its frame, and returns the frame so that the
    /// caller can destroy it. Where the client is not managed nothing
    /// changes and nothing is returned.
    pub fn unregister(&mut self, client: Window) -> (frame: Option<Window>)
        requires
            old(self).wf(),
        ensures
            final(self).wf(),
            frame == old(self).frame_of_spec(client),
            !old(self).manages(client) ==> final(self).frames() == old(self).frames() && final(self).clients() == old(self).clients(),
            old(self).manages(client) ==> final(self).frames() == old(self).frames().remove(client)
                && final(self).clients() == old(self).clients().remove(
                old(self).frames()[client],
            ),
    {
        broadcast use group_hash_axioms;

        match self.window_map.remove(&client) {
            Some(frame) => {
                self.window_map_reverse.remove(&frame);
                Some(frame)
            },
            None => None,
        }
    }

    /// The frame of `client`, if it is managed.
    pub open spec fn frame_of_spec(&self, client: Window) -> Option<Window> {
        if self.frames().contains_key(client) {
            Some(self.frames()[client])
        } else {
            None
        }
    }

    /// The client that `frame` holds, if it is a frame.
    pub open spec fn client_of_spec(&self, frame: Window) -> Option<Window> {
        if self.clients().contains_key(frame) {
            Some(self.clients()[frame])
        } else {
            None
        }
    }

    /// Looks up the frame of `client`.
    pub fn frame_of(&self, client: Window) -> (frame: Option<Window>)
        ensures
            frame == self.frame_of_spec(client),
    {
        broadcast use group_hash_axioms;

        match self.window_map.get(&client) {
            Some(frame) => Some(*frame),
            None => None,
        }
    }

    /// Looks up the client that `frame` holds.
    pub fn client_of(&self, frame: Window) -> (client: Option<Window>)
        ensures
            client == self.client_of_spec(frame),
    {
        broadcast use group_hash_axioms;

        match self.window_map_reverse.get(&frame) {
            Some(client) => Some(*client),
            None => None,
        }
    }

    /// The number of managed clients.
    pub fn len(&self) -> (count: usize)
        ensures
            count == self.frames().len(),
    {
        broadcast use group_hash_axioms;

        self.window_map.len()
    }
}

/// Registering a fresh pair and unregistering the client again leaves both
/// directions of the registry as they were.
pub proof fn lemma_register_unregister(
    frames: Map<Window, Window>,
    clients: Map<Window, Window>,
    client: Window,
    frame: Window,
)
    requires
        mutually_inverse(frames, clients),
        !frames.contains_key(client),
        !clients.contains_key(frame),
    ensures
        frames.insert(client, frame).remove(client) == frames,
        clients.insert(frame, client).remove(frames.insert(client, frame)[client]) == clients,
        mutually_inverse(frames.insert(client, frame), clients.insert(frame, client)),
{
}

} // verus!
