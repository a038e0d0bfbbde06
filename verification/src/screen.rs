//! What a content source has to offer to be scheduled, and the plain
//! screen that the concrete sources are built around.

use vstd::prelude::*;
use vstd::slice::slice_to_vec;

verus! {

/// A content source: it renders a frame on demand and can be told to
/// start and to stop its background work.
///
/// The scheduler takes what these methods return as it comes and promises
/// nothing about it.
pub trait BasicScreen {
    /// Takes in what the background work has produced since the last call.
    fn update(&mut self);

    /// The text that presents this screen to the user.
    fn description(&self) -> String;

    /// The stable name under which this screen is found and persisted.
    fn key(&self) -> String;

    /// The frame as it stands.
    fn current_image(&self) -> Vec<u8>;

    /// Whether `update` has run at least once.
    fn initial_update_called(&mut self) -> bool;

    /// Resumes the background work.
    fn start(&mut self);

    /// Pauses the background work.
    fn stop(&mut self);

    /// Switches to a sub-mode for as long as a short activation lasts.
    /// A screen without sub-modes has nothing to do here.
    fn set_mode_for_short(&mut self, _mode: u32) {
    }

    /// Whether the screen takes part in the rotation.
    fn enabled(&self) -> bool;

    /// Records whether the screen takes part in the rotation.
    fn set_status(&mut self, status: bool);
}

/// What the scheduler tells a screen.
#[derive(Clone, Copy, Debug, PartialEq, Eq, Structural)]
pub enum Command {
    /// Take in what the background work has produced.
    Update,
    /// Resume the background work.
    Start,
    /// Pause the background work.
    Stop,
    /// Switch to this sub-mode for a short activation.
    SetMode(u32),
    /// Take part in the rotation, or no longer.
    SetStatus(bool),
}

/// Control over the background worker of a screen.
pub trait ScreenControl {
    fn start_worker(&mut self);

    fn stop_worker(&mut self);
}

/// The state that every screen carries: its texts, its frame, and whether
/// its worker is meant to run.
#[derive(Clone, Debug)]
pub struct Screen {
    pub description: String,
    pub key: String,
    pub bytes: Vec<u8>,
    pub active: bool,
    pub initial_update_called: bool,
    pub mode: u32,
    pub enabled: bool,
}

impl Screen {
    /// A screen with these texts, an empty frame and a resting worker.
    pub fn new(description: String, key: String, enabled: bool) -> (screen: Screen)
        ensures
            screen.description == description,
            screen.key == key,
            screen.bytes@ == Seq::<u8>::empty(),
            !screen.active,
            !screen.initial_update_called,
            screen.mode == 0,
            screen.enabled == enabled,
    {
        Screen {
            description,
            key,
            bytes: Vec::new(),
            active: false,
            initial_update_called: false,
            mode: 0,
            enabled,
        }
    }
}

impl Default for Screen {
    fn default() -> (screen: Screen)
        ensures
            screen.description@ == Seq::<char>::empty(),
            screen.key@ == Seq::<char>::empty(),
            screen.bytes@ == Seq::<u8>::empty(),
            !screen.active,
            !screen.initial_update_called,
            screen.mode == 0,
            !screen.enabled,
    {
        Screen::new(String::new(), String::new(), false)
    }
}

impl ScreenControl for Screen {
    fn start_worker(&mut self)
        ensures
            *final(self) == (Screen { active: true, ..*old(self) }),
    {
        self.active = true;
    }

    fn stop_worker(&mut self)
        ensures
            *final(self) == (Screen { active: false, ..*old(self) }),
    {
        self.active = false;
    }
}

impl BasicScreen for Screen {
    fn update(&mut self)
        ensures
            *final(self) == (Screen { initial_update_called: true, ..*old(self) }),
    {
        self.initial_update_called = true;
    }

    fn description(&self) -> (text: String)
        ensures
            text == self.description,
    {
        self.description.clone()
    }

    fn key(&self) -> (text: String)
        ensures
            text == self.key,
    {
        self.key.clone()
    }

    fn current_image(&self) -> (image: Vec<u8>)
        ensures
            image@ == self.bytes@,
    {
        slice_to_vec(self.bytes.as_slice())
    }

    fn initial_update_called(&mut self) -> (called: bool)
        ensures
            called == old(self).initial_update_called,
            *final(self) == *old(self),
    {
        self.initial_update_called
    }

    fn start(&mut self)
        ensures
            *final(self) == (Screen { active: true, ..*old(self) }),
    {
        self.start_worker();
    }

    fn stop(&mut self)
        ensures
            *final(self) == (Screen { active: false, ..*old(self) }),
    {
        self.stop_worker();
    }

    fn set_mode_for_short(&mut self, mode: u32)
        ensures
            *final(self) == (Screen { mode, ..*old(self) }),
    {
        self.mode = mode;
    }

    fn enabled(&self) -> (enabled: bool)
        ensures
            enabled == self.enabled,
    {
        self.enabled
    }

    fn set_status(&mut self, status: bool)
        ensures
            *final(self) == (Screen { enabled: status, ..*old(self) }),
    {
        self.enabled = status;
    }
}

} // verus!
