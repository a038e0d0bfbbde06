//! What a media key does to the schedule.

use vstd::prelude::*;

verus! {

/// Key code of the volume-down key.
pub const VOLUME_DOWN: u32 = 174;

/// Key code of the volume-up key.
pub const VOLUME_UP: u32 = 175;

/// Key code of the next-track key, the lowest of the four transport keys.
pub const NEXT_TRACK: u32 = 176;

/// Key code of the play/pause key, the highest of the four transport keys.
pub const PLAY_PAUSE: u32 = 179;

/// Key code of the pause key.
pub const PAUSE: u32 = 180;

/// Sub-mode of the media screen that shows the track.
pub const TRACK_MODE: u32 = 0;

/// Sub-mode of the media screen that shows the volume.
pub const VOLUME_MODE: u32 = 1;

/// What the scheduler is asked to do for a key.
#[derive(Clone, Copy, Debug, PartialEq, Eq, Structural)]
pub enum KeyAction {
    /// The key means nothing to the schedule.
    Ignore,
    /// Show the media screen for a short while, in this sub-mode.
    ShowMedia { mode: u32 },
    /// Go on to the next screen.
    NextScreen,
}

/// The action that a key code stands for.
pub open spec fn action_of(code: u32) -> KeyAction {
    if code == VOLUME_DOWN || code == VOLUME_UP {
        KeyAction::ShowMedia { mode: VOLUME_MODE }
    } else if NEXT_TRACK <= code <= PLAY_PAUSE {
        KeyAction::ShowMedia { mode: TRACK_MODE }
    } else if code == PAUSE {
        KeyAction::NextScreen
    } else {
        KeyAction::Ignore
    }
}

/// Decides what a released key does: the volume keys show the media
/// screen's volume, the transport keys its track, the pause key goes on to
/// the next screen.
pub fn key_action(code: u32) -> (action: KeyAction)
    ensures
        action == action_of(code),
{
    if code == VOLUME_DOWN || code == VOLUME_UP {
        KeyAction::ShowMedia { mode: VOLUME_MODE }
    } else if code >= NEXT_TRACK && code <= PLAY_PAUSE {
        KeyAction::ShowMedia { mode: TRACK_MODE }
    } else if code == PAUSE {
        KeyAction::NextScreen
    } else {
        KeyAction::Ignore
    }
}

} // verus!
