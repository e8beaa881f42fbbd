//! Commands understood by the music playback worker.
//!
//! Playback itself is a side effect the host performs on a worker thread;
//! the library defines the command vocabulary and how each command settles
//! the worker's paused flag, which is the one bit of its state the rest of
//! the program reads back.

use vstd::prelude::*;

verus! {

/// A command sent to the playback worker.
pub enum AudioCommand {
    /// Start the named track, optionally looping it forever.
    Play { name: String, loop_forever: bool },
    Pause,
    Resume,
    TogglePause,
}

/// The paused flag after the worker handles `cmd`: playing and resuming
/// clear it, pausing sets it, and toggling flips it.
pub open spec fn spec_paused_after(cmd: &AudioCommand, paused: bool) -> bool {
    match cmd {
        AudioCommand::Play { .. } => false,
        AudioCommand::Pause => true,
        AudioCommand::Resume => false,
        AudioCommand::TogglePause => !paused,
    }
}

/// How one command settles the worker's paused flag, given the flag's
/// current value.
pub fn paused_after(cmd: &AudioCommand, paused: bool) -> (r: bool)
    ensures
        r == spec_paused_after(cmd, paused),
{
    match cmd {
        AudioCommand::Play { .. } => false,
        AudioCommand::Pause => true,
        AudioCommand::Resume => false,
        AudioCommand::TogglePause => !paused,
    }
}

} // verus!
