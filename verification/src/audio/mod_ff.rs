use vstd::prelude::*;

verus! {

/// An error of the audio backend, by its code.
#[derive(Debug)]
pub struct AudioError {
    pub code: i32,
}

/// The audio backend.
pub struct Player {}

/// A handle to control the playback of the audio backend. The playback controls are not
/// wired to the backend: they report a stopped player at position 0.
#[derive(Debug)]
pub struct Control {}

impl Clone for Control {
    fn clone(&self) -> (res: Self)
        ensures
            res == *self,
    {
        Control {}
    }
}

impl Player {
    /// Sets up the audio backend.
    pub fn setup() -> (res: Result<Player, AudioError>)
        ensures
            res is Ok,
    {
        Ok(Player {})
    }

    /// A handle to control the playback.
    pub fn new_control(&self) -> (control: Control)
        ensures
            control == (Control {}),
    {
        Control {}
    }
}

impl Control {
    /// Starts playing; always succeeds.
    pub fn play(&self) -> (res: Result<(), AudioError>)
        ensures
            res is Ok,
    {
        Ok(())
    }

    /// Whether the audio is playing: never.
    pub fn is_playing(&self) -> (playing: bool)
        ensures
            !playing,
    {
        let state = false;
        state
    }

    /// Pauses; always succeeds.
    pub fn pause(&self) -> (res: Result<(), AudioError>)
        ensures
            res is Ok,
    {
        Ok(())
    }

    /// The playback position in seconds: always 0.
    pub fn get_position(&self) -> (position: u64)
        ensures
            position == 0,
    {
        let position: u64 = 0;
        position
    }

    /// The length of the audio in seconds: always 0.
    pub fn get_duration(&self) -> (duration: u64)
        ensures
            duration == 0,
    {
        let duration: u64 = 0;
        duration
    }

    /// Seeks to a position in seconds; has no effect.
    pub fn set_position(&self, position: u64) {
    }
}

} // verus!
