//! The game loop's run control: whether the game is quitting and whether it
//! is paused. The loop itself (timing, input, rendering) is the platform
//! layer's part; each frame it asks whether to run the game's update and
//! whether to stop.

use vstd::prelude::*;

verus! {

/// Run control of the game loop.
#[derive(Debug, Clone, Copy, PartialEq, Eq, Structural)]
pub struct RunState {
    /// Whether the game should exit.
    pub should_quit: bool,
    /// Whether the game is paused (time still advances but update is skipped).
    pub paused: bool,
}

impl RunState {
    /// Running, not paused.
    pub fn new() -> (s: Self)
        ensures
            s == (RunState { should_quit: false, paused: false }),
    {
        RunState { should_quit: false, paused: false }
    }

    /// Request the game to exit (will close after the current frame).
    pub fn quit(&mut self)
        ensures
            *final(self) == (RunState { should_quit: true, ..*old(self) }),
    {
        self.should_quit = true;
    }

    /// Check if the game is about to exit.
    pub fn is_quitting(&self) -> (r: bool)
        ensures
            r == self.should_quit,
    {
        self.should_quit
    }

    /// Pause the game (skips update but still renders).
    pub fn pause(&mut self)
        ensures
            *final(self) == (RunState { paused: true, ..*old(self) }),
    {
        self.paused = true;
    }

    /// Resume from pause.
    pub fn resume(&mut self)
        ensures
            *final(self) == (RunState { paused: false, ..*old(self) }),
    {
        self.paused = false;
    }

    /// Check if the game is paused.
    pub fn is_paused(&self) -> (r: bool)
        ensures
            r == self.paused,
    {
        self.paused
    }

    /// Toggle pause.
    pub fn toggle_pause(&mut self)
        ensures
            *final(self) == (RunState { paused: !old(self).paused, ..*old(self) }),
    {
        self.paused = !self.paused;
    }

    /// Whether this frame runs the game's update: only when not paused.
    pub fn runs_update(&self) -> (r: bool)
        ensures
            r == !self.paused,
    {
        !self.paused
    }
}

/// Toggling pause twice gives back the state it started from.
pub proof fn law_toggle_twice(s: RunState)
    ensures
        ({
            let t = RunState { paused: !s.paused, ..s };
            RunState { paused: !t.paused, ..t }
        }) == s,
{
}

} // verus!
