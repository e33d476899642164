//! Sprite-animation playback stepping: which frame is shown, in which
//! direction playback runs, and whether it is playing, paused or finished.
//! Frame timing (seconds per frame, speed) is the player's part; when a
//! frame's time is up the player asks the playback to advance.

use vstd::prelude::*;
use vstd::arithmetic::div_mod::{lemma_small_mod, lemma_mod_self_0};

verus! {

/// Playback state for an animation.
#[derive(Debug, Clone, Copy, PartialEq, Eq, Structural)]
pub enum AnimationState {
    /// Currently playing.
    Playing,
    /// Animation finished (non-looping).
    Finished,
    /// Manually paused.
    Paused,
}

/// Position and state of an animation player's playback.
#[derive(Debug, Clone, Copy, PartialEq, Eq, Structural)]
pub struct Playback {
    /// Index of the current frame.
    pub frame_index: usize,
    /// Whether playing forward (false = playing backward for ping-pong).
    pub forward: bool,
    /// Playback state.
    pub state: AnimationState,
}

/// The playback after the current frame's time is up, in an animation of
/// `frame_count` frames.
///
/// Ping-pong playback turns around at either end (at the start only when
/// looping, stepping to the second frame if there is one; otherwise it
/// finishes there); plain playback wraps to the first frame when looping and
/// finishes on the last frame otherwise.
pub open spec fn advanced(p: Playback, frame_count: nat, looping: bool, ping_pong: bool) -> Playback {
    if ping_pong {
        if p.forward {
            if p.frame_index + 1 >= frame_count {
                Playback {
                    frame_index: if p.frame_index == 0 {
                        0
                    } else {
                        (p.frame_index - 1) as usize
                    },
                    forward: false,
                    ..p
                }
            } else {
                Playback { frame_index: (p.frame_index + 1) as usize, ..p }
            }
        } else if p.frame_index == 0 {
            if looping {
                Playback {
                    frame_index: if frame_count > 1 {
                        1
                    } else {
                        0
                    },
                    forward: true,
                    ..p
                }
            } else {
                Playback { state: AnimationState::Finished, ..p }
            }
        } else {
            Playback { frame_index: (p.frame_index - 1) as usize, ..p }
        }
    } else if p.frame_index + 1 >= frame_count {
        if looping {
            Playback { frame_index: 0, ..p }
        } else {
            Playback { state: AnimationState::Finished, ..p }
        }
    } else {
        Playback { frame_index: (p.frame_index + 1) as usize, ..p }
    }
}

impl Playback {
    /// A player with nothing playing: frame 0, forward, finished.
    pub fn new() -> (p: Self)
        ensures
            p == (Playback { frame_index: 0, forward: true, state: AnimationState::Finished }),
    {
        Playback { frame_index: 0, forward: true, state: AnimationState::Finished }
    }

    /// (Re)start from the first frame, playing forward.
    pub fn restart(&mut self)
        ensures
            *final(self) == (Playback {
                frame_index: 0,
                forward: true,
                state: AnimationState::Playing,
            }),
    {
        self.frame_index = 0;
        self.forward = true;
        self.state = AnimationState::Playing;
    }

    /// Pause the animation (only a playing one).
    pub fn pause(&mut self)
        ensures
            *final(self) == if old(self).state == AnimationState::Playing {
                Playback { state: AnimationState::Paused, ..*old(self) }
            } else {
                *old(self)
            },
    {
        if self.state == AnimationState::Playing {
            self.state = AnimationState::Paused;
        }
    }

    /// Resume from pause (only a paused one).
    pub fn resume(&mut self)
        ensures
            *final(self) == if old(self).state == AnimationState::Paused {
                Playback { state: AnimationState::Playing, ..*old(self) }
            } else {
                *old(self)
            },
    {
        if self.state == AnimationState::Paused {
            self.state = AnimationState::Playing;
        }
    }

    /// Stop and reset to the first frame (the direction is kept).
    pub fn stop(&mut self)
        ensures
            *final(self) == (Playback {
                frame_index: 0,
                state: AnimationState::Finished,
                ..*old(self)
            }),
    {
        self.frame_index = 0;
        self.state = AnimationState::Finished;
    }

    /// Advance past the current frame of an animation of `frame_count`
    /// frames (see `advanced`).
    pub fn advance(&mut self, frame_count: usize, looping: bool, ping_pong: bool)
        requires
            old(self).frame_index < frame_count,
        ensures
            *final(self) == advanced(*old(self), frame_count as nat, looping, ping_pong),
    {
        if ping_pong {
            if self.forward {
                if self.frame_index + 1 >= frame_count {
                    self.forward = false;
                    self.frame_index = self.frame_index.saturating_sub(1);
                } else {
                    self.frame_index += 1;
                }
            } else {
                if self.frame_index == 0 {
                    if looping {
                        self.forward = true;
                        self.frame_index = if frame_count > 1 {
                            1
                        } else {
                            0
                        };
                    } else {
                        self.state = AnimationState::Finished;
                    }
                } else {
                    self.frame_index -= 1;
                }
            }
        } else {
            if self.frame_index + 1 >= frame_count {
                if looping {
                    self.frame_index = 0;
                } else {
                    self.state = AnimationState::Finished;
                }
            } else {
                self.frame_index += 1;
            }
        }
    }

    /// Start of an update of an animation of `frame_count` frames: only a
    /// playing animation with frames shows a frame this update; a playing
    /// animation without frames finishes. Returns whether a frame is shown.
    pub fn begin_update(&mut self, frame_count: usize) -> (showing: bool)
        ensures
            showing == (old(self).state == AnimationState::Playing && frame_count > 0),
            *final(self) == if old(self).state == AnimationState::Playing && frame_count == 0 {
                Playback { state: AnimationState::Finished, ..*old(self) }
            } else {
                *old(self)
            },
    {
        if self.state != AnimationState::Playing {
            return false;
        }
        if frame_count == 0 {
            self.state = AnimationState::Finished;
            return false;
        }
        true
    }

    /// The shown frame's time is up: advances past it (see `advanced`) and
    /// returns the frame now shown, whose event fires, unless playback
    /// finished.
    pub fn frame_done(&mut self, frame_count: usize, looping: bool, ping_pong: bool) -> (shown: Option<
        usize,
    >)
        requires
            old(self).frame_index < frame_count,
        ensures
            *final(self) == advanced(*old(self), frame_count as nat, looping, ping_pong),
            shown == if final(self).state == AnimationState::Finished {
                None
            } else {
                Some(final(self).frame_index)
            },
    {
        self.advance(frame_count, looping, ping_pong);
        if self.state == AnimationState::Finished {
            None
        } else {
            Some(self.frame_index)
        }
    }
}

/// Advancing keeps the frame index inside the animation.
pub proof fn law_advance_stays_in_range(
    p: Playback,
    frame_count: nat,
    looping: bool,
    ping_pong: bool,
)
    requires
        p.frame_index < frame_count,
    ensures
        advanced(p, frame_count, looping, ping_pong).frame_index < frame_count,
{
}

/// Plain looping playback steps through the frames in a cycle: from frame
/// `i` it goes to frame `(i + 1) mod frame_count`, and keeps playing.
pub proof fn law_loop_wraps(p: Playback, frame_count: nat)
    requires
        p.frame_index < frame_count <= usize::MAX,
    ensures
        advanced(p, frame_count, true, false).frame_index == (p.frame_index + 1) % (
        frame_count as int),
        advanced(p, frame_count, true, false).state == p.state,
{
    if p.frame_index + 1 < frame_count {
        lemma_small_mod((p.frame_index + 1) as nat, frame_count);
    } else {
        lemma_mod_self_0(frame_count as int);
    }
}

/// Away from the ends, playback moves exactly one frame in its direction
/// and keeps its direction and state: forward (plain, or ping-pong going
/// forward) to frame `i + 1`, backward (ping-pong going back) to frame
/// `i - 1`.
pub proof fn law_advance_one_frame(p: Playback, frame_count: nat, looping: bool, ping_pong: bool)
    requires
        p.frame_index < frame_count,
    ensures
        ((!ping_pong || p.forward) && p.frame_index + 1 < frame_count) ==> advanced(
            p,
            frame_count,
            looping,
            ping_pong,
        ) == (Playback { frame_index: (p.frame_index + 1) as usize, ..p }),
        (ping_pong && !p.forward && p.frame_index > 0) ==> advanced(p, frame_count, looping, ping_pong)
            == (Playback { frame_index: (p.frame_index - 1) as usize, ..p }),
{
}

/// At the ends: plain playback on its last frame wraps to frame 0 when
/// looping and finishes there otherwise; ping-pong playback on its last
/// frame going forward turns back (to the frame before, if any); ping-pong
/// playback on frame 0 going back turns forward when looping (to frame 1,
/// if any) and finishes otherwise.
pub proof fn law_advance_at_ends(p: Playback, frame_count: nat, looping: bool, ping_pong: bool)
    requires
        p.frame_index < frame_count,
    ensures
        (!ping_pong && p.frame_index + 1 == frame_count) ==> advanced(p, frame_count, looping, ping_pong)
            == if looping {
            Playback { frame_index: 0, ..p }
        } else {
            Playback { state: AnimationState::Finished, ..p }
        },
        (ping_pong && p.forward && p.frame_index + 1 == frame_count) ==> advanced(
            p,
            frame_count,
            looping,
            ping_pong,
        ) == (Playback {
            frame_index: if p.frame_index > 0 {
                (p.frame_index - 1) as usize
            } else {
                0
            },
            forward: false,
            ..p
        }),
        (ping_pong && !p.forward && p.frame_index == 0) ==> advanced(p, frame_count, looping, ping_pong)
            == if looping {
            Playback {
                frame_index: if frame_count > 1 {
                    1
                } else {
                    0
                },
                forward: true,
                ..p
            }
        } else {
            Playback { state: AnimationState::Finished, ..p }
        },
{
}

} // verus!
