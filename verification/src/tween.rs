//! Tween bookkeeping: the easing curve names, the tween status, and the
//! loop / ping-pong cycle that decides what happens each time a tween
//! reaches the end of a pass. Interpolation and timing are the animator's
//! part; it asks the cycle what to do when a pass ends.

use vstd::prelude::*;

verus! {

/// Easing functions for tween interpolation.
#[derive(Debug, Clone, Copy, PartialEq, Eq, Structural)]
pub enum Ease {
    Linear,
    // Quad
    QuadIn,
    QuadOut,
    QuadInOut,
    // Cubic
    CubicIn,
    CubicOut,
    CubicInOut,
    // Quart
    QuartIn,
    QuartOut,
    QuartInOut,
    // Quint
    QuintIn,
    QuintOut,
    QuintInOut,
    // Sine
    SineIn,
    SineOut,
    SineInOut,
    // Expo
    ExpoIn,
    ExpoOut,
    ExpoInOut,
    // Circle
    CircIn,
    CircOut,
    CircInOut,
    // Elastic
    ElasticIn,
    ElasticOut,
    ElasticInOut,
    // Back
    BackIn,
    BackOut,
    BackInOut,
    // Bounce
    BounceIn,
    BounceOut,
    BounceInOut,
}

/// Status of a tween.
#[derive(Debug, Clone, Copy, PartialEq, Eq, Structural)]
pub enum TweenStatus {
    /// Still running.
    Running,
    /// Completed successfully.
    Completed,
    /// Manually stopped.
    Stopped,
    /// Waiting for delay before starting.
    Delayed,
}

/// What happens when a tween reaches the end of a pass.
#[derive(Debug, Clone, Copy, PartialEq, Eq, Structural)]
pub enum PassEnd {
    /// A ping-pong tween turned around at its end value and now runs back.
    Turned,
    /// The loop finished but more loops remain: the next pass starts over.
    Repeated,
    /// The last loop finished: the tween is complete.
    Completed,
}

/// The loop and direction bookkeeping of a tween.
#[derive(Debug, Clone, Copy, PartialEq, Eq, Structural)]
pub struct TweenCycle {
    /// Status.
    pub status: TweenStatus,
    /// Whether to ping-pong back to start.
    pub ping_pong: bool,
    /// Direction: true = forward, false = backward (for ping-pong).
    pub forward: bool,
    /// Loop count (0 = once, u32::MAX = infinite).
    pub loops: u32,
    /// Completed loop count.
    pub loops_done: u32,
}

/// The cycle after a pass ends, and what the end means.
///
/// A ping-pong tween going forward turns around; otherwise a loop is done
/// (a ping-pong loop is a pass there and a pass back), and the tween is
/// complete when the loops done reach the loop count, keeping its direction
/// (so a ping-pong tween ends back where it started); else it repeats, a
/// ping-pong tween setting off forward again.
pub open spec fn end_pass_step(c: TweenCycle) -> (TweenCycle, PassEnd) {
    if c.ping_pong && c.forward {
        (TweenCycle { forward: false, ..c }, PassEnd::Turned)
    } else {
        let done = (c.loops_done + 1) as u32;
        if done >= c.loops {
            (TweenCycle { loops_done: done, status: TweenStatus::Completed, ..c }, PassEnd::Completed)
        } else {
            (
                TweenCycle { loops_done: done, forward: c.ping_pong || c.forward, ..c },
                PassEnd::Repeated,
            )
        }
    }
}

/// The cycle after `k` pass ends.
pub open spec fn after_passes(c: TweenCycle, k: nat) -> TweenCycle
    decreases k,
{
    if k == 0 {
        c
    } else {
        end_pass_step(after_passes(c, (k - 1) as nat)).0
    }
}

impl TweenCycle {
    /// A fresh tween cycle: running, forward, one loop, not ping-pong.
    pub fn new() -> (c: Self)
        ensures
            c == (TweenCycle {
                status: TweenStatus::Running,
                ping_pong: false,
                forward: true,
                loops: 1,
                loops_done: 0,
            }),
    {
        TweenCycle {
            status: TweenStatus::Running,
            ping_pong: false,
            forward: true,
            loops: 1,
            loops_done: 0,
        }
    }

    /// Whether the tween is done (completed or stopped).
    pub fn is_done(&self) -> (r: bool)
        ensures
            r == (self.status == TweenStatus::Completed || self.status == TweenStatus::Stopped),
    {
        self.status == TweenStatus::Completed || self.status == TweenStatus::Stopped
    }

    /// Reverse the tween direction.
    pub fn reverse(&mut self)
        ensures
            *final(self) == (TweenCycle { forward: !old(self).forward, ..*old(self) }),
    {
        self.forward = !self.forward;
    }

    /// Stop the tween.
    pub fn stop(&mut self)
        ensures
            *final(self) == (TweenCycle { status: TweenStatus::Stopped, ..*old(self) }),
    {
        self.status = TweenStatus::Stopped;
    }

    /// Restart from the beginning: no loops done, forward, and waiting for
    /// the delay when there is one.
    pub fn restart(&mut self, has_delay: bool)
        ensures
            *final(self) == (TweenCycle {
                loops_done: 0,
                forward: true,
                status: if has_delay {
                    TweenStatus::Delayed
                } else {
                    TweenStatus::Running
                },
                ..*old(self)
            }),
    {
        self.loops_done = 0;
        self.forward = true;
        self.status = if has_delay {
            TweenStatus::Delayed
        } else {
            TweenStatus::Running
        };
    }

    /// The delay ran out: a delayed tween starts running.
    pub fn delay_over(&mut self)
        ensures
            *final(self) == if old(self).status == TweenStatus::Delayed {
                TweenCycle { status: TweenStatus::Running, ..*old(self) }
            } else {
                *old(self)
            },
    {
        if self.status == TweenStatus::Delayed {
            self.status = TweenStatus::Running;
        }
    }

    /// A pass reached its end (see `end_pass_step`).
    pub fn end_pass(&mut self) -> (r: PassEnd)
        requires
            old(self).loops_done < u32::MAX,
        ensures
            (*final(self), r) == end_pass_step(*old(self)),
    {
        if self.ping_pong && self.forward {
            self.forward = false;
            return PassEnd::Turned;
        }
        self.loops_done += 1;
        if self.loops_done >= self.loops {
            self.status = TweenStatus::Completed;
            return PassEnd::Completed;
        }
        if self.ping_pong {
            self.forward = true;
        }
        PassEnd::Repeated
    }
}

/// A plain (not ping-pong) running tween with `n >= 1` loops, started
/// fresh, repeats at each of its first `n - 1` pass ends and completes at
/// the `n`-th.
pub proof fn law_plain_loops_complete(c: TweenCycle, k: nat)
    requires
        !c.ping_pong,
        c.loops_done == 0,
        c.status == TweenStatus::Running,
        c.loops >= 1,
        k < c.loops,
    ensures
        after_passes(c, k).loops_done == k,
        after_passes(c, k).status == TweenStatus::Running,
        !after_passes(c, k).ping_pong,
        after_passes(c, k).loops == c.loops,
        end_pass_step(after_passes(c, k)).1 == if k + 1 == c.loops {
            PassEnd::Completed
        } else {
            PassEnd::Repeated
        },
    decreases k,
{
    if k > 0 {
        law_plain_loops_complete(c, (k - 1) as nat);
    }
}

/// A ping-pong running tween with `n >= 1` loops, started fresh and going
/// forward, turns around at every odd pass end and completes a loop at every
/// even one; it completes at pass end `2n`, going backward, so it ends at
/// its start value.
pub proof fn law_ping_pong_loops_complete(c: TweenCycle, k: nat)
    requires
        c.ping_pong,
        c.forward,
        c.loops_done == 0,
        c.status == TweenStatus::Running,
        c.loops >= 1,
        k < c.loops,
    ensures
        after_passes(c, 2 * k) == (TweenCycle { loops_done: k as u32, ..c }),
        end_pass_step(after_passes(c, 2 * k)).1 == PassEnd::Turned,
        end_pass_step(after_passes(c, 2 * k + 1)).1 == if k + 1 == c.loops {
            PassEnd::Completed
        } else {
            PassEnd::Repeated
        },
        k + 1 == c.loops ==> !end_pass_step(after_passes(c, 2 * k + 1)).0.forward,
    decreases k,
{
    if k > 0 {
        law_ping_pong_loops_complete(c, (k - 1) as nat);
        assert(after_passes(c, 2 * k) == end_pass_step(after_passes(c, (2 * k - 1) as nat)).0);
        assert(after_passes(c, (2 * k - 1) as nat) == end_pass_step(
            after_passes(c, (2 * (k - 1)) as nat),
        ).0);
    }
    assert(after_passes(c, 2 * k + 1) == end_pass_step(after_passes(c, 2 * k)).0);
}

/// A pass end never changes the loop count or the ping-pong setting, and
/// a tween that is not ping-pong keeps its direction: each of its loops
/// plays the same way round.
pub proof fn law_plain_keeps_direction(c: TweenCycle, k: nat)
    ensures
        after_passes(c, k).ping_pong == c.ping_pong,
        after_passes(c, k).loops == c.loops,
        !c.ping_pong ==> after_passes(c, k).forward == c.forward,
    decreases k,
{
    if k > 0 {
        law_plain_keeps_direction(c, (k - 1) as nat);
    }
}

/// One pass end: a ping-pong tween going forward turns back without
/// finishing a loop; otherwise one more loop is done, and the tween
/// completes exactly when that reaches the loop count, keeping its
/// direction, or else repeats (a ping-pong tween then sets off forward, a
/// plain one keeps its direction).
pub proof fn law_pass_end(c: TweenCycle)
    requires
        c.loops_done < u32::MAX,
    ensures
        ({
            let (c1, end) = end_pass_step(c);
            &&& c1.loops == c.loops && c1.ping_pong == c.ping_pong
            &&& (c.ping_pong && c.forward ==> {
                &&& end == PassEnd::Turned
                &&& !c1.forward
                &&& c1.loops_done == c.loops_done
                &&& c1.status == c.status
            })
            &&& (!(c.ping_pong && c.forward) ==> {
                &&& c1.loops_done == c.loops_done + 1
                &&& (end == PassEnd::Completed <==> c.loops_done + 1 >= c.loops)
                &&& (end == PassEnd::Completed ==> c1.status == TweenStatus::Completed
                    && c1.forward == c.forward)
                &&& (end != PassEnd::Completed ==> end == PassEnd::Repeated && c1.status == c.status
                    && c1.forward == (c.ping_pong || c.forward))
            })
        }),
{
}

} // verus!
