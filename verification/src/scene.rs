//! Scene stack management: the stack of scenes, the operations queued while
//! a transition plays, and the transition phases. Scenes themselves (their
//! hooks, update and render) and transition timing are the engine's part:
//! after each operation it calls the hooks the operation calls for, and it
//! tells the stack when a transition phase has run its time.

use vstd::prelude::*;

verus! {

/// Events that can be passed to scenes.
#[derive(Debug, Clone)]
pub enum SceneEvent {
    /// Window was resized.
    WindowResized { width: u32, height: u32 },
    /// Window gained focus.
    GainedFocus,
    /// Window lost focus.
    LostFocus,
    /// A custom event with a string tag.
    Custom(String),
}

/// Direction a sliding transition comes from.
#[derive(Debug, Clone, Copy, PartialEq, Eq, Structural)]
pub enum SlideDirection {
    Left,
    Right,
    Up,
    Down,
}

/// State of a transition.
#[derive(Debug, Clone, Copy, PartialEq, Eq, Structural)]
pub enum TransitionPhase {
    /// No transition active.
    Idle,
    /// Transitioning out (old scene fading/closing).
    Out,
    /// Transitioning in (new scene fading/opening).
    In,
}

/// Outcome of a stack operation asked for directly.
#[derive(Debug)]
pub enum Applied<S> {
    /// A transition is playing: the operation waits for its out phase to
    /// end.
    Queued,
    /// The operation was carried out; holds the scene taken off the top, if
    /// one was.
    Now(Option<S>),
}

/// A queued operation carried out at the end of a transition's out phase.
#[derive(Debug)]
pub enum PendingOp<S> {
    /// The queued scene was pushed.
    Pushed,
    /// The top scene was popped (the scene, if the stack was not empty).
    Popped(Option<S>),
    /// The top scene (if any) was replaced by the queued scene.
    Replaced(Option<S>),
}

/// The scene hooks an operation calls for, by stack position (0 = bottom),
/// to be called in this order: `on_pause` of the scene at `pause` (the one
/// just covered), `on_enter` of the scene at `enter` (the one just put on
/// top), `on_resume` of the scene at `resume` (the one just revealed). A
/// scene taken off the stack is handed back with the operation's result and
/// gets `on_exit` first.
#[derive(Debug, Clone, Copy, PartialEq, Eq, Structural)]
pub struct SceneHooks {
    pub pause: Option<usize>,
    pub enter: Option<usize>,
    pub resume: Option<usize>,
}

/// No hooks: the operation was queued.
pub open spec fn no_hooks() -> SceneHooks {
    SceneHooks { pause: None, enter: None, resume: None }
}

/// After a push leaving `depth` scenes: the scene below the new top (if
/// any) is paused, then the new top enters.
pub open spec fn push_hooks(depth: nat) -> SceneHooks {
    SceneHooks {
        pause: if depth >= 2 {
            Some((depth - 2) as usize)
        } else {
            None
        },
        enter: Some((depth - 1) as usize),
        resume: None,
    }
}

/// After a pop leaving `depth` scenes: the new top (if any) resumes.
pub open spec fn pop_hooks(depth: nat) -> SceneHooks {
    SceneHooks {
        pause: None,
        enter: None,
        resume: if depth >= 1 {
            Some((depth - 1) as usize)
        } else {
            None
        },
    }
}

/// After a replace leaving `depth` scenes: the new top enters.
pub open spec fn replace_hooks(depth: nat) -> SceneHooks {
    SceneHooks { pause: None, enter: Some((depth - 1) as usize), resume: None }
}

/// The mathematical state of a scene stack.
pub struct SceneStackModel<S> {
    /// The scenes, bottom first.
    pub scenes: Seq<S>,
    /// Scene waiting to be pushed.
    pub pending_push: Option<S>,
    /// Whether a pop is waiting.
    pub pending_pop: bool,
    /// Scene waiting to replace the top.
    pub pending_replace: Option<S>,
    /// Transition phase.
    pub phase: TransitionPhase,
}

/// A stack of scenes with transitions.
///
/// While a transition plays (its phase is not `Idle`), push, pop and replace
/// are queued and carried out when the out phase ends, in the order push,
/// pop, replace; a second queued push or replace takes the place of the
/// first.
pub struct SceneStack<S> {
    stack: Vec<S>,
    pending_push: Option<S>,
    pending_pop: bool,
    pending_replace: Option<S>,
    phase: TransitionPhase,
}

/// What `push` does: the scene goes on top, or waits when a transition
/// plays.
pub open spec fn push_step<S>(m: SceneStackModel<S>, scene: S) -> (SceneStackModel<S>, bool) {
    if m.phase != TransitionPhase::Idle {
        (SceneStackModel { pending_push: Some(scene), ..m }, false)
    } else {
        (SceneStackModel { scenes: m.scenes.push(scene), ..m }, true)
    }
}

/// The top scene of `scenes`, if any.
pub open spec fn top_of<S>(scenes: Seq<S>) -> Option<S> {
    if scenes.len() == 0 {
        None
    } else {
        Some(scenes.last())
    }
}

/// `scenes` without its top scene (unchanged when empty).
pub open spec fn without_top<S>(scenes: Seq<S>) -> Seq<S> {
    if scenes.len() == 0 {
        scenes
    } else {
        scenes.drop_last()
    }
}

/// What `pop` does: the top scene comes off, or the pop waits when a
/// transition plays.
pub open spec fn pop_step<S>(m: SceneStackModel<S>) -> (SceneStackModel<S>, Applied<S>) {
    if m.phase != TransitionPhase::Idle {
        (SceneStackModel { pending_pop: true, ..m }, Applied::Queued)
    } else {
        (SceneStackModel { scenes: without_top(m.scenes), ..m }, Applied::Now(top_of(m.scenes)))
    }
}

/// What `replace` does: the top scene (if any) comes off and the scene goes
/// on top, or it waits when a transition plays.
pub open spec fn replace_step<S>(m: SceneStackModel<S>, scene: S) -> (SceneStackModel<S>, Applied<S>) {
    if m.phase != TransitionPhase::Idle {
        (SceneStackModel { pending_replace: Some(scene), ..m }, Applied::Queued)
    } else {
        (
            SceneStackModel { scenes: without_top(m.scenes).push(scene), ..m },
            Applied::Now(top_of(m.scenes)),
        )
    }
}

/// What `run_next_pending` does: carries out the first queued operation (a
/// push before a pop before a replace), or reports that none is queued.
pub open spec fn pending_step<S>(m: SceneStackModel<S>) -> (SceneStackModel<S>, Option<PendingOp<S>>) {
    if m.pending_push is Some {
        (
            SceneStackModel { scenes: m.scenes.push(m.pending_push->0), pending_push: None, ..m },
            Some(PendingOp::Pushed),
        )
    } else if m.pending_pop {
        (
            SceneStackModel { scenes: without_top(m.scenes), pending_pop: false, ..m },
            Some(PendingOp::Popped(top_of(m.scenes))),
        )
    } else if m.pending_replace is Some {
        (
            SceneStackModel {
                scenes: without_top(m.scenes).push(m.pending_replace->0),
                pending_replace: None,
                ..m
            },
            Some(PendingOp::Replaced(top_of(m.scenes))),
        )
    } else {
        (m, None)
    }
}

/// The phase after the current one has run its time: out, then in, then
/// no transition.
pub open spec fn next_phase(p: TransitionPhase) -> TransitionPhase {
    match p {
        TransitionPhase::Out => TransitionPhase::In,
        _ => TransitionPhase::Idle,
    }
}

impl<S> View for SceneStack<S> {
    type V = SceneStackModel<S>;

    closed spec fn view(&self) -> SceneStackModel<S> {
        SceneStackModel {
            scenes: self.stack@,
            pending_push: self.pending_push,
            pending_pop: self.pending_pop,
            pending_replace: self.pending_replace,
            phase: self.phase,
        }
    }
}

impl<S> SceneStack<S> {
    /// Create a new empty scene stack with no transition.
    pub fn new() -> (st: Self)
        ensures
            st@.scenes == Seq::<S>::empty(),
            st@.pending_push is None,
            !st@.pending_pop,
            st@.pending_replace is None,
            st@.phase == TransitionPhase::Idle,
    {
        SceneStack {
            stack: Vec::new(),
            pending_push: None,
            pending_pop: false,
            pending_replace: None,
            phase: TransitionPhase::Idle,
        }
    }

    /// Whether a transition is playing.
    pub fn in_transition(&self) -> (r: bool)
        ensures
            r == (self@.phase != TransitionPhase::Idle),
    {
        self.phase != TransitionPhase::Idle
    }

    /// The current transition phase.
    pub fn phase(&self) -> (p: TransitionPhase)
        ensures
            p == self@.phase,
    {
        self.phase
    }

    /// Push a new scene onto the stack (see `push_step`); returns the hooks
    /// to call, none when the push is queued.
    pub fn push(&mut self, scene: S) -> (r: SceneHooks)
        ensures
            final(self)@ == push_step(old(self)@, scene).0,
            r == if push_step(old(self)@, scene).1 {
                push_hooks(final(self)@.scenes.len())
            } else {
                no_hooks()
            },
    {
        if self.phase != TransitionPhase::Idle {
            self.pending_push = Some(scene);
            return SceneHooks { pause: None, enter: None, resume: None };
        }
        self.stack.push(scene);
        self.hooks_after_push()
    }

    /// The hooks after a push (see `push_hooks`).
    fn hooks_after_push(&self) -> (r: SceneHooks)
        requires
            self@.scenes.len() >= 1,
        ensures
            r == push_hooks(self@.scenes.len()),
    {
        let depth = self.stack.len();
        SceneHooks {
            pause: if depth >= 2 {
                Some(depth - 2)
            } else {
                None
            },
            enter: Some(depth - 1),
            resume: None,
        }
    }

    /// The hooks after a pop (see `pop_hooks`).
    fn hooks_after_pop(&self) -> (r: SceneHooks)
        ensures
            r == pop_hooks(self@.scenes.len()),
    {
        let depth = self.stack.len();
        SceneHooks {
            pause: None,
            enter: None,
            resume: if depth >= 1 {
                Some(depth - 1)
            } else {
                None
            },
        }
    }

    /// The hooks after a replace (see `replace_hooks`).
    fn hooks_after_replace(&self) -> (r: SceneHooks)
        requires
            self@.scenes.len() >= 1,
        ensures
            r == replace_hooks(self@.scenes.len()),
    {
        SceneHooks { pause: None, enter: Some(self.stack.len() - 1), resume: None }
    }

    /// Pop the top scene off the stack (see `pop_step`); also returns the
    /// hooks to call, none when the pop is queued.
    pub fn pop(&mut self) -> (r: (Applied<S>, SceneHooks))
        ensures
            (final(self)@, r.0) == pop_step(old(self)@),
            r.1 == if r.0 is Queued {
                no_hooks()
            } else {
                pop_hooks(final(self)@.scenes.len())
            },
    {
        if self.phase != TransitionPhase::Idle {
            self.pending_pop = true;
            return (Applied::Queued, SceneHooks { pause: None, enter: None, resume: None });
        }
        let popped = self.stack.pop();
        (Applied::Now(popped), self.hooks_after_pop())
    }

    /// Replace the current scene with a new one (see `replace_step`); also
    /// returns the hooks to call, none when the replace is queued.
    pub fn replace(&mut self, scene: S) -> (r: (Applied<S>, SceneHooks))
        ensures
            (final(self)@, r.0) == replace_step(old(self)@, scene),
            r.1 == if r.0 is Queued {
                no_hooks()
            } else {
                replace_hooks(final(self)@.scenes.len())
            },
    {
        if self.phase != TransitionPhase::Idle {
            self.pending_replace = Some(scene);
            return (Applied::Queued, SceneHooks { pause: None, enter: None, resume: None });
        }
        let old_top = self.stack.pop();
        self.stack.push(scene);
        (Applied::Now(old_top), self.hooks_after_replace())
    }

    /// Start a transition whose out phase ends with pushing `scene`.
    pub fn push_with_transition(&mut self, scene: S)
        ensures
            final(self)@ == (SceneStackModel {
                phase: TransitionPhase::Out,
                pending_push: Some(scene),
                ..old(self)@
            }),
    {
        self.phase = TransitionPhase::Out;
        self.pending_push = Some(scene);
    }

    /// Start a transition whose out phase ends with popping the top scene.
    pub fn pop_with_transition(&mut self)
        ensures
            final(self)@ == (SceneStackModel {
                phase: TransitionPhase::Out,
                pending_pop: true,
                ..old(self)@
            }),
    {
        self.phase = TransitionPhase::Out;
        self.pending_pop = true;
    }

    /// Carry out the first queued operation (see `pending_step`), with the
    /// hooks it calls for.
    pub fn run_next_pending(&mut self) -> (r: Option<(PendingOp<S>, SceneHooks)>)
        ensures
            final(self)@ == pending_step(old(self)@).0,
            match r {
                Some((op, _)) => pending_step(old(self)@).1 == Some(op),
                None => pending_step(old(self)@).1 is None,
            },
            r matches Some((op, hooks)) ==> hooks == match op {
                PendingOp::Pushed => push_hooks(final(self)@.scenes.len()),
                PendingOp::Popped(_) => pop_hooks(final(self)@.scenes.len()),
                PendingOp::Replaced(_) => replace_hooks(final(self)@.scenes.len()),
            },
    {
        match self.pending_push.take() {
            Some(scene) => {
                self.stack.push(scene);
                return Some((PendingOp::Pushed, self.hooks_after_push()));
            },
            None => {},
        }
        if self.pending_pop {
            self.pending_pop = false;
            let popped = self.stack.pop();
            return Some((PendingOp::Popped(popped), self.hooks_after_pop()));
        }
        match self.pending_replace.take() {
            Some(scene) => {
                let old_top = self.stack.pop();
                self.stack.push(scene);
                Some((PendingOp::Replaced(old_top), self.hooks_after_replace()))
            },
            None => None,
        }
    }

    /// The current phase has run its time: move to the next one (see
    /// `next_phase`).
    pub fn advance_phase(&mut self)
        ensures
            final(self)@ == (SceneStackModel { phase: next_phase(old(self)@.phase), ..old(self)@ }),
    {
        self.phase = match self.phase {
            TransitionPhase::Out => TransitionPhase::In,
            _ => TransitionPhase::Idle,
        };
    }

    /// Number of scenes on the stack.
    pub fn depth(&self) -> (n: usize)
        ensures
            n == self@.scenes.len(),
    {
        self.stack.len()
    }

    /// Whether the scene stack is empty.
    pub fn is_empty(&self) -> (r: bool)
        ensures
            r == (self@.scenes.len() == 0),
    {
        self.stack.is_empty()
    }

    /// The current (top) scene, if any.
    pub fn top(&self) -> (r: Option<&S>)
        ensures
            match r {
                Some(s) => self@.scenes.len() > 0 && *s == self@.scenes.last(),
                None => self@.scenes.len() == 0,
            },
    {
        self.stack.as_slice().last()
    }

    /// All scenes, bottom first.
    pub fn scenes(&self) -> (r: &[S])
        ensures
            r@ == self@.scenes,
    {
        self.stack.as_slice()
    }

    /// Mutable access to the scene at position `i` (0 = bottom).
    pub fn scene_mut(&mut self, i: usize) -> (r: &mut S)
        requires
            i < old(self)@.scenes.len(),
        ensures
            *r == old(self)@.scenes[i as int],
            final(self)@ == (SceneStackModel {
                scenes: old(self)@.scenes.update(i as int, *final(r)),
                ..old(self)@
            }),
    {
        &mut self.stack[i]
    }
}

/// With no transition playing, pushing a scene and popping gives that scene
/// back and leaves the stack as it was.
pub proof fn law_push_then_pop<S>(m: SceneStackModel<S>, scene: S)
    requires
        m.phase == TransitionPhase::Idle,
    ensures
        ({
            let (m1, pushed) = push_step(m, scene);
            let (m2, popped) = pop_step(m1);
            &&& pushed
            &&& popped == Applied::Now(Some(scene))
            &&& m2.scenes == m.scenes
        }),
{
    let (m1, _) = push_step(m, scene);
    assert(m1.scenes.drop_last() =~= m.scenes);
}

/// While a transition plays, push, pop and replace leave the scenes as
/// they are.
pub proof fn law_queued_while_transitioning<S>(m: SceneStackModel<S>, scene: S)
    requires
        m.phase != TransitionPhase::Idle,
    ensures
        push_step(m, scene).0.scenes == m.scenes,
        pop_step(m).0.scenes == m.scenes,
        replace_step(m, scene).0.scenes == m.scenes,
{
}

/// Replacing keeps the depth of a non-empty stack and puts the new scene on
/// top.
pub proof fn law_replace_keeps_depth<S>(m: SceneStackModel<S>, scene: S)
    requires
        m.phase == TransitionPhase::Idle,
        m.scenes.len() > 0,
    ensures
        replace_step(m, scene).0.scenes.len() == m.scenes.len(),
        replace_step(m, scene).0.scenes.last() == scene,
{
}

/// A push with a transition, once the queued operations run, leaves the
/// scene on top of the stack as it was and nothing queued.
pub proof fn law_push_with_transition<S>(m: SceneStackModel<S>, scene: S)
    requires
        !m.pending_pop,
        m.pending_replace is None,
    ensures
        ({
            let t = SceneStackModel { phase: TransitionPhase::Out, pending_push: Some(scene), ..m };
            let (t1, op1) = pending_step(t);
            let (t2, op2) = pending_step(t1);
            &&& op1 == Some(PendingOp::<S>::Pushed)
            &&& op2 is None
            &&& t2.scenes == m.scenes.push(scene)
            &&& t2.pending_push is None
        }),
{
}

/// With no transition playing, a push onto `n` scenes calls `on_pause` of
/// the old top (position `n - 1`, when there was one), then `on_enter` of
/// the pushed scene (position `n`), and no other hook.
pub proof fn law_push_hooks<S>(m: SceneStackModel<S>, scene: S)
    requires
        m.phase == TransitionPhase::Idle,
        m.scenes.len() < usize::MAX,
    ensures
        ({
            let n = m.scenes.len();
            let (m1, pushed) = push_step(m, scene);
            &&& pushed
            &&& m1.scenes[n as int] == scene
            &&& push_hooks(m1.scenes.len()) == SceneHooks {
                pause: if n > 0 {
                    Some((n - 1) as usize)
                } else {
                    None
                },
                enter: Some(n as usize),
                resume: None,
            }
        }),
{
}

/// Queued operations, carried out one at a time after a transition's out
/// phase: a queued push puts its scene on top; a queued pop takes the top
/// off and hands it back; a queued replace (with nothing else queued) on a
/// non-empty stack keeps the depth, puts its scene on top, keeps the scenes
/// below and hands back the old top. Each leaves its queue slot empty and
/// the phase as it was.
pub proof fn law_pending_ops<S>(m: SceneStackModel<S>)
    ensures
        ({
            let (m1, op) = pending_step(m);
            &&& m1.phase == m.phase
            &&& (m.pending_push matches Some(s) ==> {
                &&& m1.scenes == m.scenes.push(s)
                &&& m1.pending_push is None
                &&& op == Some(PendingOp::<S>::Pushed)
            })
            &&& (m.pending_push is None && m.pending_pop && m.scenes.len() > 0 ==> {
                &&& m1.scenes.len() == m.scenes.len() - 1
                &&& (forall|i: int| 0 <= i < m1.scenes.len() ==> m1.scenes[i] == m.scenes[i])
                &&& !m1.pending_pop
                &&& op == Some(PendingOp::Popped(Some(m.scenes.last())))
            })
            &&& (m.pending_push is None && !m.pending_pop && m.pending_replace is Some
                && m.scenes.len() > 0 ==> {
                &&& m1.scenes.len() == m.scenes.len()
                &&& m1.scenes.last() == m.pending_replace->0
                &&& (forall|i: int| 0 <= i < m.scenes.len() - 1 ==> m1.scenes[i] == m.scenes[i])
                &&& m1.pending_replace is None
                &&& op == Some(PendingOp::Replaced(Some(m.scenes.last())))
            })
            &&& (m.pending_push is None && !m.pending_pop && m.pending_replace is None ==> {
                &&& m1 == m
                &&& op is None
            })
        }),
{
}

/// The hooks of each operation, by the depth `d` it leaves: a push pauses
/// the scene just below the top (if any) and enters the top; a pop resumes
/// the new top (if any); a replace enters the top. No operation calls a
/// hook the others name.
pub proof fn law_operation_hooks(d: nat)
    requires
        1 <= d <= usize::MAX,
    ensures
        push_hooks(d).enter == Some((d - 1) as usize),
        push_hooks(d).pause == if d >= 2 {
            Some((d - 2) as usize)
        } else {
            None::<usize>
        },
        push_hooks(d).resume is None,
        replace_hooks(d).enter == Some((d - 1) as usize),
        replace_hooks(d).pause is None && replace_hooks(d).resume is None,
        pop_hooks(d).resume == Some((d - 1) as usize),
        pop_hooks(0).resume is None,
        pop_hooks(d).pause is None && pop_hooks(d).enter is None,
        no_hooks() == (SceneHooks { pause: None, enter: None, resume: None }),
{
}

} // verus!
