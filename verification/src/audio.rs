//! Audio bookkeeping: the mixer channels and the list of playing sound
//! instances (which sound, on which channel, still alive or not). Volumes,
//! fades and spatial attenuation are the mixer's part and ride along with
//! each instance as its `mix` data.

use vstd::prelude::*;

verus! {

/// Master volume channels.
#[derive(Debug, Clone, Copy, PartialEq, Eq, Hash, Structural)]
pub enum AudioChannel {
    /// Sound effects channel.
    Sfx,
    /// Music channel.
    Music,
    /// UI sounds channel.
    Ui,
    /// Ambient / environment channel.
    Ambient,
}

/// A currently-playing sound instance.
#[derive(Debug, Clone)]
pub struct Voice<M> {
    /// Name of the sound being played.
    pub sound_name: String,
    /// Channel it plays on.
    pub channel: AudioChannel,
    /// Whether this instance is still alive.
    pub alive: bool,
    /// The mixer's data for this instance (volume, fade).
    pub mix: M,
}

/// The playing sound instances, in the order they were started.
#[derive(Debug)]
pub struct Voices<M> {
    instances: Vec<Voice<M>>,
}

/// `v` marked stopped when `stop_it` holds.
pub open spec fn stopped_if<M>(v: Voice<M>, stop_it: bool) -> Voice<M> {
    Voice { alive: v.alive && !stop_it, ..v }
}

/// Number of alive instances in `s`.
pub open spec fn alive_count<M>(s: Seq<Voice<M>>) -> nat
    decreases s.len(),
{
    if s.len() == 0 {
        0
    } else {
        alive_count(s.drop_last()) + if s.last().alive {
            1nat
        } else {
            0nat
        }
    }
}

/// The alive instances of `s`, in order.
pub open spec fn alive_only<M>(s: Seq<Voice<M>>) -> Seq<Voice<M>>
    decreases s.len(),
{
    if s.len() == 0 {
        s
    } else if s.last().alive {
        alive_only(s.drop_last()).push(s.last())
    } else {
        alive_only(s.drop_last())
    }
}

/// Whether some alive instance of `s` plays the sound named `name`.
pub open spec fn plays<M>(s: Seq<Voice<M>>, name: Seq<char>) -> bool {
    exists|i: int| 0 <= i < s.len() && s[i].alive && #[trigger] s[i].sound_name@ == name
}

proof fn lemma_skip_step<A>(a: Seq<A>, b: Seq<A>, i: int, k: int)
    requires
        0 <= i < a.len(),
        0 <= k <= b.len(),
        a.skip(i) == b.skip(k),
    ensures
        a.skip(i + 1) == b.skip(k + 1),
{
    assert(a.skip(i).len() == b.skip(k).len());
    assert(a.skip(i).len() == a.len() - i);
    assert(b.skip(k).len() == b.len() - k);
    assert(k < b.len());
    assert(a.skip(i + 1).len() == b.skip(k + 1).len());
    assert forall|t: int| 0 <= t < a.skip(i + 1).len() implies #[trigger] a.skip(i + 1)[t] == b.skip(k + 1)[t] by {
        assert(a.skip(i + 1)[t] == a[i + 1 + t]);
        assert(a.skip(i)[t + 1] == a[i + t + 1]);
        assert(b.skip(k + 1)[t] == b[k + 1 + t]);
        assert(b.skip(k)[t + 1] == b[k + t + 1]);
        assert(a.skip(i)[t + 1] == b.skip(k)[t + 1]);
    }
    assert(a.skip(i + 1) =~= b.skip(k + 1));
}

impl<M> View for Voices<M> {
    type V = Seq<Voice<M>>;

    closed spec fn view(&self) -> Seq<Voice<M>> {
        self.instances@
    }
}

impl<M> Voices<M> {
    /// No instances.
    pub fn new() -> (v: Self)
        ensures
            v@ == Seq::<Voice<M>>::empty(),
    {
        Voices { instances: Vec::new() }
    }

    /// Start an instance (appended at the end).
    pub fn add(&mut self, voice: Voice<M>)
        ensures
            final(self)@ == old(self)@.push(voice),
    {
        self.instances.push(voice);
    }

    /// Number of instances (alive or not).
    pub fn len(&self) -> (n: usize)
        ensures
            n == self@.len(),
    {
        self.instances.len()
    }

    /// Mutable access to instance `i`.
    pub fn voice_mut(&mut self, i: usize) -> (r: &mut Voice<M>)
        requires
            i < old(self)@.len(),
        ensures
            *r == old(self)@[i as int],
            final(self)@ == old(self)@.update(i as int, *final(r)),
    {
        &mut self.instances[i]
    }

    /// Stop all instances of a named sound.
    pub fn stop(&mut self, name: &str)
        ensures
            final(self)@.len() == old(self)@.len(),
            forall|i: int|
                0 <= i < old(self)@.len() ==> #[trigger] final(self)@[i] == stopped_if(
                    old(self)@[i],
                    old(self)@[i].sound_name@ == name@,
                ),
    {
        let key = String::from_str(name);
        let mut i: usize = 0;
        while i < self.instances.len()
            invariant
                i <= self.instances@.len(),
                key@ == name@,
                self.instances@.len() == old(self)@.len(),
                forall|j: int|
                    0 <= j < i ==> #[trigger] self.instances@[j] == stopped_if(
                        old(self)@[j],
                        old(self)@[j].sound_name@ == name@,
                    ),
                forall|j: int| i <= j < self.instances@.len() ==> #[trigger] self.instances@[j] == old(self)@[j],
            decreases self.instances@.len() - i,
        {
            if self.instances[i].sound_name == key {
                self.instances[i].alive = false;
            }
            i += 1;
        }
    }

    /// Stop all instances on a channel.
    pub fn stop_channel(&mut self, channel: AudioChannel)
        ensures
            final(self)@.len() == old(self)@.len(),
            forall|i: int|
                0 <= i < old(self)@.len() ==> #[trigger] final(self)@[i] == stopped_if(
                    old(self)@[i],
                    old(self)@[i].channel == channel,
                ),
    {
        let mut i: usize = 0;
        while i < self.instances.len()
            invariant
                i <= self.instances@.len(),
                self.instances@.len() == old(self)@.len(),
                forall|j: int|
                    0 <= j < i ==> #[trigger] self.instances@[j] == stopped_if(
                        old(self)@[j],
                        old(self)@[j].channel == channel,
                    ),
                forall|j: int| i <= j < self.instances@.len() ==> #[trigger] self.instances@[j] == old(self)@[j],
            decreases self.instances@.len() - i,
        {
            if self.instances[i].channel == channel {
                self.instances[i].alive = false;
            }
            i += 1;
        }
    }

    /// Stop all sounds.
    pub fn stop_all(&mut self)
        ensures
            final(self)@.len() == old(self)@.len(),
            forall|i: int|
                0 <= i < old(self)@.len() ==> #[trigger] final(self)@[i] == stopped_if(
                    old(self)@[i],
                    true,
                ),
    {
        let mut i: usize = 0;
        while i < self.instances.len()
            invariant
                i <= self.instances@.len(),
                self.instances@.len() == old(self)@.len(),
                forall|j: int|
                    0 <= j < i ==> #[trigger] self.instances@[j] == stopped_if(old(self)@[j], true),
                forall|j: int| i <= j < self.instances@.len() ==> #[trigger] self.instances@[j] == old(self)@[j],
            decreases self.instances@.len() - i,
        {
            self.instances[i].alive = false;
            i += 1;
        }
    }

    /// Check if a named sound is currently playing.
    pub fn is_playing(&self, name: &str) -> (r: bool)
        ensures
            r == plays(self@, name@),
    {
        let key = String::from_str(name);
        let mut i: usize = 0;
        while i < self.instances.len()
            invariant
                i <= self.instances@.len(),
                key@ == name@,
                forall|j: int|
                    0 <= j < i ==> !(self.instances@[j].alive && #[trigger] self.instances@[j].sound_name@
                        == name@),
            decreases self.instances@.len() - i,
        {
            if self.instances[i].sound_name == key && self.instances[i].alive {
                return true;
            }
            i += 1;
        }
        false
    }

    /// Number of currently playing (alive) instances.
    pub fn playing_count(&self) -> (n: usize)
        ensures
            n == alive_count(self@),
    {
        let mut n: usize = 0;
        let mut i: usize = 0;
        while i < self.instances.len()
            invariant
                i <= self.instances@.len(),
                n == alive_count(self.instances@.take(i as int)),
                n <= i,
            decreases self.instances@.len() - i,
        {
            proof {
                assert(self.instances@.take(i + 1).drop_last() =~= self.instances@.take(i as int));
            }
            if self.instances[i].alive {
                n += 1;
            }
            i += 1;
        }
        proof {
            assert(self.instances@.take(i as int) =~= self.instances@);
        }
        n
    }

    /// Remove dead instances, keeping the alive ones in order.
    pub fn remove_dead(&mut self)
        ensures
            final(self)@ == alive_only(old(self)@),
    {
        let ghost all = self.instances@;
        let ghost mut k: int = 0;
        let mut i: usize = 0;
        proof {
            assert(all.take(0) =~= Seq::<Voice<M>>::empty());
            assert(self.instances@.take(0) =~= Seq::<Voice<M>>::empty());
            assert(self.instances@.skip(0) =~= all.skip(0));
        }
        while i < self.instances.len()
            invariant
                0 <= k <= all.len(),
                i <= self.instances@.len(),
                self.instances@.take(i as int) == alive_only(all.take(k)),
                self.instances@.skip(i as int) == all.skip(k),
            decreases self.instances@.len() - i,
        {
            let ghost before = self.instances@;
            proof {
                assert(before.skip(i as int).len() > 0);
                assert(all.skip(k).len() > 0);
                assert(k < all.len());
                assert(before[i as int] == before.skip(i as int)[0]);
                assert(all.take(k + 1).drop_last() =~= all.take(k));
                assert(all.take(k + 1).last() == all[k]);
                assert(all.skip(k)[0] == all[k]);
            }
            if self.instances[i].alive {
                proof {
                    assert(self.instances@.take(i + 1) =~= before.take(i as int).push(before[i as int]));
                    lemma_skip_step(before, all, i as int, k);
                    k = k + 1;
                }
                i += 1;
            } else {
                let _dead = self.instances.remove(i);
                proof {
                    assert(self.instances@.take(i as int) =~= before.take(i as int));
                    lemma_skip_step(before, all, i as int, k);
                    assert(self.instances@.skip(i as int) =~= before.skip(i + 1));
                    k = k + 1;
                }
            }
        }
        proof {
            assert(all.skip(k).len() == 0);
            assert(all.take(k) =~= all);
            assert(self.instances@.take(i as int) =~= self.instances@);
        }
    }
}


proof fn lemma_all_dead<M>(s: Seq<Voice<M>>)
    requires
        forall|i: int| 0 <= i < s.len() ==> !(#[trigger] s[i]).alive,
    ensures
        alive_count(s) == 0,
    decreases s.len(),
{
    if s.len() > 0 {
        assert(!s[s.len() - 1].alive);
        lemma_all_dead(s.drop_last());
    }
}

/// After `stop_all`, nothing is playing: no instance is alive.
pub proof fn law_stop_all_silences<M>(before: Seq<Voice<M>>, after: Seq<Voice<M>>, name: Seq<char>)
    requires
        after.len() == before.len(),
        forall|i: int| 0 <= i < before.len() ==> #[trigger] after[i] == stopped_if(before[i], true),
    ensures
        alive_count(after) == 0,
        !plays(after, name),
{
    assert forall|i: int| 0 <= i < after.len() implies !(#[trigger] after[i]).alive by {
        assert(after[i] == stopped_if(before[i], true));
    }
    lemma_all_dead(after);
}

/// After `stop(name)`, the sound named `name` is not playing, and every
/// other sound plays exactly when it did before.
pub proof fn law_stop_silences_name<M>(
    before: Seq<Voice<M>>,
    after: Seq<Voice<M>>,
    name: Seq<char>,
    other: Seq<char>,
)
    requires
        after.len() == before.len(),
        forall|i: int|
            0 <= i < before.len() ==> #[trigger] after[i] == stopped_if(
                before[i],
                before[i].sound_name@ == name,
            ),
        other != name,
    ensures
        !plays(after, name),
        plays(after, other) == plays(before, other),
{
    if plays(after, name) {
        let i = choose|i: int| 0 <= i < after.len() && after[i].alive && #[trigger] after[i].sound_name@ == name;
        assert(after[i] == stopped_if(before[i], before[i].sound_name@ == name));
    }
    if plays(before, other) {
        let i = choose|i: int| 0 <= i < before.len() && before[i].alive && #[trigger] before[i].sound_name@ == other;
        assert(after[i] == stopped_if(before[i], before[i].sound_name@ == name));
        assert(after[i].sound_name@ == other);
    }
    if plays(after, other) {
        let i = choose|i: int| 0 <= i < after.len() && after[i].alive && #[trigger] after[i].sound_name@ == other;
        assert(after[i] == stopped_if(before[i], before[i].sound_name@ == name));
        assert(before[i].sound_name@ == other);
    }
}

/// Removing dead instances keeps every alive one: the playing count is
/// unchanged and every remaining instance is alive.
pub proof fn law_remove_dead_keeps_playing<M>(s: Seq<Voice<M>>)
    ensures
        alive_count(alive_only(s)) == alive_count(s),
        alive_only(s).len() == alive_count(s),
        forall|i: int| 0 <= i < alive_only(s).len() ==> (#[trigger] alive_only(s)[i]).alive,
    decreases s.len(),
{
    if s.len() > 0 {
        law_remove_dead_keeps_playing(s.drop_last());
        let t = alive_only(s.drop_last());
        if s.last().alive {
            assert(alive_only(s) == t.push(s.last()));
            assert(alive_only(s).drop_last() =~= t);
            assert forall|i: int| 0 <= i < alive_only(s).len() implies (#[trigger] alive_only(s)[i]).alive by {
                if i < t.len() {
                    assert(alive_only(s)[i] == t[i]);
                }
            }
        }
    }
}

} // verus!
