//! Frame-time sampling: a fixed-size ring that keeps the most recent
//! samples, as the FPS tracker does with frame durations. Reading the clock
//! and averaging the samples are the timer's part.

use vstd::prelude::*;
use vstd::arithmetic::div_mod::{lemma_fundamental_div_mod, lemma_fundamental_div_mod_converse_mod};

verus! {

/// The mathematical state of a sample ring.
pub struct RingModel<T> {
    /// The sample slots.
    pub slots: Seq<T>,
    /// The slot the next sample goes into.
    pub next: nat,
    /// Whether every slot has been written at least once.
    pub filled: bool,
}

/// Recording a sample: it goes into the next slot, the next slot moves on
/// (wrapping around), and the ring is filled once it has wrapped.
pub open spec fn record_step<T>(m: RingModel<T>, v: T) -> RingModel<T> {
    let next = ((m.next + 1) % m.slots.len()) as nat;
    RingModel { slots: m.slots.update(m.next as int, v), next, filled: m.filled || next == 0 }
}

/// The ring after recording `xs`, first to last.
pub open spec fn recorded<T>(m: RingModel<T>, xs: Seq<T>) -> RingModel<T>
    decreases xs.len(),
{
    if xs.len() == 0 {
        m
    } else {
        record_step(recorded(m, xs.drop_last()), xs.last())
    }
}

/// How many slots hold recorded samples: all of them once filled, else
/// the ones before the next slot.
pub open spec fn window_len<T>(m: RingModel<T>) -> nat {
    if m.filled {
        m.slots.len()
    } else {
        m.next
    }
}

/// A fixed-size window of the most recent samples, kept in a ring.
#[derive(Debug)]
pub struct SampleRing<T> {
    samples: Vec<T>,
    index: usize,
    filled: bool,
}

impl<T> View for SampleRing<T> {
    type V = RingModel<T>;

    closed spec fn view(&self) -> RingModel<T> {
        RingModel { slots: self.samples@, next: self.index as nat, filled: self.filled }
    }
}

impl<T> SampleRing<T> {
    /// Well-formed: the next slot is one of the slots (so there is one).
    #[verifier::type_invariant]
    closed spec fn wf(&self) -> bool {
        self.index < self.samples@.len()
    }
}

impl<T: Copy> SampleRing<T> {
    /// A ring of `capacity` slots holding `fill`, with nothing recorded.
    pub fn new(fill: T, capacity: usize) -> (r: Self)
        requires
            capacity > 0,
        ensures
            r@ == (RingModel { slots: Seq::new(capacity as nat, |_i: int| fill), next: 0, filled: false }),
    {
        let mut samples: Vec<T> = Vec::new();
        let mut i: usize = 0;
        while i < capacity
            invariant
                i <= capacity,
                samples@ == Seq::new(i as nat, |_i: int| fill),
            decreases capacity - i,
        {
            samples.push(fill);
            i += 1;
        }
        SampleRing { samples, index: 0, filled: false }
    }

    /// Record a sample (see `record_step`).
    pub fn record(&mut self, v: T)
        ensures
            final(self)@ == record_step(old(self)@, v),
    {
        proof {
            use_type_invariant(&*self);
        }
        let len = self.samples.len();
        let at = self.index;
        let next = (at + 1) % len;
        self.index = next;
        self.samples[at] = v;
        if next == 0 {
            self.filled = true;
        }
    }

    /// How many slots hold recorded samples (see `window_len`).
    pub fn count(&self) -> (n: usize)
        ensures
            n == window_len(self@),
    {
        if self.filled {
            self.samples.len()
        } else {
            self.index
        }
    }

    /// The slots that hold recorded samples.
    pub fn window(&self) -> (w: &[T])
        ensures
            w@ == self@.slots.subrange(0, window_len(self@) as int),
    {
        proof {
            use_type_invariant(self);
        }
        let n = self.count();
        vstd::slice::slice_subrange(self.samples.as_slice(), 0, n)
    }
}

/// Counting on by one wraps around at the ring's size.
proof fn lemma_mod_step(k: int, cap: int)
    requires
        cap > 0,
        k >= 0,
    ensures
        (k + 1) % cap == if k % cap + 1 == cap {
            0
        } else {
            k % cap + 1
        },
{
    let q = k / cap;
    let r = k % cap;
    lemma_fundamental_div_mod(k, cap);
    assert(cap * q == q * cap) by (nonlinear_arith);
    if r + 1 < cap {
        lemma_fundamental_div_mod_converse_mod(k + 1, cap, q, r + 1);
    } else {
        assert((q + 1) * cap == q * cap + cap) by (nonlinear_arith);
        lemma_fundamental_div_mod_converse_mod(k + 1, cap, q + 1, 0);
    }
}

/// Fewer than `cap` apart, two counts land in different slots.
proof fn lemma_distinct_slots(i: int, k: int, cap: int)
    requires
        cap > 0,
        0 <= i < k < i + cap,
    ensures
        i % cap != k % cap,
{
    lemma_fundamental_div_mod(i, cap);
    lemma_fundamental_div_mod(k, cap);
    let qi = i / cap;
    let qk = k / cap;
    if i % cap == k % cap {
        assert(k - i == cap * (qk - qi)) by (nonlinear_arith)
            requires
                i == cap * qi + i % cap,
                k == cap * qk + k % cap,
                i % cap == k % cap,
        ;
        assert(false) by (nonlinear_arith)
            requires
                k - i == cap * (qk - qi),
                0 < k - i < cap,
                cap > 0,
        ;
    }
}

/// Recording into a fresh ring: after `k` samples the next slot is
/// `k mod size`, the ring is filled once `k` reaches its size, it holds
/// `min(k, size)` samples, and each of the latest `size` samples sits in
/// slot `i mod size` (so before it fills, the window is the samples in
/// order).
pub proof fn law_window_holds_latest<T>(fresh: RingModel<T>, xs: Seq<T>)
    requires
        fresh.slots.len() > 0,
        fresh.next == 0,
        !fresh.filled,
    ensures
        ({
            let m = recorded(fresh, xs);
            let cap = fresh.slots.len() as int;
            let k = xs.len() as int;
            &&& m.slots.len() == cap
            &&& m.next == k % cap
            &&& m.filled == (k >= cap)
            &&& window_len(m) == if k < cap {
                k
            } else {
                cap
            }
            &&& forall|i: int| 0 <= i < k && k - cap <= i ==> m.slots[i % cap] == xs[i]
            &&& k < cap ==> m.slots.subrange(0, k) == xs
        }),
    decreases xs.len(),
{
    let cap = fresh.slots.len() as int;
    let k = xs.len() as int;
    if k == 0 {
        vstd::arithmetic::div_mod::lemma_small_mod(0, cap as nat);
        assert(recorded(fresh, xs).slots.subrange(0, 0) =~= xs);
    } else {
        let prev = xs.drop_last();
        law_window_holds_latest(fresh, prev);
        let m0 = recorded(fresh, prev);
        let m = recorded(fresh, xs);
        assert(m == record_step(m0, xs.last()));
        lemma_mod_step(k - 1, cap);
        let r = (k - 1) % cap;
        if r + 1 < cap {
            vstd::arithmetic::div_mod::lemma_small_mod((r + 1) as nat, cap as nat);
        } else {
            vstd::arithmetic::div_mod::lemma_mod_self_0(cap);
        }
        assert(m.next == k % cap);
        if k < cap {
            vstd::arithmetic::div_mod::lemma_small_mod(k as nat, cap as nat);
        } else if k == cap {
            vstd::arithmetic::div_mod::lemma_mod_self_0(cap);
        }
        assert(m.filled == (k >= cap));
        assert forall|i: int| 0 <= i < k && k - cap <= i implies m.slots[i % cap] == xs[i] by {
            if i == k - 1 {
            } else {
                lemma_distinct_slots(i, k - 1, cap);
                assert(prev[i] == xs[i]);
            }
        }
        if k < cap {
            assert forall|i: int| 0 <= i < k implies #[trigger] m.slots[i] == xs[i] by {
                vstd::arithmetic::div_mod::lemma_small_mod(i as nat, cap as nat);
                assert(m.slots[i % cap] == xs[i]);
            }
            assert(m.slots.subrange(0, k) =~= xs);
        }
    }
}

} // verus!
