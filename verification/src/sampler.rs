//! A fixed-capacity rolling sample buffer.
//!
//! The buffer ingests one scalar sample per tick. While fewer samples than
//! the capacity have arrived (the fill phase), each new sample lands in the
//! next free slot and the remaining slots keep their initial fill value.
//! Once the buffer is full (steady state), every new sample evicts the
//! oldest one, so the buffer always holds the capacity-many most recent
//! samples in arrival order. Eviction is done with a ring index over fixed
//! storage, so a push costs O(1); the oldest-first reading order is part of
//! the contract, not of the storage layout.

use vstd::prelude::*;

verus! {

/// The contents that a rolling buffer of capacity `cap`, pre-filled with
/// `zero`, holds after the values of `history` have been pushed in order:
/// the `cap` most recent values (oldest first) once at least `cap` of them
/// arrived, and otherwise all pushed values followed by the untouched
/// `zero` slots.
pub open spec fn retained<T>(history: Seq<T>, cap: nat, zero: T) -> Seq<T> {
    if history.len() >= cap {
        history.subrange(history.len() - cap, history.len() as int)
    } else {
        history + Seq::new((cap - history.len()) as nat, |i: int| zero)
    }
}

/// A fixed-capacity rolling buffer of samples, oldest evicted first.
pub struct RollingSampler<T> {
    /// Fixed ring storage; its length is the capacity and never changes.
    buf: Vec<T>,
    /// Index of the oldest retained sample once the buffer is full;
    /// zero during the fill phase.
    head: usize,
    /// How many slots hold a pushed sample; saturates at the capacity.
    filled: usize,
    /// The value every slot starts out with.
    zero: T,
    /// The full sequence of pushed samples, oldest first.
    history: Ghost<Seq<T>>,
}

impl<T: Copy> RollingSampler<T> {
    /// The fixed capacity chosen at construction.
    pub closed spec fn capacity(self) -> nat {
        self.buf@.len()
    }

    /// Every sample ever pushed, in arrival order.
    pub closed spec fn history(self) -> Seq<T> {
        self.history@
    }

    /// The fill value the buffer started out with.
    pub closed spec fn zero_value(self) -> T {
        self.zero
    }

    /// What the buffer holds, oldest to newest: always `capacity` entries,
    /// determined by the push history alone.
    pub open spec fn contents(self) -> Seq<T> {
        retained(self.history(), self.capacity(), self.zero_value())
    }

    /// Oldest-to-newest readout of the ring storage.
    spec fn ring_view(self) -> Seq<T> {
        Seq::new(
            self.buf@.len(),
            |i: int|
                if self.head + i < self.buf@.len() {
                    self.buf@[self.head + i]
                } else {
                    self.buf@[self.head + i - self.buf@.len()]
                },
        )
    }

    /// The buffer's invariant: the ring storage, read oldest to newest,
    /// holds exactly what the push history dictates.
    pub closed spec fn wf(self) -> bool {
        &&& self.buf@.len() > 0
        &&& (self.head as int) < self.buf@.len()
        &&& self.filled <= self.buf@.len()
        &&& self.filled == if self.history@.len() < self.buf@.len() {
            self.history@.len()
        } else {
            self.buf@.len()
        }
        &&& (self.history@.len() < self.buf@.len() ==> self.head == 0)
        &&& self.ring_view() == self.contents()
    }

    /// Creates a buffer of `capacity` slots, all holding `zero`.
    pub fn new(capacity: usize, zero: T) -> (s: Self)
        requires
            capacity > 0,
        ensures
            s.wf(),
            s.capacity() == capacity,
            s.history() == Seq::<T>::empty(),
            s.zero_value() == zero,
    {
        let mut buf: Vec<T> = Vec::new();
        while buf.len() < capacity
            invariant
                buf@.len() <= capacity,
                forall|i: int| 0 <= i < buf@.len() ==> buf@[i] == zero,
            decreases capacity - buf@.len(),
        {
            buf.push(zero);
        }
        let s = RollingSampler { buf, head: 0usize, filled: 0usize, zero, history: Ghost(Seq::empty()) };
        proof {
            assert(s.ring_view() =~= s.contents());
        }
        s
    }

    /// Ingests one sample: fills the next free slot while below capacity,
    /// and afterwards evicts the oldest sample to make room.
    pub fn push(&mut self, value: T)
        requires
            old(self).wf(),
        ensures
            final(self).wf(),
            final(self).capacity() == old(self).capacity(),
            final(self).zero_value() == old(self).zero_value(),
            final(self).history() == old(self).history().push(value),
    {
        let cap = self.buf.len();
        if self.filled < cap {
            self.buf.set(self.filled, value);
            self.filled = self.filled + 1;
        } else {
            self.buf.set(self.head, value);
            self.head = if self.head + 1 == cap {
                0
            } else {
                self.head + 1
            };
        }
        proof {
            let h = old(self).history@;
            let capn = old(self).buf@.len() as int;
            let z = old(self).zero;
            self.history@ = h.push(value);
            let h2 = self.history@;
            if h.len() < capn {
                // Fill phase: the next free slot was written, the rest kept.
                assert forall|i: int| 0 <= i < capn implies self.ring_view()[i] == retained(
                    h2,
                    capn as nat,
                    z,
                )[i] by {
                    assert(old(self).ring_view()[i] == old(self).contents()[i]);
                }
            } else {
                // Steady state: the oldest slot was overwritten in place and
                // the ring rotated by one, so entry i now shows what entry
                // i + 1 showed before, and the last entry shows the new value.
                assert forall|i: int| 0 <= i < capn implies self.ring_view()[i] == retained(
                    h2,
                    capn as nat,
                    z,
                )[i] by {
                    if i < capn - 1 {
                        assert(old(self).ring_view()[i + 1] == old(self).contents()[i + 1]);
                    }
                }
            }
            assert(self.ring_view() =~= self.contents());
        }
    }

    /// Returns a copy of the current contents, oldest to newest.
    pub fn snapshot(&self) -> (out: Vec<T>)
        requires
            self.wf(),
        ensures
            out@ == self.contents(),
    {
        let cap = self.buf.len();
        let mut out: Vec<T> = Vec::new();
        let mut i: usize = 0;
        while i < cap
            invariant
                self.wf(),
                cap == self.buf@.len(),
                i <= cap,
                out@.len() == i,
                forall|j: int| 0 <= j < i ==> out@[j] == self.ring_view()[j],
            decreases cap - i,
        {
            let idx = if i < cap - self.head {
                self.head + i
            } else {
                i - (cap - self.head)
            };
            let x = self.buf[idx];
            out.push(x);
            i = i + 1;
        }
        proof {
            assert(out@ =~= self.contents());
        }
        out
    }
}

/// Law (fill phase): while no more samples than the capacity have been
/// pushed, the contents are the pushed samples in arrival order, followed
/// by slots that still hold the fill value.
pub proof fn lemma_fill_phase_order<T: Copy>(s: RollingSampler<T>)
    requires
        s.history().len() <= s.capacity(),
    ensures
        s.contents().len() == s.capacity(),
        forall|i: int| 0 <= i < s.history().len() ==> s.contents()[i] == s.history()[i],
        forall|i: int|
            s.history().len() <= i < s.capacity() ==> s.contents()[i] == s.zero_value(),
{
}

/// Law (steady state, first in first out): once at least capacity-many
/// samples have been pushed, the contents are exactly the capacity most
/// recent samples in arrival order; everything older was evicted,
/// oldest first.
pub proof fn lemma_steady_state_fifo<T: Copy>(s: RollingSampler<T>)
    requires
        s.history().len() >= s.capacity(),
    ensures
        s.contents().len() == s.capacity(),
        s.contents() == s.history().subrange(
            s.history().len() - s.capacity(),
            s.history().len() as int,
        ),
        forall|i: int|
            0 <= i < s.capacity() ==> s.contents()[i] == s.history()[s.history().len()
                - s.capacity() + i],
{
}

} // verus!
