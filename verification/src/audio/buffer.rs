//! A bounded first-in, first-out store of audio samples. When it is full the
//! oldest sample makes room for the newest, so a stalled reader loses the
//! oldest audio rather than growing without bound.

use std::collections::VecDeque;

use vstd::prelude::*;

verus! {

/// The last `cap` elements of `s` (all of `s` when it is shorter).
pub open spec fn keep_last<T>(s: Seq<T>, cap: nat) -> Seq<T> {
    if s.len() > cap {
        s.subrange(s.len() - cap, s.len() as int)
    } else {
        s
    }
}

/// Pushing samples in two pieces leaves the buffer as pushing them at once
/// would: how capture splits the audio into callbacks does not matter.
pub proof fn lemma_push_in_pieces<T>(s: Seq<T>, a: Seq<T>, b: Seq<T>, cap: nat)
    ensures
        keep_last(keep_last(s + a, cap) + b, cap) == keep_last(s + a + b, cap),
{
    let x = s + a;
    let kx = keep_last(x, cap);
    assert(x + b =~= s + a + b);
    if x.len() > cap {
        let lhs = keep_last(kx + b, cap);
        let rhs = keep_last(x + b, cap);
        assert(lhs.len() == rhs.len());
        assert forall|j: int| 0 <= j < lhs.len() implies lhs[j] == rhs[j] by {
            let off = (kx + b).len() - cap;
            if off + j < kx.len() {
                assert(lhs[j] == kx[off + j]);
                assert(kx[off + j] == x[x.len() - cap + off + j]);
            } else {
                assert(lhs[j] == b[off + j - kx.len()]);
            }
        }
        assert(lhs =~= rhs);
    }
}

/// Samples waiting to be read, at most `capacity` of them.
pub struct AudioBuffer<T> {
    samples: VecDeque<T>,
    capacity: usize,
}

impl<T> AudioBuffer<T> {
    /// The buffer has room for at least one sample and never holds more
    /// than it has room for.
    #[verifier::type_invariant]
    spec fn room_for_contents(&self) -> bool {
        self.capacity >= 1 && self.samples@.len() <= self.capacity
    }
}

impl<T: Copy> AudioBuffer<T> {
    /// The samples held, oldest first.
    pub closed spec fn contents(&self) -> Seq<T> {
        self.samples@
    }

    /// How many samples the buffer holds at most.
    pub closed spec fn limit(&self) -> nat {
        self.capacity as nat
    }

    /// An empty buffer for `capacity` samples (one at least).
    pub fn new(capacity: usize) -> (b: Self)
        ensures
            b.contents() == Seq::<T>::empty(),
            b.limit() == if capacity < 1 {
                1
            } else {
                capacity as nat
            },
    {
        let cap: usize = if capacity < 1 {
            1
        } else {
            capacity
        };
        AudioBuffer { samples: VecDeque::new(), capacity: cap }
    }

    /// Appends `samples` in order; the buffer then holds the newest
    /// `limit()` samples of what it held followed by `samples`.
    pub fn push(&mut self, samples: &[T])
        ensures
            final(self).limit() == old(self).limit(),
            final(self).contents() == keep_last(old(self).contents() + samples@, old(self).limit()),
    {
        proof {
            use_type_invariant(&*self);
        }
        let cap = self.capacity;
        let mut held: VecDeque<T> = VecDeque::new();
        std::mem::swap(&mut held, &mut self.samples);
        let ghost start = held@;
        let mut i: usize = 0;
        assert(samples@.take(0) =~= Seq::<T>::empty());
        assert(start + samples@.take(0) =~= start);
        while i < samples.len()
            invariant
                i <= samples@.len(),
                cap >= 1,
                start.len() <= cap,
                held@ == keep_last(start + samples@.take(i as int), cap as nat),
            decreases samples.len() - i,
        {
            let ghost before = held@;
            let ghost all = start + samples@.take(i as int);
            let ghost next = start + samples@.take(i + 1);
            assert(next =~= all.push(samples@[i as int]));
            if held.len() >= cap {
                held.pop_front();
            }
            held.push_back(samples[i]);
            proof {
                let c = cap as nat;
                if all.len() > c {
                    assert(before =~= all.subrange(all.len() - c, all.len() as int));
                    assert(held@ =~= next.subrange(next.len() - c, next.len() as int));
                } else if all.len() == c {
                    assert(before == all);
                    assert(held@ =~= next.subrange(next.len() - c, next.len() as int));
                } else {
                    assert(held@ =~= next);
                }
            }
            i = i + 1;
        }
        assert(samples@.take(samples@.len() as int) =~= samples@);
        self.samples = held;
    }

    /// Takes every sample held, oldest first, and leaves the buffer empty.
    pub fn drain(&mut self) -> (r: Vec<T>)
        ensures
            final(self).limit() == old(self).limit(),
            r@ == old(self).contents(),
            final(self).contents() == Seq::<T>::empty(),
    {
        proof {
            use_type_invariant(&*self);
        }
        let mut held: VecDeque<T> = VecDeque::new();
        std::mem::swap(&mut held, &mut self.samples);
        let mut r: Vec<T> = Vec::new();
        let ghost start = held@;
        while held.len() > 0
            invariant
                r@ + held@ == start,
            decreases held@.len(),
        {
            let ghost before = held@;
            match held.pop_front() {
                Some(x) => {
                    r.push(x);
                    assert(r@ + held@ =~= start) by {
                        assert(before =~= seq![x] + held@);
                    }
                },
                None => {},
            }
        }
        assert(r@ =~= start);
        r
    }

    /// How many samples are held.
    pub fn sample_count(&self) -> (n: usize)
        ensures
            n == self.contents().len(),
    {
        self.samples.len()
    }

    /// Drops every sample held.
    pub fn clear(&mut self)
        ensures
            final(self).limit() == old(self).limit(),
            final(self).contents() == Seq::<T>::empty(),
    {
        proof {
            use_type_invariant(&*self);
        }
        self.samples = VecDeque::new();
    }

    /// How many samples the buffer holds at most.
    pub fn capacity(&self) -> (n: usize)
        ensures
            n == self.limit(),
    {
        self.capacity
    }
}

} // verus!
