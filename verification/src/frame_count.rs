//! A ring of the last `N` frame timings.

use vstd::prelude::*;

verus! {

/// The last `N` samples of a per-frame measurement, written in a ring.
/// `index` is the slot that the next sample goes to; `ready` records that the
/// ring has wrapped around at least once since it was last cleared, so that
/// every slot holds a measured sample.
pub struct FrameCount<T, const N: usize> {
    pub index: usize,
    pub ready: bool,
    pub frame_ms: [T; N],
}

impl<T: Copy, const N: usize> FrameCount<T, N> {
    /// The ring is usable: it has a slot and `index` points at one.
    pub open spec fn wf(self) -> bool {
        0 < N && self.index < N
    }

    /// The ring after one `advance`.
    pub open spec fn advanced_once(self) -> Self {
        FrameCount {
            index: ((self.index + 1) % (N as int)) as usize,
            ready: self.ready || self.index + 1 == N,
            frame_ms: self.frame_ms,
        }
    }

    /// The ring after `steps` calls of `advance`.
    pub open spec fn advanced(self, steps: nat) -> Self
        decreases steps,
    {
        if steps == 0 {
            self
        } else {
            self.advanced((steps - 1) as nat).advanced_once()
        }
    }

    /// A ring whose every slot holds `initial`, at slot 0, not ready.
    pub fn new(initial: T) -> (ring: Self)
        requires
            0 < N,
        ensures
            ring.wf(),
            ring.index == 0,
            !ring.ready,
            forall|i: int| 0 <= i < N ==> #[trigger] ring.frame_ms@[i] == initial,
    {
        FrameCount { index: 0, ready: false, frame_ms: [initial; N] }
    }

    /// The number of slots.
    pub fn len(&self) -> (n: usize)
        ensures
            n == N,
    {
        N
    }

    /// Moves to the next slot, wrapping to slot 0 after the last; wrapping
    /// marks the ring ready.
    pub fn advance(&mut self)
        requires
            old(self).wf(),
        ensures
            final(self).wf(),
            *final(self) == old(self).advanced_once(),
    {
        if self.index + 1 == N {
            self.ready = true;
        }
        self.index = (self.index + 1) % N;
    }

    /// Writes a sample into the current slot.
    pub fn set_frame(&mut self, sample: T)
        requires
            old(self).wf(),
        ensures
            final(self).wf(),
            final(self).index == old(self).index,
            final(self).ready == old(self).ready,
            final(self).frame_ms@ == old(self).frame_ms@.update(old(self).index as int, sample),
    {
        self.frame_ms[self.index] = sample;
    }
}

/// Starting from slot 0 and not ready, `steps` calls of `advance` leave the
/// ring at slot `steps mod N`, and ready exactly when `steps` reaches `N`.
pub proof fn lemma_advance_wraps<T: Copy, const N: usize>(ring: FrameCount<T, N>, steps: nat)
    requires
        ring.wf(),
        ring.index == 0,
        !ring.ready,
    ensures
        ring.advanced(steps).wf(),
        ring.advanced(steps).index == steps % (N as nat),
        ring.advanced(steps).ready == (steps >= N),
        ring.advanced(steps).frame_ms == ring.frame_ms,
    decreases steps,
{
    if steps > 0 {
        let k = (steps - 1) as int;
        lemma_advance_wraps(ring, k as nat);
        let n = N as int;
        assert((k % n + 1) % n == (k + 1) % n) by {
            vstd::arithmetic::div_mod::lemma_add_mod_noop(k, 1, n);
            if n > 1 {
                vstd::arithmetic::div_mod::lemma_small_mod(1, n as nat);
            } else {
                vstd::arithmetic::div_mod::lemma_mod_bound(k % n + 1, n);
                vstd::arithmetic::div_mod::lemma_mod_bound(k + 1, n);
            }
        }
        if k < n {
            vstd::arithmetic::div_mod::lemma_small_mod(k as nat, n as nat);
        } else {
            assert(k % n < n) by {
                vstd::arithmetic::div_mod::lemma_mod_bound(k, n);
            }
            if k % n + 1 == n {
            }
        }
        if steps == n {
            vstd::arithmetic::div_mod::lemma_small_mod(k as nat, n as nat);
        }
    }
}

} // verus!
