//! Circular sample cache: a fixed-capacity ring accepting arbitrarily sized
//! chunks of incoming samples and exposing a chronologically ordered snapshot.
//!
//! The cache is generic in the sample type, so the same verified ring serves
//! integer samples and, at the capture boundary outside this crate, raw
//! floating-point samples.
//!
//! A chunk is written into the ring starting at the write cursor, wrapping,
//! and the cursor then advances past it, so the chunk's samples are always
//! the newest entries and a wrap evicts exactly the oldest ones. A snapshot
//! reads the retained samples oldest-first; until the ring has been filled
//! once, the positions never written still hold the fill value the cache was
//! constructed with and come last.

use vstd::prelude::*;
use vstd::arithmetic::div_mod::{lemma_add_mod_noop, lemma_add_mod_noop_right, lemma_mod_bound,
    lemma_mod_multiples_vanish, lemma_mod_sub_multiples_vanish, lemma_small_mod,
    lemma_sub_mod_noop};
use crate::AudioError;

verus! {

/// `a % cap` for `a` below `2 * cap`, written without `%`.
proof fn lemma_wrap_index(a: int, cap: int)
    requires
        0 < cap,
        0 <= a < 2 * cap,
    ensures
        a % cap == if a < cap {
            a
        } else {
            a - cap
        },
{
    if a < cap {
        lemma_small_mod(a as nat, cap as nat);
    } else {
        lemma_mod_sub_multiples_vanish(a, cap);
        lemma_small_mod((a - cap) as nat, cap as nat);
    }
}

/// Dropping a `%` from the left operand of a modular sum.
proof fn lemma_mod_add_left(x: int, y: int, cap: int)
    requires
        0 < cap,
    ensures
        ((x % cap) + y) % cap == (x + y) % cap,
{
    lemma_add_mod_noop_right(x % cap, y, cap);
    lemma_add_mod_noop(x, y, cap);
}

/// How far `p` sits after `start` on a ring of `n` positions, wrapping.
pub open spec fn ring_offset(p: int, start: int, n: int) -> int {
    if p >= start {
        p - start
    } else {
        p + n - start
    }
}

/// The state change one successful absorb makes: the chunk lands starting at
/// the old cursor, wrapping; the cursor advances past it; the count of
/// ever-written positions grows by the chunk length, capped at the capacity;
/// every other position keeps its sample.
pub open spec fn absorbed<T: Copy>(
    pre: CircularSampleCache<T>,
    post: CircularSampleCache<T>,
    chunk: Seq<T>,
) -> bool {
    let cap = pre.capacity_spec() as int;
    &&& post.capacity_spec() == pre.capacity_spec()
    &&& post.cursor_spec() == (pre.cursor_spec() + chunk.len()) % cap
    &&& post.filled_spec() == (if pre.filled_spec() + chunk.len() > cap {
        cap as int
    } else {
        pre.filled_spec() + chunk.len()
    })
    &&& forall|p: int|
        0 <= p < cap ==> post.ring()[p] == (if ring_offset(p, pre.cursor_spec(), cap)
            < chunk.len() {
            chunk[ring_offset(p, pre.cursor_spec(), cap)]
        } else {
            pre.ring()[p]
        })
}

/// A fixed-capacity ring buffer of samples. The write cursor sits just past
/// the most recently written sample; `filled` counts the positions written
/// at least once, capped at the capacity.
pub struct CircularSampleCache<T> {
    data: Vec<T>,
    cursor: usize,
    filled: usize,
}

impl<T: Copy> CircularSampleCache<T> {
    /// The fixed capacity, chosen at construction.
    pub closed spec fn capacity_spec(self) -> nat {
        self.data@.len()
    }

    /// The physical backing store, in ring order.
    pub closed spec fn ring(self) -> Seq<T> {
        self.data@
    }

    /// The write cursor: the position just past the most recent write.
    pub closed spec fn cursor_spec(self) -> int {
        self.cursor as int
    }

    /// How many positions have ever been written, capped at the capacity.
    pub closed spec fn filled_spec(self) -> int {
        self.filled as int
    }

    /// The cursor and fill count stay inside the nonempty ring.
    pub open spec fn wf(self) -> bool {
        &&& 0 < self.capacity_spec()
        &&& 0 <= self.cursor_spec() < self.capacity_spec()
        &&& 0 <= self.filled_spec() <= self.capacity_spec()
    }

    /// The chronological snapshot: `capacity` entries read oldest-first,
    /// starting `filled` positions before the cursor, wrapping. The retained
    /// samples come in write order; once the ring has been filled these are
    /// the `capacity` most recent samples, and before that the never-written
    /// fill positions follow them.
    pub open spec fn snapshot_spec(self) -> Seq<T> {
        let cap = self.capacity_spec() as int;
        let start = (self.cursor_spec() + cap - self.filled_spec()) % cap;
        Seq::new(self.capacity_spec(), |i: int| self.ring()[(start + i) % cap])
    }

    /// A cache of `capacity` samples, every position holding `fill`.
    pub fn new(capacity: usize, fill: T) -> (c: Self)
        requires
            capacity >= 1,
        ensures
            c.wf(),
            c.capacity_spec() == capacity,
            c.cursor_spec() == 0,
            c.filled_spec() == 0,
            c.ring() == Seq::new(capacity as nat, |i: int| fill),
    {
        let mut data: Vec<T> = Vec::new();
        let mut i: usize = 0;
        while i < capacity
            invariant
                i <= capacity,
                data@.len() == i,
                forall|k: int| 0 <= k < i ==> data@[k] == fill,
            decreases capacity - i,
        {
            data.push(fill);
            i = i + 1;
        }
        proof {
            assert(data@ =~= Seq::new(capacity as nat, |i: int| fill));
        }
        CircularSampleCache { data, cursor: 0, filled: 0 }
    }

    /// The fixed capacity.
    pub fn capacity(&self) -> (n: usize)
        ensures
            n == self.capacity_spec(),
    {
        self.data.len()
    }

    /// Absorbs one chunk: fails if the chunk is larger than the whole cache;
    /// otherwise writes the chunk at the cursor, wrapping, and advances the
    /// cursor past it, so the chunk becomes the newest entries and a wrap
    /// overwrites exactly the oldest ones.
    pub fn absorb(&mut self, chunk: &[T]) -> (r: Result<(), AudioError>)
        requires
            old(self).wf(),
        ensures
            final(self).wf(),
            final(self).capacity_spec() == old(self).capacity_spec(),
            chunk@.len() > old(self).capacity_spec() ==> r == Result::<(), AudioError>::Err(
                AudioError::OversizedChunk,
            ) && *final(self) == *old(self),
            chunk@.len() <= old(self).capacity_spec() ==> r is Ok && absorbed(
                *old(self),
                *final(self),
                chunk@,
            ),
    {
        let cap = self.data.len();
        let len = chunk.len();
        if len > cap {
            return Err(AudioError::OversizedChunk);
        }
        let start: usize = self.cursor;

        let mut i: usize = 0;
        while i < len
            invariant
                i <= len,
                len <= cap,
                len == chunk@.len(),
                cap == self.data@.len(),
                0 <= start < cap,
                start == old(self).cursor_spec(),
                self.cursor == old(self).cursor,
                self.filled == old(self).filled,
                forall|p: int|
                    0 <= p < cap && ring_offset(p, start as int, cap as int) < i
                        ==> self.data@[p] == chunk@[ring_offset(p, start as int, cap as int)],
                forall|p: int|
                    0 <= p < cap && ring_offset(p, start as int, cap as int) >= i
                        ==> self.data@[p] == old(self).ring()[p],
            decreases len - i,
        {
            let idx: usize = if i < cap - start {
                start + i
            } else {
                i - (cap - start)
            };
            assert(ring_offset(idx as int, start as int, cap as int) == i);
            self.data.set(idx, chunk[i]);
            i = i + 1;
        }

        proof {
            lemma_wrap_index(old(self).cursor_spec() + len, cap as int);
        }
        self.cursor = if len < cap - self.cursor {
            self.cursor + len
        } else {
            self.cursor - (cap - len)
        };
        self.filled = if len >= cap - self.filled {
            cap
        } else {
            self.filled + len
        };
        Ok(())
    }

    /// What one absorb does to the snapshot: the chunk forms the newest
    /// entries of the retained samples — the `chunk.len()` slots ending at
    /// index `filled` of the new snapshot — while the surviving older
    /// samples keep their order, shifted down by however many fell off the
    /// front (none until the ring is full, `chunk.len()` once it is), and
    /// any remaining never-written fill slots stay at the tail.
    pub proof fn lemma_absorb_snapshot(pre: Self, post: Self, chunk: Seq<T>)
        requires
            pre.wf(),
            chunk.len() <= pre.capacity_spec(),
            absorbed(pre, post, chunk),
        ensures
            post.snapshot_spec().len() == pre.capacity_spec(),
            forall|i: int|
                0 <= i < pre.capacity_spec() ==> post.snapshot_spec()[i] == ({
                    let cap = pre.capacity_spec() as int;
                    let l = chunk.len() as int;
                    let f2 = if pre.filled_spec() + l > cap {
                        cap
                    } else {
                        pre.filled_spec() + l
                    };
                    let shift = pre.filled_spec() + l - f2;
                    if f2 - l <= i < f2 {
                        chunk[i - (f2 - l)]
                    } else {
                        pre.snapshot_spec()[i + shift]
                    }
                }),
    {
        let cap = pre.capacity_spec() as int;
        let l = chunk.len() as int;
        let c = pre.cursor_spec();
        let f = pre.filled_spec();
        let f2 = if f + l > cap {
            cap
        } else {
            f + l
        };
        let shift = f + l - f2;
        assert forall|i: int| 0 <= i < cap implies post.snapshot_spec()[i] == (if f2 - l <= i
            < f2 {
            chunk[i - (f2 - l)]
        } else {
            pre.snapshot_spec()[i + shift]
        }) by {
            lemma_mod_bound(c + l, cap);
            // The ring position of snapshot slot i after the absorb.
            let start2 = ((c + l) % cap + cap - f2) % cap;
            let p = (start2 + i) % cap;
            lemma_mod_bound(start2 + i, cap);
            lemma_mod_add_left(c + l, cap - f2, cap);
            lemma_mod_add_left(c + l + cap - f2, i, cap);
            lemma_mod_multiples_vanish(1, c + l - f2 + i, cap);
            assert(p == (c + l - f2 + i) % cap);
            // Its distance from the old cursor, where the chunk landed.
            let o = ring_offset(p, c, cap);
            lemma_wrap_index(p - c + cap, cap);
            lemma_mod_multiples_vanish(1, p - c, cap);
            lemma_small_mod(c as nat, cap as nat);
            lemma_sub_mod_noop(c + l - f2 + i, c, cap);
            assert(o == (l - f2 + i) % cap);
            if f2 - l <= i < f2 {
                lemma_small_mod((l - f2 + i) as nat, cap as nat);
                assert(o == i - (f2 - l));
            } else {
                // The slot keeps an older sample (or a fill position): the
                // one the old snapshot held `shift` slots later.
                lemma_mod_multiples_vanish(1, l - f2 + i, cap);
                if i < f2 - l {
                    lemma_small_mod((l - f2 + i + cap) as nat, cap as nat);
                } else {
                    lemma_small_mod((i - f) as nat, cap as nat);
                }
                assert(o >= l);
                let j = i + shift;
                let start1 = (c + cap - f) % cap;
                lemma_mod_add_left(c + cap - f, j, cap);
                lemma_mod_multiples_vanish(1, c - f + j, cap);
                assert((start1 + j) % cap == (c + l - f2 + i) % cap);
                assert(pre.snapshot_spec()[j] == pre.ring()[p]);
            }
        }
    }

    /// The chronological snapshot, oldest retained sample first, any
    /// never-written fill slots last. A pure read.
    pub fn snapshot(&self) -> (out: Vec<T>)
        requires
            self.wf(),
        ensures
            out@ == self.snapshot_spec(),
    {
        let cap = self.data.len();
        let start: usize = if self.filled <= self.cursor {
            self.cursor - self.filled
        } else {
            self.cursor + (cap - self.filled)
        };
        proof {
            lemma_wrap_index(self.cursor_spec() + cap - self.filled_spec(), cap as int);
        }
        let mut out: Vec<T> = Vec::new();
        let mut i: usize = 0;
        while i < cap
            invariant
                i <= cap,
                cap == self.data@.len(),
                self.wf(),
                0 <= start < cap,
                start == (self.cursor_spec() + cap - self.filled_spec()) % (cap as int),
                out@.len() == i,
                forall|k: int|
                    0 <= k < i ==> out@[k] == self.ring()[(start + k) % (cap as int)],
            decreases cap - i,
        {
            let idx: usize = if i < cap - start {
                start + i
            } else {
                i - (cap - start)
            };
            proof {
                lemma_wrap_index(start + i, cap as int);
            }
            out.push(self.data[idx]);
            i = i + 1;
        }
        proof {
            assert(out@ =~= self.snapshot_spec());
        }
        out
    }
}

} // verus!
