//! Real-time feed controller: owns one circular sample cache, takes chunks
//! from a live-capture producer, and hands chronologically ordered windows to
//! a consumer for spectral analysis.
//!
//! The capture surface itself (device negotiation, stream callbacks) lives
//! outside this crate; it delivers chunks to `update` and consults the
//! active flag that `start` and `stop` toggle. Stopping never touches the
//! cache, so an analysis window requested after a stop still reflects the
//! last fed samples.

use vstd::prelude::*;
use crate::AudioError;
use crate::cache::{CircularSampleCache, absorbed};

verus! {

/// Picks the index of the capture configuration to use from the candidates'
/// maximum sample rates, listed in the order the capture surface offers
/// them: one whose rate is the highest at or below 48 kHz, or `None` when
/// every candidate is above it.
pub fn select_input_config(max_rates: &Vec<u32>) -> (r: Option<usize>)
    ensures
        match r {
            Some(i) => {
                &&& i < max_rates@.len()
                &&& max_rates@[i as int] <= 48000
                &&& forall|k: int|
                    0 <= k < max_rates@.len() && max_rates@[k] <= 48000 ==> max_rates@[k]
                        <= max_rates@[i as int]
            },
            None => forall|k: int| 0 <= k < max_rates@.len() ==> max_rates@[k] > 48000,
        },
{
    let mut best: Option<usize> = None;
    let mut k: usize = 0;
    while k < max_rates.len()
        invariant
            k <= max_rates@.len(),
            match best {
                Some(b) => {
                    &&& b < k
                    &&& max_rates@[b as int] <= 48000
                    &&& forall|j: int|
                        0 <= j < k && max_rates@[j] <= 48000 ==> max_rates@[j]
                            <= max_rates@[b as int]
                },
                None => forall|j: int| 0 <= j < k ==> max_rates@[j] > 48000,
            },
        decreases max_rates@.len() - k,
    {
        if max_rates[k] <= 48000 {
            best = match best {
                Some(b) => if max_rates[k] > max_rates[b] {
                    Some(k)
                } else {
                    Some(b)
                },
                None => Some(k),
            };
        }
        k = k + 1;
    }
    best
}

/// A real-time analyzer feed: the cache, the negotiated sample rate, and
/// whether the capture surface is expected to be delivering chunks.
pub struct RTA<T> {
    cache: CircularSampleCache<T>,
    sample_rate: u32,
    active: bool,
}

impl<T: Copy> RTA<T> {
    /// The owned cache.
    pub closed spec fn cache_state(self) -> CircularSampleCache<T> {
        self.cache
    }

    /// The sample rate the feed was created for.
    pub closed spec fn sample_rate_spec(self) -> u32 {
        self.sample_rate
    }

    /// Whether the capture surface is expected to be delivering chunks.
    pub closed spec fn is_active(self) -> bool {
        self.active
    }

    pub open spec fn wf(self) -> bool {
        self.cache_state().wf()
    }

    /// The number of samples of one analysis window.
    pub open spec fn capacity_spec(self) -> nat {
        self.cache_state().capacity_spec()
    }

    /// The chronologically ordered window an analysis would see now.
    pub open spec fn window(self) -> Seq<T> {
        self.cache_state().snapshot_spec()
    }

    /// A stopped feed over a cache of `num_samples` samples, all `fill`.
    pub fn new(num_samples: usize, sample_rate: u32, fill: T) -> (r: Self)
        requires
            num_samples >= 1,
        ensures
            r.wf(),
            r.capacity_spec() == num_samples,
            r.sample_rate_spec() == sample_rate,
            !r.is_active(),
            r.window() == Seq::new(num_samples as nat, |i: int| fill),
    {
        let cache = CircularSampleCache::new(num_samples, fill);
        proof {
            assert forall|i: int| 0 <= i < num_samples implies cache.snapshot_spec()[i]
                == fill by {
                vstd::arithmetic::div_mod::lemma_mod_bound(i, num_samples as int);
            }
            assert(cache.snapshot_spec() =~= Seq::new(num_samples as nat, |i: int| fill));
        }
        RTA { cache, sample_rate, active: false }
    }

    /// Feeds one chunk from the producer into the cache; fails when the
    /// chunk alone is larger than the whole cache.
    pub fn update(&mut self, data: &[T]) -> (r: Result<(), AudioError>)
        requires
            old(self).wf(),
        ensures
            final(self).wf(),
            final(self).capacity_spec() == old(self).capacity_spec(),
            final(self).sample_rate_spec() == old(self).sample_rate_spec(),
            final(self).is_active() == old(self).is_active(),
            data@.len() > old(self).capacity_spec() ==> r == Result::<(), AudioError>::Err(
                AudioError::OversizedChunk,
            ) && final(self).cache_state() == old(self).cache_state(),
            data@.len() <= old(self).capacity_spec() ==> r is Ok && absorbed(
                old(self).cache_state(),
                final(self).cache_state(),
                data@,
            ),
    {
        self.cache.absorb(data)
    }

    /// The window the consumer hands to the spectral transform engine:
    /// the cache's snapshot, oldest sample first. A pure read.
    pub fn analysis_window(&self) -> (out: Vec<T>)
        requires
            self.wf(),
        ensures
            out@ == self.window(),
    {
        self.cache.snapshot()
    }

    /// Marks the feed active. The cache is untouched.
    pub fn start(&mut self)
        requires
            old(self).wf(),
        ensures
            final(self).wf(),
            final(self).cache_state() == old(self).cache_state(),
            final(self).sample_rate_spec() == old(self).sample_rate_spec(),
            final(self).is_active(),
            final(self).window() == old(self).window(),
    {
        self.active = true;
    }

    /// Marks the feed stopped. The cache is untouched, so a later analysis
    /// window equals the window before the stop.
    pub fn stop(&mut self)
        requires
            old(self).wf(),
        ensures
            final(self).wf(),
            final(self).cache_state() == old(self).cache_state(),
            final(self).sample_rate_spec() == old(self).sample_rate_spec(),
            !final(self).is_active(),
            final(self).window() == old(self).window(),
    {
        self.active = false;
    }

    /// The number of samples of one analysis window.
    pub fn cache_size(&self) -> (n: usize)
        ensures
            n == self.capacity_spec(),
    {
        self.cache.capacity()
    }

    /// The sample rate the feed was created for.
    pub fn sample_rate(&self) -> (sr: u32)
        ensures
            sr == self.sample_rate_spec(),
    {
        self.sample_rate
    }

    /// Whether the capture surface is expected to be delivering chunks.
    pub fn active(&self) -> (b: bool)
        ensures
            b == self.is_active(),
    {
        self.active
    }
}

} // verus!
