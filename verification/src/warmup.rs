//! Warm-up tracking shared by the external market feeds: a feed counts as
//! warmed up once it has delivered `min_samples` samples (and at least one),
//! and stays so until it is reset.
use vstd::prelude::*;

verus! {

/// Sample counter of one feed.
pub struct WarmupCounter {
    sample_count: u64,
    warmed_up: bool,
    min_samples: u64,
}

/// What a `WarmupCounter` holds.
pub struct WarmupView {
    pub sample_count: nat,
    pub warmed_up: bool,
    pub min_samples: nat,
}

impl View for WarmupCounter {
    type V = WarmupView;

    closed spec fn view(&self) -> WarmupView {
        WarmupView {
            sample_count: self.sample_count as nat,
            warmed_up: self.warmed_up,
            min_samples: self.min_samples as nat,
        }
    }
}

/// A feed is warmed up exactly when it has seen at least one sample and at
/// least `min_samples` of them.
pub open spec fn warm(sample_count: nat, min_samples: nat) -> bool {
    sample_count >= 1 && sample_count >= min_samples
}

impl WarmupCounter {
    #[verifier::type_invariant]
    spec fn counts_agree(self) -> bool {
        self.warmed_up == warm(self.sample_count as nat, self.min_samples as nat)
    }

    /// A counter with no samples yet.
    pub fn new(min_samples: u64) -> (c: Self)
        ensures
            c@.sample_count == 0,
            !c@.warmed_up,
            c@.min_samples == min_samples,
    {
        WarmupCounter { sample_count: 0, warmed_up: false, min_samples }
    }

    /// Counts one more sample; the feed becomes warmed up when the count
    /// reaches `min_samples`.
    pub fn record_sample(&mut self)
        requires
            old(self)@.sample_count < u64::MAX,
        ensures
            final(self)@.sample_count == old(self)@.sample_count + 1,
            final(self)@.min_samples == old(self)@.min_samples,
            final(self)@.warmed_up == (old(self)@.warmed_up || final(self)@.sample_count
                >= final(self)@.min_samples),
    {
        proof {
            use_type_invariant(&*self);
        }
        let sample_count = self.sample_count + 1;
        let warmed_up = self.warmed_up || sample_count >= self.min_samples;
        *self = WarmupCounter { sample_count, warmed_up, min_samples: self.min_samples };
    }

    /// Whether the feed is warmed up.
    pub fn warmed_up(&self) -> (w: bool)
        ensures
            w == self@.warmed_up,
            w == warm(self@.sample_count, self@.min_samples),
    {
        proof {
            use_type_invariant(self);
        }
        self.warmed_up
    }

    /// Number of samples counted since creation or the last reset.
    pub fn sample_count(&self) -> (n: u64)
        ensures
            n == self@.sample_count,
    {
        self.sample_count
    }

    /// Samples needed before the feed counts as warmed up.
    pub fn min_samples(&self) -> (n: u64)
        ensures
            n == self@.min_samples,
    {
        self.min_samples
    }

    /// Forgets all samples (after a disconnect); the feed must warm up again.
    pub fn reset(&mut self)
        ensures
            final(self)@.sample_count == 0,
            !final(self)@.warmed_up,
            final(self)@.min_samples == old(self)@.min_samples,
    {
        *self = WarmupCounter { sample_count: 0, warmed_up: false, min_samples: self.min_samples };
    }
}

/// Once warmed up, a feed stays warmed up as samples keep coming: after
/// `extra` more samples it is still warm.
pub proof fn lemma_warm_stays_warm(sample_count: nat, min_samples: nat, extra: nat)
    requires
        warm(sample_count, min_samples),
    ensures
        warm(sample_count + extra, min_samples),
{
}

/// A feed with `min_samples` at most one warms up on its first sample; one
/// with `min_samples > 1` is cold until its `min_samples`-th sample.
pub proof fn lemma_warmup_takes_min_samples(sample_count: nat, min_samples: nat)
    ensures
        warm(sample_count, min_samples) <==> sample_count >= (if min_samples == 0 { 1 } else { min_samples }),
{
}

} // verus!
