use vstd::prelude::*;

use crate::adapt_state::AdaptState;
use crate::stepping::SteppingAlg;

verus! {

/// A Markov kernel that is told at each step whether to adapt: the part
/// of a stepper that proposes, scores and tunes. `Adaptive` makes a
/// stepper of it, keeping the adaptation switch and the cached score.
pub trait SteppingKernel<M, R> {
    /// The score a step computes for a model, such as its log-likelihood.
    type Score: Copy;

    /// Take one step from `model`, using `log_likelihood` as its score when
    /// given, and tuning the proposal only when `adapting`; returns the new
    /// model and its score, if one was computed.
    fn step_with_log_likelihood(
        &mut self,
        rng: &mut R,
        model: M,
        log_likelihood: Option<Self::Score>,
        adapting: bool,
    ) -> (M, Option<Self::Score>);

    /// Update a model from the kernel's parameter's prior.
    fn draw_prior(&self, rng: &mut R, m: M) -> M;

    /// Restore the tuning statistics the kernel was built with.
    fn reset(&mut self);
}

/// A stepper made of a kernel and an adaptation switch, with the score of
/// the model it last returned.
pub struct Adaptive<K, L> {
    kernel: K,
    adapting: bool,
    cached: Option<L>,
}

impl<K, L> Adaptive<K, L> {
    /// Whether the kernel is told to adapt.
    pub closed spec fn is_adapting(&self) -> bool {
        self.adapting
    }

    /// The score of the model last returned, if any.
    pub closed spec fn cached_score(&self) -> Option<L> {
        self.cached
    }

    /// A stepper over `kernel`, not adapting, with no score kept.
    pub fn new(kernel: K) -> (r: Self)
        ensures
            !r.is_adapting(),
            r.cached_score() is None,
    {
        Adaptive { kernel, adapting: false, cached: None }
    }

    /// The kernel this stepper drives.
    pub closed spec fn inner(&self) -> K {
        self.kernel
    }

    /// The kernel.
    pub fn kernel(&self) -> (r: &K)
        ensures
            *r == self.inner(),
    {
        &self.kernel
    }
}

impl<K, L, M, R> SteppingAlg<M, R> for Adaptive<K, L> where K: SteppingKernel<M, R, Score = L>, L: Copy {
    type Score = L;

    open spec fn adaptation(&self) -> AdaptState {
        if self.is_adapting() {
            AdaptState::On
        } else {
            AdaptState::Off
        }
    }

    open spec fn is_reset(&self) -> bool {
        !self.is_adapting() && self.cached_score() is None
    }

    open spec fn remembers(&self, l: Option<L>) -> bool {
        self.cached_score() == l
    }

    fn step(&mut self, rng: &mut R, model: M) -> (r: M) {
        let (m, l) = self.kernel.step_with_log_likelihood(rng, model, self.cached, self.adapting);
        self.cached = l;
        m
    }

    fn step_with_log_likelihood(&mut self, rng: &mut R, model: M, log_likelihood: Option<L>) -> (r: (
        M,
        Option<L>,
    )) {
        let (m, l) = self.kernel.step_with_log_likelihood(rng, model, log_likelihood, self.adapting);
        self.cached = l;
        proof {
            assert(SteppingAlg::<M, R>::remembers(self, l));
        }
        (m, l)
    }

    fn draw_prior(&self, rng: &mut R, m: M) -> (r: M) {
        self.kernel.draw_prior(rng, m)
    }

    fn reset(&mut self) {
        self.kernel.reset();
        self.adapting = false;
        self.cached = None;
        proof {
            assert(SteppingAlg::<M, R>::remembers(self, None));
        }
    }

    fn adapt_enable(&mut self) {
        self.adapting = true;
    }

    fn adapt_disable(&mut self) {
        self.adapting = false;
    }

    fn adapt_state(&self) -> (r: AdaptState) {
        if self.adapting {
            AdaptState::On
        } else {
            AdaptState::Off
        }
    }
}

} // verus!
