use vstd::prelude::*;

use crate::adapt_state::{AdaptState, AdaptationMode, AdaptationStatus, merge_spec};

verus! {

/// The state reached by a component in state `s` when adaptation is
/// switched on: every component that can adapt starts adapting.
pub open spec fn enabled_spec(s: AdaptState) -> AdaptState {
    match s {
        AdaptState::On | AdaptState::Off | AdaptState::Mixed => AdaptState::On,
        _ => s,
    }
}

/// The state reached by a component in state `s` when adaptation is
/// switched off: every component that can adapt stops adapting.
pub open spec fn disabled_spec(s: AdaptState) -> AdaptState {
    match s {
        AdaptState::On | AdaptState::Off | AdaptState::Mixed => AdaptState::Off,
        _ => s,
    }
}

/// Switching adaptation on, or off, commutes with merging states; so a
/// group that broadcasts the switch reaches the state that a single
/// component would.
pub proof fn lemma_switch_commutes_with_merge(a: AdaptState, b: AdaptState)
    ensures
        enabled_spec(merge_spec(a, b)) == merge_spec(enabled_spec(a), enabled_spec(b)),
        disabled_spec(merge_spec(a, b)) == merge_spec(disabled_spec(a), disabled_spec(b)),
{
}

/// `path` is a run of moves, each allowed by `step`.
pub open spec fn is_run<M>(step: spec_fn(M, M) -> bool, path: Seq<M>) -> bool {
    forall|i: int| 0 <= i < path.len() - 1 ==> #[trigger] step(path[i], path[i + 1])
}

/// Model `r` can follow model `m` after `k` moves, each allowed by `step`.
pub open spec fn reachable<M>(step: spec_fn(M, M) -> bool, m: M, k: int, r: M) -> bool {
    exists|path: Seq<M>|
        #![trigger is_run(step, path), path.len()]
        path.len() == k + 1 && path[0] == m && path[k] == r && is_run(step, path)
}

/// Every model reaches itself in zero moves.
pub proof fn lemma_reachable_zero<M>(step: spec_fn(M, M) -> bool, m: M)
    ensures
        reachable(step, m, 0, m),
{
    let path = seq![m];
    assert(is_run(step, path));
    assert(path.len() == 0 + 1 && path[0] == m && path[0int] == m);
}

/// One more allowed move extends a run of `k` moves to `k + 1`.
pub proof fn lemma_reachable_step<M>(step: spec_fn(M, M) -> bool, m: M, k: int, mid: M, r: M)
    requires
        k >= 0,
        reachable(step, m, k, mid),
        step(mid, r),
    ensures
        reachable(step, m, k + 1, r),
{
    let path = choose|path: Seq<M>|
        #![trigger is_run(step, path), path.len()]
        path.len() == k + 1 && path[0] == m && path[k] == mid && is_run(step, path);
    let longer = path.push(r);
    assert forall|i: int| 0 <= i < longer.len() - 1 implies #[trigger] step(longer[i], longer[i + 1]) by {
        if i < k {
            assert(step(path[i], path[i + 1]));
        }
    }
    assert(is_run(step, longer));
    assert(longer.len() == k + 2 && longer[0] == m && longer[k + 1] == r);
}

/// `path` is one run of moves allowed by `step` from `model`, and `r`
/// holds clones of every `thinning`-th model along it.
pub open spec fn sampled_run<M: Clone>(
    step: spec_fn(M, M) -> bool,
    model: M,
    thinning: nat,
    path: Seq<M>,
    r: Seq<M>,
) -> bool {
    &&& is_run(step, path)
    &&& path.len() == r.len() * thinning + 1
    &&& path[0] == model
    &&& forall|j: int| 0 <= j < r.len() ==> cloned(path[(j + 1) * thinning], #[trigger] r[j])
}

/// The status reported for adaptation state `s`.
pub open spec fn status_of(s: AdaptState) -> AdaptationStatus {
    match s {
        AdaptState::On => AdaptationStatus::Enabled,
        AdaptState::Off => AdaptationStatus::Disabled,
        _ => AdaptationStatus::Mixed,
    }
}

/// A stepping algorithm: a Markov kernel that moves a model of type `M`
/// one step, drawing its randomness from `R`.
pub trait SteppingAlg<M, R>: Sized {
    /// The score a step computes for a model, such as its log-likelihood;
    /// steppers composed in sequence hand it on so that it is computed
    /// once per model.
    type Score: Copy;

    /// The stepper is ready to step.
    open spec fn ready(&self) -> bool {
        true
    }

    /// The adaptation state of the stepper, which `adapt_state` reports.
    spec fn adaptation(&self) -> AdaptState;

    /// The stepper is as `reset` leaves it; said of no more than that
    /// reset happened, unless the stepper says more.
    open spec fn is_reset(&self) -> bool {
        true
    }

    /// One step of this stepper may move model `m` to `r`; any move,
    /// unless the stepper says more.
    open spec fn moves_to(&self, m: M, r: M) -> bool {
        true
    }

    /// A prior draw of this stepper may turn model `m` into `r`; any
    /// model, unless the stepper says more.
    open spec fn draws_to(&self, m: M, r: M) -> bool {
        true
    }

    /// A step from model `m` handed score `l` may return model `r` with
    /// score `rl`; any, unless the stepper says more.
    open spec fn steps_scored(&self, m: M, l: Option<Self::Score>, r: M, rl: Option<Self::Score>) -> bool {
        true
    }

    /// The stepper keeps `l` as the score of the model it last returned;
    /// holds of any score, unless the stepper says more.
    open spec fn remembers(&self, l: Option<Self::Score>) -> bool {
        true
    }

    /// Take one step with the given stepper.
    fn step(&mut self, rng: &mut R, model: M) -> (r: M)
        requires
            old(self).ready(),
        ensures
            final(self).ready(),
            final(self).adaptation() == old(self).adaptation(),
            forall|m: M, r: M| #[trigger] final(self).moves_to(m, r) == old(self).moves_to(m, r),
            old(self).moves_to(model, r),
    ;

    /// Take a step as `step` would, using `log_likelihood` as the score of
    /// `model` when it is given; returns the new model and its score, if
    /// one was computed.
    fn step_with_log_likelihood(
        &mut self,
        rng: &mut R,
        model: M,
        log_likelihood: Option<Self::Score>,
    ) -> (r: (M, Option<Self::Score>))
        requires
            old(self).ready(),
        ensures
            final(self).ready(),
            final(self).adaptation() == old(self).adaptation(),
            forall|m: M, r: M| #[trigger] final(self).moves_to(m, r) == old(self).moves_to(m, r),
            old(self).moves_to(model, r.0),
            old(self).steps_scored(model, log_likelihood, r.0, r.1),
            final(self).remembers(r.1),
    ;

    /// Update a model from the stepper's parameters' priors.
    fn draw_prior(&self, rng: &mut R, m: M) -> (r: M)
        requires
            self.ready(),
        ensures
            self.draws_to(m, r),
    ;

    /// Forget cached scores and restore the adaptation statistics the
    /// stepper was built with; adaptation is switched off.
    fn reset(&mut self)
        requires
            old(self).ready(),
        ensures
            final(self).ready(),
            final(self).adaptation() == disabled_spec(old(self).adaptation()),
            forall|m: M, r: M| #[trigger] final(self).moves_to(m, r) == old(self).moves_to(m, r),
            final(self).is_reset(),
            final(self).remembers(None),
    ;

    /// Enable adaptation.
    fn adapt_enable(&mut self)
        requires
            old(self).ready(),
        ensures
            final(self).ready(),
            final(self).adaptation() == enabled_spec(old(self).adaptation()),
            forall|m: M, r: M| #[trigger] final(self).moves_to(m, r) == old(self).moves_to(m, r),
    ;

    /// Disable adaptation.
    fn adapt_disable(&mut self)
        requires
            old(self).ready(),
        ensures
            final(self).ready(),
            final(self).adaptation() == disabled_spec(old(self).adaptation()),
            forall|m: M, r: M| #[trigger] final(self).moves_to(m, r) == old(self).moves_to(m, r),
    ;

    /// Get the adaptation state.
    fn adapt_state(&self) -> (r: AdaptState)
        ensures
            r == self.adaptation(),
    ;

    /// Switch adaptation on or off as `mode` says.
    fn set_adapt(&mut self, mode: AdaptationMode)
        requires
            old(self).ready(),
        ensures
            final(self).ready(),
            final(self).adaptation() == (match mode {
                AdaptationMode::Enabled => enabled_spec(old(self).adaptation()),
                AdaptationMode::Disabled => disabled_spec(old(self).adaptation()),
            }),
            forall|m: M, r: M| #[trigger] final(self).moves_to(m, r) == old(self).moves_to(m, r),
    {
        match mode {
            AdaptationMode::Enabled => self.adapt_enable(),
            AdaptationMode::Disabled => self.adapt_disable(),
        }
    }

    /// The adaptation state as a status: `Enabled` when on, `Disabled`
    /// when off, `Mixed` otherwise.
    fn get_adapt(&self) -> (r: AdaptationStatus)
        ensures
            r == status_of(self.adaptation()),
    {
        match self.adapt_state() {
            AdaptState::On => AdaptationStatus::Enabled,
            AdaptState::Off => AdaptationStatus::Disabled,
            _ => AdaptationStatus::Mixed,
        }
    }

    /// Take `steps` steps, each from the model the previous one returned.
    fn multiple_steps(&mut self, rng: &mut R, model: M, steps: usize) -> (r: M)
        requires
            old(self).ready(),
        ensures
            final(self).ready(),
            final(self).adaptation() == old(self).adaptation(),
            forall|m: M, r: M| #[trigger] final(self).moves_to(m, r) == old(self).moves_to(m, r),
            reachable(|a: M, b: M| old(self).moves_to(a, b), model, steps as int, r),
    {
        let ghost rel = |a: M, b: M| old(self).moves_to(a, b);
        let mut cur = model;
        proof {
            lemma_reachable_zero(rel, model);
        }
        let mut i: usize = 0;
        while i < steps
            invariant
                i <= steps,
                self.ready(),
                self.adaptation() == old(self).adaptation(),
                forall|m: M, r: M| #[trigger] self.moves_to(m, r) == old(self).moves_to(m, r),
                rel == (|a: M, b: M| old(self).moves_to(a, b)),
                reachable(rel, model, i as int, cur),
            decreases steps - i,
        {
            let ghost prev = cur;
            cur = self.step(rng, cur);
            proof {
                lemma_reachable_step(rel, model, i as int, prev, cur);
            }
            i = i + 1;
        }
        cur
    }

    /// Draw `size` models, each `thinning` steps after the previous one.
    fn sample(&mut self, rng: &mut R, model: M, size: usize, thinning: usize) -> (r: Vec<M>)
        where M: Clone
        requires
            old(self).ready(),
        ensures
            final(self).ready(),
            final(self).adaptation() == old(self).adaptation(),
            forall|m: M, r: M| #[trigger] final(self).moves_to(m, r) == old(self).moves_to(m, r),
            r.len() == size,
            exists|path: Seq<M>|
                #![trigger path.len()]
                sampled_run(
                |a: M, b: M| old(self).moves_to(a, b),
                model,
                thinning as nat,
                path,
                r@,
            ),
    {
        let ghost rel = |a: M, b: M| old(self).moves_to(a, b);
        let mut out: Vec<M> = Vec::new();
        let mut cur = model;
        let ghost mut path: Seq<M> = seq![model];
        let mut i: usize = 0;
        while i < size
            invariant
                i <= size,
                out.len() == i,
                self.ready(),
                self.adaptation() == old(self).adaptation(),
                forall|m: M, r: M| #[trigger] self.moves_to(m, r) == old(self).moves_to(m, r),
                rel == (|a: M, b: M| old(self).moves_to(a, b)),
                is_run(rel, path),
                path.len() == i * thinning + 1,
                path[0] == model,
                path.last() == cur,
                forall|j: int| 0 <= j < i ==> cloned(path[(j + 1) * thinning], #[trigger] out[j]),
            decreases size - i,
        {
            let ghost prev = cur;
            let ghost before = *self;
            cur = self.multiple_steps(rng, cur, thinning);
            proof {
                assert((|a: M, b: M| before.moves_to(a, b)) =~~= rel);
                let more = choose|p: Seq<M>|
                    #![trigger is_run(rel, p), p.len()]
                    p.len() == thinning + 1 && p[0] == prev && p[thinning as int] == cur && is_run(rel, p);
                let old_path = path;
                path = old_path + more.drop_first();
                assert forall|j: int| 0 <= j < path.len() - 1 implies #[trigger] rel(path[j], path[j + 1]) by {
                    if j < old_path.len() - 1 {
                        assert(rel(old_path[j], old_path[j + 1]));
                    } else {
                        let t = j - (old_path.len() - 1);
                        assert(rel(more[t], more[t + 1]));
                    }
                }
                assert(i * thinning + thinning == (i + 1) * thinning) by (nonlinear_arith);
                assert forall|j: int| 0 <= j < i implies cloned(path[(j + 1) * thinning], #[trigger] out[j]) by {
                    assert((j + 1) * thinning <= i * thinning) by (nonlinear_arith)
                        requires
                            j + 1 <= i,
                    ;
                    assert(path[(j + 1) * thinning] == old_path[(j + 1) * thinning]);
                }
            }
            let c = cur.clone();
            out.push(c);
            proof {
                assert(cloned(cur, out[i as int]));
            }
            i = i + 1;
        }
        proof {
            assert(sampled_run(rel, model, thinning as nat, path, out@));
        }
        out
    }
}

/// Builder for steppers: each call gives a fresh stepper, so that each
/// chain owns its own adaptation state.
pub trait StepperBuilder<M, R> {
    /// The type of stepper built.
    type Stepper: SteppingAlg<M, R>;

    /// `s` is a stepper this builder may build; any ready stepper, unless
    /// the builder says more.
    open spec fn builds(&self, s: Self::Stepper) -> bool {
        true
    }

    /// Build the stepping algorithm.
    fn build(&self) -> (r: Self::Stepper)
        ensures
            r.ready(),
            self.builds(r),
    ;
}

} // verus!
