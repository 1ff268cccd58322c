use vstd::prelude::*;

use crate::adapt_state::AdaptState;
use crate::stepping::{SteppingAlg, StepperBuilder, disabled_spec, enabled_spec};

verus! {

/// The number of models a chain returns.
pub open spec fn chain_len(n_draws: nat, n_warmup: nat, keep_warmup: bool) -> nat {
    if keep_warmup {
        n_warmup + n_draws
    } else {
        n_draws
    }
}

/// One run of a chain from `init`: stepper state `states[i]` moved
/// `path[i]` to `path[i + 1]`, adapting through the `n_warmup` warm-up
/// steps (from adaptation state `start`) and not through the
/// `n_draws * thinning` steps after them. `r` holds, when `keep_warmup`
/// holds, clones of the models after each warm-up step, then clones of
/// every `thinning`-th model after the warm-up.
pub open spec fn chain_run<M: Clone, R, A: SteppingAlg<M, R>>(
    states: Seq<A>,
    path: Seq<M>,
    start: AdaptState,
    init: M,
    n_draws: nat,
    n_warmup: nat,
    thinning: nat,
    keep_warmup: bool,
    r: Seq<M>,
) -> bool {
    &&& states.len() == n_warmup + n_draws * thinning
    &&& path.len() == states.len() + 1
    &&& path[0] == init
    &&& forall|i: int| 0 <= i < states.len() ==> #[trigger] states[i].moves_to(path[i], path[i + 1])
    &&& forall|i: int| 0 <= i < n_warmup ==> #[trigger] states[i].adaptation() == enabled_spec(start)
    &&& forall|i: int| n_warmup <= i < states.len() ==> #[trigger] states[i].adaptation()
        == disabled_spec(enabled_spec(start))
    &&& r.len() == chain_len(n_draws, n_warmup, keep_warmup)
    &&& keep_warmup ==> forall|j: int| 0 <= j < n_warmup ==> cloned(path[j + 1], #[trigger] r[j])
    &&& forall|k: int| 0 <= k < n_draws ==> cloned(
        path[n_warmup + (k + 1) * thinning],
        #[trigger] r[r.len() - n_draws + k],
    )
}

/// Run one chain: adapt for `n_warmup` steps from `init`, then stop
/// adapting and keep every `thinning`-th model of the next
/// `n_draws * thinning` steps. The warm-up models come first in the
/// result when `keep_warmup` is set.
pub fn draw_from_stepper<M, R, A>(
    stepper: &mut A,
    rng: &mut R,
    init: M,
    n_draws: usize,
    n_warmup: usize,
    thinning: usize,
    keep_warmup: bool,
) -> (r: Vec<M>)
    where M: Clone, A: SteppingAlg<M, R>
    requires
        old(stepper).ready(),
        thinning >= 1,
    ensures
        final(stepper).ready(),
        final(stepper).adaptation() == disabled_spec(enabled_spec(old(stepper).adaptation())),
        exists|states: Seq<A>, path: Seq<M>|
            #[trigger] chain_run(
                states,
                path,
                old(stepper).adaptation(),
                init,
                n_draws as nat,
                n_warmup as nat,
                thinning as nat,
                keep_warmup,
                r@,
            ),
{
    let ghost a0 = stepper.adaptation();
    let ghost mut states: Seq<A> = Seq::empty();
    let ghost mut path: Seq<M> = seq![init];
    // Warm up
    stepper.adapt_enable();
    let mut out: Vec<M> = Vec::new();
    let mut cur = init;
    let mut i: usize = 0;
    while i < n_warmup
        invariant
            i <= n_warmup,
            stepper.ready(),
            stepper.adaptation() == enabled_spec(a0),
            states.len() == i,
            path.len() == i + 1,
            path[0] == init,
            path.last() == cur,
            forall|j: int| 0 <= j < i ==> #[trigger] states[j].moves_to(path[j], path[j + 1]),
            forall|j: int| 0 <= j < i ==> #[trigger] states[j].adaptation() == enabled_spec(a0),
            out.len() == (if keep_warmup { i as nat } else { 0 }),
            keep_warmup ==> forall|j: int| 0 <= j < i ==> cloned(path[j + 1], #[trigger] out[j]),
        decreases n_warmup - i,
    {
        proof {
            states = states.push(*stepper);
        }
        cur = stepper.step(rng, cur);
        proof {
            path = path.push(cur);
        }
        if keep_warmup {
            let c = cur.clone();
            out.push(c);
            proof {
                assert(cloned(cur, out[i as int]));
            }
        }
        i = i + 1;
    }

    // Draw the sample from the chain
    stepper.adapt_disable();
    let base = out.len();
    let mut k: usize = 0;
    while k < n_draws
        invariant
            k <= n_draws,
            thinning >= 1,
            base == (if keep_warmup { n_warmup as nat } else { 0 }),
            stepper.ready(),
            stepper.adaptation() == disabled_spec(enabled_spec(a0)),
            states.len() == n_warmup + k * thinning,
            path.len() == states.len() + 1,
            path[0] == init,
            path.last() == cur,
            forall|j: int| 0 <= j < states.len() ==> #[trigger] states[j].moves_to(path[j], path[j + 1]),
            forall|j: int| 0 <= j < n_warmup ==> #[trigger] states[j].adaptation() == enabled_spec(a0),
            forall|j: int| n_warmup <= j < states.len() ==> #[trigger] states[j].adaptation()
                == disabled_spec(enabled_spec(a0)),
            out.len() == base + k,
            keep_warmup ==> forall|j: int| 0 <= j < n_warmup ==> cloned(path[j + 1], #[trigger] out[j]),
            forall|j: int| 0 <= j < k ==> cloned(
                path[n_warmup + (j + 1) * thinning],
                #[trigger] out[base + j],
            ),
        decreases n_draws - k,
    {
        let mut q: usize = 0;
        while q < thinning
            invariant
                q <= thinning,
                stepper.ready(),
                stepper.adaptation() == disabled_spec(enabled_spec(a0)),
                states.len() == n_warmup + k * thinning + q,
                path.len() == states.len() + 1,
                path[0] == init,
                path.last() == cur,
                forall|j: int| 0 <= j < states.len() ==> #[trigger] states[j].moves_to(path[j], path[j + 1]),
                forall|j: int| 0 <= j < n_warmup ==> #[trigger] states[j].adaptation() == enabled_spec(a0),
                forall|j: int| n_warmup <= j < states.len() ==> #[trigger] states[j].adaptation()
                    == disabled_spec(enabled_spec(a0)),
                out.len() == base + k,
                keep_warmup ==> forall|j: int| 0 <= j < n_warmup ==> cloned(path[j + 1], #[trigger] out[j]),
                forall|j: int| 0 <= j < k ==> cloned(
                    path[n_warmup + (j + 1) * thinning],
                    #[trigger] out[base + j],
                ),
            decreases thinning - q,
        {
            proof {
                states = states.push(*stepper);
            }
            cur = stepper.step(rng, cur);
            proof {
                let ghost before = path;
                path = path.push(cur);
                assert forall|j: int| 0 <= j < k implies cloned(
                    path[n_warmup + (j + 1) * thinning],
                    #[trigger] out[base + j],
                ) by {
                    assert((j + 1) * thinning <= k * thinning) by (nonlinear_arith)
                        requires
                            j + 1 <= k,
                            thinning >= 1,
                    ;
                    assert(path[n_warmup + (j + 1) * thinning] == before[n_warmup + (j + 1) * thinning]);
                }
            }
            q = q + 1;
        }
        let c = cur.clone();
        out.push(c);
        proof {
            assert(n_warmup + k * thinning + thinning == n_warmup + (k + 1) * thinning) by (nonlinear_arith);
            assert(cloned(cur, out[base + k]));
        }
        k = k + 1;
    }
    proof {
        assert(chain_run(
            states,
            path,
            a0,
            init,
            n_draws as nat,
            n_warmup as nat,
            thinning as nat,
            keep_warmup,
            out@,
        ));
    }
    out
}

/// `start` is a first model that stepper `s` may begin a chain from under
/// `mode`: a clone of the provided model, or a prior draw of `s`.
pub open spec fn starts_at<M: Clone, R, A: SteppingAlg<M, R>>(
    s: A,
    mode: InitializationMode<M>,
    start: M,
) -> bool {
    match mode {
        InitializationMode::Provided(m0) => cloned(m0, start),
        InitializationMode::DrawFromPrior => exists|d: M| #[trigger] s.draws_to(d, start),
    }
}

/// How each chain obtains its first model.
#[derive(Clone)]
pub enum InitializationMode<M> {
    /// Draw from the priors of the steppers' parameters
    DrawFromPrior,
    /// Start from the given model
    Provided(M),
}

/// `b` holds a clone of what `a` holds.
pub open spec fn init_cloned<M: Clone>(a: InitializationMode<M>, b: InitializationMode<M>) -> bool {
    match (a, b) {
        (InitializationMode::DrawFromPrior, InitializationMode::DrawFromPrior) => true,
        (InitializationMode::Provided(x), InitializationMode::Provided(y)) => cloned(x, y),
        _ => false,
    }
}

fn clone_init<M: Clone>(init: &InitializationMode<M>) -> (r: InitializationMode<M>)
    ensures
        init_cloned(*init, r),
{
    match init {
        InitializationMode::DrawFromPrior => InitializationMode::DrawFromPrior,
        InitializationMode::Provided(m) => InitializationMode::Provided(m.clone()),
    }
}

/// Runner for drawing a sample from a posterior, with one stepper built
/// for each chain.
#[derive(Clone)]
pub struct Runner<'a, M, B> {
    draws: usize,
    warm_up: usize,
    thinning: usize,
    chains: usize,
    builder: &'a B,
    init: InitializationMode<M>,
    keep_warm_up: bool,
}

impl<'a, M: Clone, B> Runner<'a, M, B> {
    /// The number of models drawn from each chain after warm-up.
    pub closed spec fn spec_draws(&self) -> nat {
        self.draws as nat
    }

    /// The number of adapting warm-up steps.
    pub closed spec fn spec_warm_up(&self) -> nat {
        self.warm_up as nat
    }

    /// The number of steps between kept models.
    pub closed spec fn spec_thinning(&self) -> nat {
        self.thinning as nat
    }

    /// The number of chains.
    pub closed spec fn spec_chains(&self) -> nat {
        self.chains as nat
    }

    /// Whether warm-up models are kept in the sample.
    pub closed spec fn spec_keep_warm_up(&self) -> bool {
        self.keep_warm_up
    }

    /// How each chain starts.
    pub closed spec fn spec_init(&self) -> InitializationMode<M> {
        self.init
    }

    /// The builder of each chain's stepper.
    pub closed spec fn spec_builder(&self) -> &'a B {
        self.builder
    }

    /// At least one chain, and at least one step between kept models.
    pub open spec fn wf(&self) -> bool {
        self.spec_thinning() >= 1 && self.spec_chains() >= 1
    }

    /// The builder is the one of `other`, and the first model a clone of
    /// its own.
    pub open spec fn same_but(&self, other: &Self) -> bool {
        &&& self.spec_builder() == other.spec_builder()
        &&& init_cloned(other.spec_init(), self.spec_init())
    }

    /// Create a new runner: 1 chain, 1000 warm-up steps, 2000 draws,
    /// no thinning, warm-up discarded, first model drawn from the priors.
    pub fn new(builder: &'a B) -> (r: Self)
        ensures
            r.wf(),
            r.spec_builder() == builder,
            r.spec_draws() == 2000,
            r.spec_warm_up() == 1000,
            r.spec_thinning() == 1,
            r.spec_chains() == 1,
            r.spec_init() == InitializationMode::<M>::DrawFromPrior,
            !r.spec_keep_warm_up(),
    {
        Runner {
            builder,
            draws: 2000,
            warm_up: 1000,
            thinning: 1,
            chains: 1,
            init: InitializationMode::DrawFromPrior,
            keep_warm_up: false,
        }
    }

    /// Whether the settings are usable: at least one chain and at least
    /// one step between kept models.
    pub fn is_valid(&self) -> (r: bool)
        ensures
            r == self.wf(),
    {
        self.thinning >= 1 && self.chains >= 1
    }

    /// The number of chains to run.
    pub fn chain_count(&self) -> (r: usize)
        ensures
            r == self.spec_chains(),
    {
        self.chains
    }

    /// Set the size of the sample to draw from each chain.
    pub fn draws(&self, samples: usize) -> (r: Self)
        ensures
            r.same_but(self),
            r.spec_draws() == samples,
            r.spec_warm_up() == self.spec_warm_up(),
            r.spec_thinning() == self.spec_thinning(),
            r.spec_chains() == self.spec_chains(),
            r.spec_keep_warm_up() == self.spec_keep_warm_up(),
    {
        Runner { draws: samples, init: clone_init(&self.init), ..*self }
    }

    /// Set the number of warm-up (adapting) steps taken before drawing.
    pub fn warmup(&self, warmup: usize) -> (r: Self)
        ensures
            r.same_but(self),
            r.spec_draws() == self.spec_draws(),
            r.spec_warm_up() == warmup,
            r.spec_thinning() == self.spec_thinning(),
            r.spec_chains() == self.spec_chains(),
            r.spec_keep_warm_up() == self.spec_keep_warm_up(),
    {
        Runner { warm_up: warmup, init: clone_init(&self.init), ..*self }
    }

    /// Number of chains to draw from simultaneously.
    pub fn chains(&self, chains: usize) -> (r: Self)
        requires
            chains >= 1,
        ensures
            r.same_but(self),
            r.spec_draws() == self.spec_draws(),
            r.spec_warm_up() == self.spec_warm_up(),
            r.spec_thinning() == self.spec_thinning(),
            r.spec_chains() == chains,
            r.spec_keep_warm_up() == self.spec_keep_warm_up(),
    {
        Runner { chains, init: clone_init(&self.init), ..*self }
    }

    /// Number of steps between kept models.
    pub fn thinning(&self, thinning: usize) -> (r: Self)
        requires
            thinning >= 1,
        ensures
            r.same_but(self),
            r.spec_draws() == self.spec_draws(),
            r.spec_warm_up() == self.spec_warm_up(),
            r.spec_thinning() == thinning,
            r.spec_chains() == self.spec_chains(),
            r.spec_keep_warm_up() == self.spec_keep_warm_up(),
    {
        Runner { thinning, init: clone_init(&self.init), ..*self }
    }

    /// Include the warm-up models in the sample.
    pub fn keep_warm_up(&self) -> (r: Self)
        ensures
            r.same_but(self),
            r.spec_draws() == self.spec_draws(),
            r.spec_warm_up() == self.spec_warm_up(),
            r.spec_thinning() == self.spec_thinning(),
            r.spec_chains() == self.spec_chains(),
            r.spec_keep_warm_up(),
    {
        Runner { keep_warm_up: true, init: clone_init(&self.init), ..*self }
    }

    /// Leave the warm-up models out of the sample.
    pub fn discard_warm_up(&self) -> (r: Self)
        ensures
            r.same_but(self),
            r.spec_draws() == self.spec_draws(),
            r.spec_warm_up() == self.spec_warm_up(),
            r.spec_thinning() == self.spec_thinning(),
            r.spec_chains() == self.spec_chains(),
            !r.spec_keep_warm_up(),
    {
        Runner { keep_warm_up: false, init: clone_init(&self.init), ..*self }
    }

    /// Start every chain from `model`.
    pub fn initial_model(&self, model: M) -> (r: Self)
        ensures
            r.spec_builder() == self.spec_builder(),
            r.spec_init() == InitializationMode::Provided(model),
            r.spec_draws() == self.spec_draws(),
            r.spec_warm_up() == self.spec_warm_up(),
            r.spec_thinning() == self.spec_thinning(),
            r.spec_chains() == self.spec_chains(),
            r.spec_keep_warm_up() == self.spec_keep_warm_up(),
    {
        Runner { init: InitializationMode::Provided(model), ..*self }
    }
}

impl<'a, M: Clone + Default, B> Runner<'a, M, B> {
    /// Run one chain with its own stepper and random stream `rng`: build
    /// the stepper, take the first model as configured, then warm up and
    /// draw as `draw_from_stepper` does.
    pub fn run_chain<R>(&self, rng: &mut R) -> (r: Vec<M>)
        where B: StepperBuilder<M, R>
        requires
            self.wf(),
        ensures
            r.len() == chain_len(self.spec_draws(), self.spec_warm_up(), self.spec_keep_warm_up()),
            exists|s: B::Stepper, start: M, states: Seq<B::Stepper>, path: Seq<M>|
                #![trigger chain_run(
                    states,
                    path,
                    s.adaptation(),
                    start,
                    self.spec_draws(),
                    self.spec_warm_up(),
                    self.spec_thinning(),
                    self.spec_keep_warm_up(),
                    r@,
                )]
                self.spec_builder().builds(s) && s.ready() && starts_at(s, self.spec_init(), start)
                    && chain_run(
                    states,
                    path,
                    s.adaptation(),
                    start,
                    self.spec_draws(),
                    self.spec_warm_up(),
                    self.spec_thinning(),
                    self.spec_keep_warm_up(),
                    r@,
                ),
    {
        let mut stepper = self.builder.build();
        let ghost built = stepper;
        let init = match &self.init {
            InitializationMode::DrawFromPrior => {
                let d = M::default();
                let ghost d0 = d;
                let m = stepper.draw_prior(rng, d);
                proof {
                    assert(built.draws_to(d0, m));
                }
                m
            },
            InitializationMode::Provided(m) => m.clone(),
        };
        let ghost start = init;
        proof {
            assert(starts_at(built, self.spec_init(), start));
        }
        let out = draw_from_stepper(
            &mut stepper,
            rng,
            init,
            self.draws,
            self.warm_up,
            self.thinning,
            self.keep_warm_up,
        );
        proof {
            let (st, pa) = choose|states: Seq<B::Stepper>, path: Seq<M>| #[trigger] chain_run(
                states,
                path,
                built.adaptation(),
                start,
                self.spec_draws(),
                self.spec_warm_up(),
                self.spec_thinning(),
                self.spec_keep_warm_up(),
                out@,
            );
            assert(built.ready() && self.spec_builder().builds(built) && starts_at(
                built,
                self.spec_init(),
                start,
            ) && chain_run(
                st,
                pa,
                built.adaptation(),
                start,
                self.spec_draws(),
                self.spec_warm_up(),
                self.spec_thinning(),
                self.spec_keep_warm_up(),
                out@,
            ));
        }
        out
    }
}

} // verus!
