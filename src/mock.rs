use vstd::prelude::*;

use crate::adapt_state::AdaptState;
use crate::stepping::{SteppingAlg, StepperBuilder};

verus! {

/// A stepper that moves a model with a fixed update function and never
/// adapts.
#[derive(Clone)]
#[verifier::reject_recursive_types(M)]
pub struct Mock<M, F> where F: Fn(M) -> M {
    model: M,
    update: F,
    adapt: bool,
}

impl<M, F> Mock<M, F> where F: Fn(M) -> M {
    /// The update function of this stepper.
    pub closed spec fn update_fn(&self) -> F {
        self.update
    }

    /// The model this stepper was made with.
    pub closed spec fn model_spec(&self) -> M {
        self.model
    }

    /// Whether adaptation was asked for; a mock never adapts.
    pub closed spec fn adapt_spec(&self) -> bool {
        self.adapt
    }

    /// Create a mock stepper that applies `update` at each step.
    pub fn new(model: M, update: F) -> (r: Mock<M, F>)
        ensures
            r.update_fn() == update,
            r.model_spec() == model,
            !r.adapt_spec(),
    {
        Mock { model, update, adapt: false }
    }
}

impl<M, F, R> SteppingAlg<M, R> for Mock<M, F> where F: Fn(M) -> M {
    type Score = u64;

    open spec fn ready(&self) -> bool {
        forall|m: M| #[trigger] call_requires(self.update_fn(), (m,))
    }

    open spec fn adaptation(&self) -> AdaptState {
        AdaptState::NotApplicable
    }

    open spec fn moves_to(&self, m: M, r: M) -> bool {
        call_ensures(self.update_fn(), (m,), r)
    }

    open spec fn draws_to(&self, m: M, r: M) -> bool {
        r == m
    }

    open spec fn steps_scored(&self, m: M, l: Option<u64>, r: M, rl: Option<u64>) -> bool {
        rl == l
    }

    fn step(&mut self, _rng: &mut R, model: M) -> (r: M) {
        assert(call_requires(self.update_fn(), (model,)));
        (self.update)(model)
    }

    fn step_with_log_likelihood(&mut self, _rng: &mut R, model: M, log_likelihood: Option<u64>) -> (r: (
        M,
        Option<u64>,
    )) {
        assert(call_requires(self.update_fn(), (model,)));
        ((self.update)(model), log_likelihood)
    }

    fn draw_prior(&self, _rng: &mut R, model: M) -> (r: M) {
        model
    }

    fn reset(&mut self) {
    }

    fn adapt_enable(&mut self) {
    }

    fn adapt_disable(&mut self) {
    }

    fn adapt_state(&self) -> (r: AdaptState) {
        AdaptState::NotApplicable
    }
}

/// What the trait's view of a `Mock` is: ready when its update can be
/// called on every model, stepping as the update does, and drawing from
/// the prior by leaving the model as it is.
pub proof fn lemma_mock_spec<M, F, R>(mock: Mock<M, F>)
    where F: Fn(M) -> M
    ensures
        SteppingAlg::<M, R>::ready(&mock) == (forall|m: M| #[trigger] call_requires(mock.update_fn(), (m,))),
        forall|m: M, r: M| #[trigger] SteppingAlg::<M, R>::moves_to(&mock, m, r) == call_ensures(
            mock.update_fn(),
            (m,),
            r,
        ),
        forall|m: M, r: M| #[trigger] SteppingAlg::<M, R>::draws_to(&mock, m, r) == (r == m),
{
}

/// A stepper that leaves the model as it is, while keeping track of
/// whether adaptation was switched on and of how many steps it took.
pub struct MockStepper {
    adapting: bool,
    steps: u64,
}

impl MockStepper {
    /// Whether adaptation is switched on.
    pub closed spec fn is_adapting(&self) -> bool {
        self.adapting
    }

    /// The number of steps taken, saturating at the largest `u64`.
    pub closed spec fn step_count(&self) -> u64 {
        self.steps
    }

    /// A stepper that has taken no step and does not adapt.
    pub fn new() -> (r: MockStepper)
        ensures
            !r.is_adapting(),
            r.step_count() == 0,
    {
        MockStepper { adapting: false, steps: 0 }
    }

    /// The number of steps taken, saturating at the largest `u64`.
    pub fn steps_taken(&self) -> (r: u64)
        ensures
            r == self.step_count(),
    {
        self.steps
    }
}

impl<M, R> SteppingAlg<M, R> for MockStepper {
    type Score = u64;

    open spec fn ready(&self) -> bool {
        true
    }

    open spec fn adaptation(&self) -> AdaptState {
        if self.is_adapting() {
            AdaptState::On
        } else {
            AdaptState::Off
        }
    }

    open spec fn moves_to(&self, m: M, r: M) -> bool {
        r == m
    }

    open spec fn is_reset(&self) -> bool {
        !self.is_adapting() && self.step_count() == 0
    }

    open spec fn draws_to(&self, m: M, r: M) -> bool {
        r == m
    }

    open spec fn steps_scored(&self, m: M, l: Option<u64>, r: M, rl: Option<u64>) -> bool {
        rl == l
    }

    fn step(&mut self, _rng: &mut R, model: M) -> (r: M) {
        self.steps = self.steps.saturating_add(1);
        model
    }

    fn step_with_log_likelihood(&mut self, _rng: &mut R, model: M, log_likelihood: Option<u64>) -> (r: (
        M,
        Option<u64>,
    )) {
        self.steps = self.steps.saturating_add(1);
        (model, log_likelihood)
    }

    fn draw_prior(&self, _rng: &mut R, model: M) -> (r: M) {
        model
    }

    fn reset(&mut self) {
        self.adapting = false;
        self.steps = 0;
    }

    fn adapt_enable(&mut self) {
        self.adapting = true;
    }

    fn adapt_disable(&mut self) {
        self.adapting = false;
    }

    fn adapt_state(&self) -> (r: AdaptState) {
        if self.adapting {
            AdaptState::On
        } else {
            AdaptState::Off
        }
    }
}

/// What the trait's view of a `MockStepper` is: always ready, `On` or
/// `Off` as adaptation is switched, and leaving models as they are.
pub proof fn lemma_mock_stepper_spec<M, R>(s: MockStepper)
    ensures
        SteppingAlg::<M, R>::ready(&s),
        SteppingAlg::<M, R>::adaptation(&s) == (if s.is_adapting() { AdaptState::On } else { AdaptState::Off }),
        forall|m: M, r: M| #[trigger] SteppingAlg::<M, R>::moves_to(&s, m, r) == (r == m),
        forall|m: M, r: M| #[trigger] SteppingAlg::<M, R>::draws_to(&s, m, r) == (r == m),
{
}

/// Builder of `MockStepper`s.
pub struct MockBuilder {}

impl MockBuilder {
    /// Create a new builder.
    pub fn new() -> (r: MockBuilder) {
        MockBuilder {}
    }
}

impl<M, R> StepperBuilder<M, R> for MockBuilder {
    type Stepper = MockStepper;

    fn build(&self) -> (r: MockStepper) {
        MockStepper::new()
    }
}

} // verus!
