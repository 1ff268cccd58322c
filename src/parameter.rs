use vstd::prelude::*;

use crate::lens::Lens;

verus! {

/// Where a parameter's prior comes from, given the rest of the model `S`.
pub trait PriorSource<S> {
    /// The type of prior distribution given.
    type Dist;

    /// The source can give a prior for every model.
    open spec fn total(&self) -> bool {
        true
    }

    /// `d` is a prior that this source may give for model `s`.
    open spec fn gives(&self, s: S, d: Self::Dist) -> bool {
        true
    }

    /// The prior for model `s`.
    fn prior_for(&self, s: &S) -> (r: Self::Dist)
        requires
            self.total(),
        ensures
            self.gives(*s, r),
    ;
}

/// A prior that does not depend on the rest of the model.
#[derive(Clone, Copy, Debug)]
pub struct Independent<D>(pub D);

impl<S, D: Clone> PriorSource<S> for Independent<D> {
    type Dist = D;

    open spec fn gives(&self, s: S, d: D) -> bool {
        cloned(self.0, d)
    }

    fn prior_for(&self, _s: &S) -> (r: D) {
        self.0.clone()
    }
}

/// A prior computed afresh from the rest of the model at each use, for
/// hierarchical models.
#[derive(Clone, Copy, Debug)]
pub struct Dependent<H>(pub H);

impl<S, D, H: Fn(&S) -> D> PriorSource<S> for Dependent<H> {
    type Dist = D;

    open spec fn total(&self) -> bool {
        forall|s: S| #[trigger] call_requires(self.0, (&s,))
    }

    open spec fn gives(&self, s: S, d: D) -> bool {
        call_ensures(self.0, (&s,), d)
    }

    fn prior_for(&self, s: &S) -> (r: D) {
        assert(call_requires(self.0, (s,)));
        (self.0)(s)
    }
}

/// A named parameter of a model of type `S`: the source `P` of its prior
/// over values of type `T`, and the lens that reads and writes the value
/// in the model.
#[derive(Clone)]
#[verifier::reject_recursive_types(T)]
#[verifier::reject_recursive_types(S)]
pub struct Parameter<P, T, S, G, F> where G: Fn(&S) -> T, F: Fn(&S, T) -> S {
    /// Name of the parameter
    pub name: String,
    /// Source of the prior distribution
    pub prior: P,
    /// Lens to the value in the model
    pub lens: Lens<T, S, G, F>,
}

impl<P, T, S, G, F> Parameter<P, T, S, G, F> where G: Fn(&S) -> T, F: Fn(&S, T) -> S {
    /// Create a parameter from its name, prior source and lens.
    pub fn new(name: String, prior: P, lens: Lens<T, S, G, F>) -> (r: Self)
        ensures
            r.name == name,
            r.prior == prior,
            r.lens == lens,
    {
        Parameter { name, prior, lens }
    }

    /// The prior of the parameter in model `s`.
    pub fn prior(&self, s: &S) -> (r: P::Dist)
        where P: PriorSource<S>
        requires
            self.prior.total(),
        ensures
            self.prior.gives(*s, r),
    {
        self.prior.prior_for(s)
    }

    /// The model `s` with the parameter set to `value`, a value drawn from
    /// the prior by the caller.
    pub fn with_value(&self, s: &S, value: T) -> (r: S)
        requires
            self.lens.total(),
        ensures
            self.lens.sets(*s, value, r),
    {
        self.lens.set(s, value)
    }
}

} // verus!
