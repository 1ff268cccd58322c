use vstd::prelude::*;

use crate::adapt_state::{AdaptState, merge_all};
use crate::stepping::{
    SteppingAlg, StepperBuilder, enabled_spec, disabled_spec, lemma_switch_commutes_with_merge,
};

verus! {

/// The adaptation states of the steppers `s`, in order.
pub open spec fn states_of<S, M, R>(s: Seq<S>) -> Seq<AdaptState> where S: SteppingAlg<M, R> {
    s.map_values(|x: S| x.adaptation())
}

/// Switching adaptation on, or off, in every one of a list of components
/// switches it for the list as a whole.
pub proof fn lemma_switch_all(states: Seq<AdaptState>)
    ensures
        merge_all(states.map_values(|a: AdaptState| enabled_spec(a))) == enabled_spec(merge_all(states)),
        merge_all(states.map_values(|a: AdaptState| disabled_spec(a))) == disabled_spec(merge_all(states)),
    decreases states.len(),
{
    if states.len() > 0 {
        let init = states.drop_last();
        lemma_switch_all(init);
        lemma_switch_commutes_with_merge(merge_all(init), states.last());
        assert(states.map_values(|a: AdaptState| enabled_spec(a)).drop_last()
            =~= init.map_values(|a: AdaptState| enabled_spec(a)));
        assert(states.map_values(|a: AdaptState| disabled_spec(a)).drop_last()
            =~= init.map_values(|a: AdaptState| disabled_spec(a)));
    }
}

/// `path` passes through the steppers `members` in order: its entry `i + 1`
/// is a move of member `i` from its entry `i`.
pub open spec fn sweeps<S, M, R>(members: Seq<S>, path: Seq<M>) -> bool where S: SteppingAlg<M, R> {
    &&& path.len() == members.len() + 1
    &&& forall|i: int| 0 <= i < members.len() ==> #[trigger] members[i].moves_to(path[i], path[i + 1])
}

/// Members that make the same moves pass along the same paths.
pub proof fn lemma_sweeps_same_moves<S, M, R>(a: Seq<S>, b: Seq<S>)
    where S: SteppingAlg<M, R>
    requires
        a.len() == b.len(),
        forall|i: int, m: M, r: M| 0 <= i < a.len() ==> #[trigger] a[i].moves_to(m, r) == b[i].moves_to(m, r),
    ensures
        forall|path: Seq<M>| #[trigger] sweeps::<S, M, R>(a, path) == sweeps::<S, M, R>(b, path),
{
    assert forall|path: Seq<M>| #[trigger] sweeps::<S, M, R>(a, path) == sweeps::<S, M, R>(b, path) by {
        if sweeps::<S, M, R>(a, path) {
            assert forall|i: int| 0 <= i < b.len() implies #[trigger] b[i].moves_to(path[i], path[i + 1]) by {
                assert(a[i].moves_to(path[i], path[i + 1]));
            }
        }
        if sweeps::<S, M, R>(b, path) {
            assert forall|i: int| 0 <= i < a.len() implies #[trigger] a[i].moves_to(path[i], path[i + 1]) by {
                assert(b[i].moves_to(path[i], path[i + 1]));
            }
        }
    }
}

/// Groups whose members make the same moves make the same moves.
pub proof fn lemma_group_same_moves<S, L, M, R>(a: Group<S, L>, b: Group<S, L>)
    where S: SteppingAlg<M, R, Score = L>, L: Copy
    requires
        a.members().len() == b.members().len(),
        forall|i: int, m: M, r: M| 0 <= i < a.members().len() ==> #[trigger] a.members()[i].moves_to(m, r)
            == b.members()[i].moves_to(m, r),
    ensures
        forall|m: M, r: M| #[trigger] a.moves_to(m, r) == b.moves_to(m, r),
{
    lemma_sweeps_same_moves::<S, M, R>(a.members(), b.members());
    assert forall|m: M, r: M| #[trigger] a.moves_to(m, r) == b.moves_to(m, r) by {
        if a.moves_to(m, r) {
            let path = choose|path: Seq<M>| #[trigger] sweeps::<S, M, R>(a.members(), path) && path[0] == m
                && path.last() == r;
            assert(sweeps::<S, M, R>(b.members(), path));
        }
        if b.moves_to(m, r) {
            let path = choose|path: Seq<M>| #[trigger] sweeps::<S, M, R>(b.members(), path) && path[0] == m
                && path.last() == r;
            assert(sweeps::<S, M, R>(a.members(), path));
        }
    }
}

/// `path` and `scores` pass through the steppers `members` in order: member
/// `i` steps from entry `i` of each to entry `i + 1`.
pub open spec fn scored_sweeps<S, L, M, R>(
    members: Seq<S>,
    path: Seq<M>,
    scores: Seq<Option<L>>,
) -> bool where S: SteppingAlg<M, R, Score = L> {
    &&& path.len() == members.len() + 1
    &&& scores.len() == members.len() + 1
    &&& forall|i: int| 0 <= i < members.len() ==> #[trigger] members[i].steps_scored(
        path[i],
        scores[i],
        path[i + 1],
        scores[i + 1],
    )
}

/// `path` passes through the prior draws of `members` in order: entry
/// `i + 1` is a draw of member `i` from entry `i`.
pub open spec fn prior_sweeps<S, M, R>(members: Seq<S>, path: Seq<M>) -> bool where S: SteppingAlg<M, R> {
    &&& path.len() == members.len() + 1
    &&& forall|i: int| 0 <= i < members.len() ==> #[trigger] members[i].draws_to(path[i], path[i + 1])
}

/// A group of steppers that act in unison: one step of the group is one
/// step of each member, in order, each handing its model and score to the
/// next. `L` is the members' score type.
#[derive(Clone)]
pub struct Group<S, L> {
    sub_steppers: Vec<S>,
    current_log_likelihood: Option<L>,
}

impl<S, L> Group<S, L> {
    /// The members of the group, in order.
    pub closed spec fn members(&self) -> Seq<S> {
        self.sub_steppers@
    }

    /// The score of the model the group last returned, if any.
    pub closed spec fn cached(&self) -> Option<L> {
        self.current_log_likelihood
    }

    /// Create a group of steppers to act in unison.
    pub fn new(sub_steppers: Vec<S>) -> (r: Self)
        ensures
            r.members() == sub_steppers@,
            r.cached() is None,
    {
        Group { sub_steppers, current_log_likelihood: None }
    }
}

impl<S, L, M, R> SteppingAlg<M, R> for Group<S, L> where S: SteppingAlg<M, R, Score = L>, L: Copy {
    type Score = L;

    open spec fn ready(&self) -> bool {
        forall|i: int| 0 <= i < self.members().len() ==> #[trigger] self.members()[i].ready()
    }

    open spec fn adaptation(&self) -> AdaptState {
        merge_all(states_of::<S, M, R>(self.members()))
    }

    /// A move of the group is a move of each member in turn.
    open spec fn moves_to(&self, m: M, r: M) -> bool {
        exists|path: Seq<M>| #[trigger] sweeps::<S, M, R>(self.members(), path) && path[0] == m
            && path.last() == r
    }

    /// A prior draw of the group is a prior draw of each member in turn.
    open spec fn draws_to(&self, m: M, r: M) -> bool {
        exists|path: Seq<M>| #[trigger] prior_sweeps::<S, M, R>(self.members(), path) && path[0] == m
            && path.last() == r
    }

    /// Each member steps from the model and score the one before it
    /// returned; the group returns what the last member returned.
    open spec fn steps_scored(&self, m: M, l: Option<L>, r: M, rl: Option<L>) -> bool {
        exists|path: Seq<M>, scores: Seq<Option<L>>|
            #[trigger] scored_sweeps::<S, L, M, R>(self.members(), path, scores) && path[0] == m
                && scores[0] == l && path.last() == r && scores.last() == rl
    }

    /// Every member is reset and no score is kept.
    open spec fn is_reset(&self) -> bool {
        &&& self.cached() is None
        &&& forall|i: int| 0 <= i < self.members().len() ==> #[trigger] self.members()[i].is_reset()
    }

    /// The group keeps the score it last returned.
    open spec fn remembers(&self, l: Option<L>) -> bool {
        self.cached() == l
    }

    fn step(&mut self, rng: &mut R, model: M) -> (r: M) {
        let current = self.current_log_likelihood;
        let (m, _) = self.step_with_log_likelihood(rng, model, current);
        m
    }

    fn step_with_log_likelihood(&mut self, rng: &mut R, model: M, log_likelihood: Option<L>) -> (r: (
        M,
        Option<L>,
    )) {
        let n = self.sub_steppers.len();
        let mut m = model;
        let mut ll = log_likelihood;
        let ghost path = seq![model];
        let ghost scores = seq![log_likelihood];
        let mut i: usize = 0;
        while i < n
            invariant
                i <= n,
                n == self.sub_steppers@.len(),
                self.sub_steppers@.len() == old(self).sub_steppers@.len(),
                forall|j: int| i <= j < n ==> #[trigger] self.members()[j] == old(self).members()[j],
                forall|j: int| 0 <= j < n ==> #[trigger] self.members()[j].ready(),
                forall|j: int| 0 <= j < n ==> #[trigger] self.members()[j].adaptation()
                    == old(self).members()[j].adaptation(),
                forall|j: int, a: M, b: M| 0 <= j < n ==> #[trigger] self.members()[j].moves_to(a, b)
                    == old(self).members()[j].moves_to(a, b),
                path.len() == i + 1,
                scores.len() == i + 1,
                path[0] == model,
                scores[0] == log_likelihood,
                path.last() == m,
                scores.last() == ll,
                forall|j: int| 0 <= j < i ==> #[trigger] old(self).members()[j].moves_to(path[j], path[j + 1]),
                forall|j: int| 0 <= j < i ==> #[trigger] old(self).members()[j].steps_scored(
                    path[j],
                    scores[j],
                    path[j + 1],
                    scores[j + 1],
                ),
            decreases n - i,
        {
            assert(self.members()[i as int].ready());
            assert(self.members()[i as int] == old(self).members()[i as int]);
            let ghost prev = m;
            let ghost prev_ll = ll;
            let (next, next_ll) = self.sub_steppers[i].step_with_log_likelihood(rng, m, ll);
            m = next;
            ll = next_ll;
            proof {
                assert(old(self).members()[i as int].moves_to(prev, m));
                assert(old(self).members()[i as int].steps_scored(prev, prev_ll, m, ll));
                path = path.push(m);
                scores = scores.push(ll);
            }
            i = i + 1;
        }
        proof {
            assert(states_of::<S, M, R>(self.members()) =~= states_of::<S, M, R>(old(self).members()));
            assert(sweeps::<S, M, R>(old(self).members(), path));
            assert(scored_sweeps::<S, L, M, R>(old(self).members(), path, scores));
            assert(path[0] == model && scores[0] == log_likelihood && path.last() == m && scores.last() == ll);
            assert(SteppingAlg::<M, R>::steps_scored(&*old(self), model, log_likelihood, m, ll));
        }
        self.current_log_likelihood = ll;
        proof {
            lemma_group_same_moves::<S, L, M, R>(*self, *old(self));
            assert(SteppingAlg::<M, R>::remembers(self, ll));
        }
        (m, ll)
    }

    fn draw_prior(&self, rng: &mut R, model: M) -> (r: M) {
        let n = self.sub_steppers.len();
        let mut m = model;
        let ghost path = seq![model];
        let mut i: usize = 0;
        while i < n
            invariant
                i <= n,
                n == self.sub_steppers@.len(),
                self.ready(),
                path.len() == i + 1,
                path[0] == model,
                path.last() == m,
                forall|j: int| 0 <= j < i ==> #[trigger] self.members()[j].draws_to(path[j], path[j + 1]),
            decreases n - i,
        {
            assert(self.members()[i as int].ready());
            let ghost prev = m;
            m = self.sub_steppers[i].draw_prior(rng, m);
            proof {
                assert(self.members()[i as int].draws_to(prev, m));
                path = path.push(m);
            }
            i = i + 1;
        }
        proof {
            assert(prior_sweeps::<S, M, R>(self.members(), path));
        }
        m
    }

    fn reset(&mut self) {
        self.current_log_likelihood = None;
        let n = self.sub_steppers.len();
        let mut i: usize = 0;
        while i < n
            invariant
                i <= n,
                n == self.sub_steppers@.len(),
                self.sub_steppers@.len() == old(self).sub_steppers@.len(),
                forall|j: int| 0 <= j < n ==> #[trigger] self.members()[j].ready(),
                forall|j: int| 0 <= j < i ==> #[trigger] self.members()[j].adaptation()
                    == disabled_spec(old(self).members()[j].adaptation()),
                forall|j: int| i <= j < n ==> #[trigger] self.members()[j].adaptation()
                    == old(self).members()[j].adaptation(),
                forall|j: int, a: M, b: M| 0 <= j < n ==> #[trigger] self.members()[j].moves_to(a, b)
                    == old(self).members()[j].moves_to(a, b),
                forall|j: int| 0 <= j < i ==> #[trigger] self.members()[j].is_reset(),
                self.current_log_likelihood is None,
            decreases n - i,
        {
            assert(self.members()[i as int].ready());
            self.sub_steppers[i].reset();
            i = i + 1;
        }
        proof {
            let old_states = states_of::<S, M, R>(old(self).members());
            lemma_switch_all(old_states);
            lemma_group_same_moves::<S, L, M, R>(*self, *old(self));
            assert(states_of::<S, M, R>(self.members())
                =~= old_states.map_values(|a: AdaptState| disabled_spec(a)));
        }
    }

    fn adapt_enable(&mut self) {
        let n = self.sub_steppers.len();
        let mut i: usize = 0;
        while i < n
            invariant
                i <= n,
                n == self.sub_steppers@.len(),
                self.sub_steppers@.len() == old(self).sub_steppers@.len(),
                forall|j: int| 0 <= j < n ==> #[trigger] self.members()[j].ready(),
                forall|j: int| 0 <= j < i ==> #[trigger] self.members()[j].adaptation()
                    == enabled_spec(old(self).members()[j].adaptation()),
                forall|j: int| i <= j < n ==> #[trigger] self.members()[j].adaptation()
                    == old(self).members()[j].adaptation(),
                forall|j: int, a: M, b: M| 0 <= j < n ==> #[trigger] self.members()[j].moves_to(a, b)
                    == old(self).members()[j].moves_to(a, b),
            decreases n - i,
        {
            assert(self.members()[i as int].ready());
            self.sub_steppers[i].adapt_enable();
            i = i + 1;
        }
        proof {
            let old_states = states_of::<S, M, R>(old(self).members());
            lemma_switch_all(old_states);
            lemma_group_same_moves::<S, L, M, R>(*self, *old(self));
            assert(states_of::<S, M, R>(self.members())
                =~= old_states.map_values(|a: AdaptState| enabled_spec(a)));
        }
    }

    fn adapt_disable(&mut self) {
        let n = self.sub_steppers.len();
        let mut i: usize = 0;
        while i < n
            invariant
                i <= n,
                n == self.sub_steppers@.len(),
                self.sub_steppers@.len() == old(self).sub_steppers@.len(),
                forall|j: int| 0 <= j < n ==> #[trigger] self.members()[j].ready(),
                forall|j: int| 0 <= j < i ==> #[trigger] self.members()[j].adaptation()
                    == disabled_spec(old(self).members()[j].adaptation()),
                forall|j: int| i <= j < n ==> #[trigger] self.members()[j].adaptation()
                    == old(self).members()[j].adaptation(),
                forall|j: int, a: M, b: M| 0 <= j < n ==> #[trigger] self.members()[j].moves_to(a, b)
                    == old(self).members()[j].moves_to(a, b),
            decreases n - i,
        {
            assert(self.members()[i as int].ready());
            self.sub_steppers[i].adapt_disable();
            i = i + 1;
        }
        proof {
            let old_states = states_of::<S, M, R>(old(self).members());
            lemma_switch_all(old_states);
            lemma_group_same_moves::<S, L, M, R>(*self, *old(self));
            assert(states_of::<S, M, R>(self.members())
                =~= old_states.map_values(|a: AdaptState| disabled_spec(a)));
        }
    }

    fn adapt_state(&self) -> (r: AdaptState) {
        let n = self.sub_steppers.len();
        let mut state = AdaptState::NotApplicable;
        let mut i: usize = 0;
        while i < n
            invariant
                i <= n,
                n == self.sub_steppers@.len(),
                state == merge_all(states_of::<S, M, R>(self.members()).take(i as int)),
            decreases n - i,
        {
            let s = self.sub_steppers[i].adapt_state();
            proof {
                let all = states_of::<S, M, R>(self.members());
                assert(all.take(i as int + 1).drop_last() =~= all.take(i as int));
                assert(all.take(i as int + 1).last() == all[i as int]);
            }
            state = state.merge(s);
            i = i + 1;
        }
        proof {
            let all = states_of::<S, M, R>(self.members());
            assert(all.take(n as int) =~= all);
        }
        state
    }
}

/// Builder for a group stepper: builds one stepper from each member
/// builder, in order.
pub struct GroupBuilder<B> {
    sub_stepper_builders: Vec<B>,
}

impl<B> GroupBuilder<B> {
    /// The member builders, in order.
    pub closed spec fn builders(&self) -> Seq<B> {
        self.sub_stepper_builders@
    }

    /// Create a builder for a group of steppers.
    pub fn new(sub_stepper_builders: Vec<B>) -> (r: Self)
        ensures
            r.builders() == sub_stepper_builders@,
    {
        GroupBuilder { sub_stepper_builders }
    }
}

impl<B, M, R> StepperBuilder<M, R> for GroupBuilder<B> where B: StepperBuilder<M, R> {
    type Stepper = Group<B::Stepper, <B::Stepper as SteppingAlg<M, R>>::Score>;

    /// One member for each member builder, built by it, in order.
    open spec fn builds(&self, s: Self::Stepper) -> bool {
        &&& s.members().len() == self.builders().len()
        &&& forall|i: int| 0 <= i < self.builders().len() ==> #[trigger] self.builders()[i].builds(
            s.members()[i],
        )
        &&& s.cached() is None
    }

    fn build(&self) -> (r: Self::Stepper) {
        let n = self.sub_stepper_builders.len();
        let mut steppers: Vec<B::Stepper> = Vec::new();
        let mut i: usize = 0;
        while i < n
            invariant
                i <= n,
                n == self.sub_stepper_builders@.len(),
                steppers@.len() == i,
                forall|j: int| 0 <= j < i ==> #[trigger] steppers@[j].ready(),
                forall|j: int| 0 <= j < i ==> #[trigger] self.builders()[j].builds(steppers@[j]),
            decreases n - i,
        {
            let s = self.sub_stepper_builders[i].build();
            steppers.push(s);
            i = i + 1;
        }
        let g = Group::new(steppers);
        assert(forall|j: int| 0 <= j < g.members().len() ==> #[trigger] g.members()[j].ready());
        g
    }
}

} // verus!
