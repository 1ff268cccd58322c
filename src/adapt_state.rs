use vstd::prelude::*;

verus! {

/// The adaptation state of an adaptor or stepper.
#[derive(Clone, Copy, Debug, PartialEq, Eq, Structural, Hash)]
pub enum AdaptState {
    /// Adaptation is enabled.
    On,
    /// Adaptation is disabled.
    Off,
    /// Some components have adaptation enabled and others disabled.
    Mixed,
    /// The adaptor or stepper has no relevant adaptation state.
    NotApplicable,
    /// Something prevents knowing the adaptation state.
    Unknown,
}

/// The state of two components taken together.
pub open spec fn merge_spec(a: AdaptState, b: AdaptState) -> AdaptState {
    match (a, b) {
        (AdaptState::Unknown, _) => AdaptState::Unknown,
        (_, AdaptState::Unknown) => AdaptState::Unknown,
        (AdaptState::NotApplicable, x) => x,
        (x, AdaptState::NotApplicable) => x,
        (AdaptState::On, AdaptState::On) => AdaptState::On,
        (AdaptState::Off, AdaptState::Off) => AdaptState::Off,
        _ => AdaptState::Mixed,
    }
}

impl AdaptState {
    /// Merge this `AdaptState` with another.
    ///
    /// This is how the state of a group of steppers is computed.
    pub fn merge(self, other: AdaptState) -> (r: AdaptState)
        ensures
            r == merge_spec(self, other),
    {
        match (self, other) {
            (AdaptState::Unknown, _) => AdaptState::Unknown,
            (_, AdaptState::Unknown) => AdaptState::Unknown,
            (AdaptState::NotApplicable, x) => x,
            (x, AdaptState::NotApplicable) => x,
            (AdaptState::On, AdaptState::On) => AdaptState::On,
            (AdaptState::Off, AdaptState::Off) => AdaptState::Off,
            _ => AdaptState::Mixed,
        }
    }
}

impl Default for AdaptState {
    /// A state that says nothing: `Unknown`.
    fn default() -> (r: AdaptState)
        ensures
            r == AdaptState::Unknown,
    {
        AdaptState::Unknown
    }
}

/// Adaptation status query result.
#[derive(Clone, Copy, Debug, PartialEq, Eq, Structural, Hash)]
pub enum AdaptationStatus {
    /// The stepper is adapting
    Enabled,
    /// The stepper is not adapting
    Disabled,
    /// The stepper's adaptation state is mixed or unknown.
    Mixed,
}

impl Default for AdaptationStatus {
    /// A status that commits to nothing: `Mixed`.
    fn default() -> (r: AdaptationStatus)
        ensures
            r == AdaptationStatus::Mixed,
    {
        AdaptationStatus::Mixed
    }
}

/// Imperative adaptation modes.
#[derive(Clone, Copy, Debug, PartialEq, Eq, Structural, Hash)]
pub enum AdaptationMode {
    /// Enable adaptation on the target stepper
    Enabled,
    /// Disable adaptation on the target stepper
    Disabled,
}

/// The state of a list of components: their states merged in order,
/// starting from `NotApplicable`.
pub open spec fn merge_all(states: Seq<AdaptState>) -> AdaptState
    decreases states.len(),
{
    if states.len() == 0 {
        AdaptState::NotApplicable
    } else {
        merge_spec(merge_all(states.drop_last()), states.last())
    }
}

/// Merging is commutative.
pub proof fn lemma_merge_commutative(a: AdaptState, b: AdaptState)
    ensures
        merge_spec(a, b) == merge_spec(b, a),
{
}

/// Merging is associative.
pub proof fn lemma_merge_associative(a: AdaptState, b: AdaptState, c: AdaptState)
    ensures
        merge_spec(merge_spec(a, b), c) == merge_spec(a, merge_spec(b, c)),
{
}

/// `NotApplicable` is the identity of merging.
pub proof fn lemma_merge_identity(a: AdaptState)
    ensures
        merge_spec(AdaptState::NotApplicable, a) == a,
        merge_spec(a, AdaptState::NotApplicable) == a,
{
}

/// The state of a group of groups is the state of all their members
/// taken as one group: merging the states of two lists merges the lists.
pub proof fn lemma_merge_all_append(a: Seq<AdaptState>, b: Seq<AdaptState>)
    ensures
        merge_all(a + b) == merge_spec(merge_all(a), merge_all(b)),
    decreases b.len(),
{
    if b.len() == 0 {
        assert(a + b =~= a);
    } else {
        let init = b.drop_last();
        lemma_merge_all_append(a, init);
        assert((a + b).drop_last() =~= a + init);
        assert((a + b).last() == b.last());
        lemma_merge_associative(merge_all(a), merge_all(init), b.last());
    }
}

} // verus!
