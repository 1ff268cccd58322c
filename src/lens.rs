use vstd::prelude::*;

verus! {

/// A container for getting and setting a value of type `T` inside a
/// struct of type `S`.
///
/// `G` reads the value out of the struct and `F` builds a new struct
/// holding the given value; neither changes its input.
#[verifier::reject_recursive_types(T)]
#[verifier::reject_recursive_types(S)]
pub struct Lens<T, S, G, F> where G: Fn(&S) -> T, F: Fn(&S, T) -> S {
    get_func: G,
    set_func: F,
    phantom: core::marker::PhantomData<(T, S)>,
}

impl<T, S, G, F> Lens<T, S, G, F> where G: Fn(&S) -> T, F: Fn(&S, T) -> S {
    /// The getter held by this lens.
    pub closed spec fn getter(&self) -> G {
        self.get_func
    }

    /// The setter held by this lens.
    pub closed spec fn setter(&self) -> F {
        self.set_func
    }

    /// The getter may be called on every struct and the setter on every
    /// struct and value.
    pub open spec fn total(&self) -> bool {
        &&& forall|s: S| #[trigger] call_requires(self.getter(), (&s,))
        &&& forall|s: S, x: T| #[trigger] call_requires(self.setter(), (&s, x))
    }

    /// `v` is what the getter returns on `s`.
    pub open spec fn gets(&self, s: S, v: T) -> bool {
        call_ensures(self.getter(), (&s,), v)
    }

    /// `r` is what the setter returns on `s` and `x`.
    pub open spec fn sets(&self, s: S, x: T, r: S) -> bool {
        call_ensures(self.setter(), (&s, x), r)
    }

    /// The lens laws: the getter reads back what the setter wrote; setting
    /// the value a struct already holds leaves it as it was; and a second
    /// set overrides the first, so that a set changes nothing but the value.
    pub open spec fn lawful(&self) -> bool {
        &&& self.total()
        &&& forall|s: S, x: T, r: S, v: T|
            #[trigger] self.sets(s, x, r) && #[trigger] self.gets(r, v) ==> v == x
        &&& forall|s: S, v: T, r: S| #[trigger] self.gets(s, v) && #[trigger] self.sets(s, v, r) ==> r == s
        &&& forall|s: S, x: T, y: T, r1: S, r2: S, r3: S|
            #[trigger] self.sets(s, x, r1) && #[trigger] self.sets(r1, y, r2) && #[trigger] self.sets(s, y, r3)
                ==> r2 == r3
    }

    /// Create a new lens with getter and setter functions.
    pub fn new(get: G, set: F) -> (r: Self)
        ensures
            r.getter() == get,
            r.setter() == set,
    {
        Lens { get_func: get, set_func: set, phantom: core::marker::PhantomData }
    }

    /// Set a value `x` in the struct `s`
    pub fn set(&self, s: &S, x: T) -> (r: S)
        requires
            self.total(),
        ensures
            self.sets(*s, x, r),
    {
        (self.set_func)(s, x)
    }

    /// Retrieve the value from `s`
    pub fn get(&self, s: &S) -> (r: T)
        requires
            self.total(),
        ensures
            self.gets(*s, r),
    {
        (self.get_func)(s)
    }

    /// Set the value `x` into `s` in place.
    pub fn set_in_place(&self, s: &mut S, x: T)
        requires
            self.total(),
        ensures
            self.sets(*old(s), x, *final(s)),
    {
        *s = self.set(s, x);
    }
}

impl<T, S, G, F> Clone for Lens<T, S, G, F> where G: Fn(&S) -> T + Clone, F: Fn(&S, T) -> S + Clone {
    fn clone(&self) -> (r: Self) {
        Lens {
            get_func: self.get_func.clone(),
            set_func: self.set_func.clone(),
            phantom: core::marker::PhantomData,
        }
    }
}

/// Reading a field back after setting it gives the value that was set.
pub proof fn lemma_get_after_set<T, S, G, F>(lens: Lens<T, S, G, F>, s: S, x: T, r: S, v: T)
    where G: Fn(&S) -> T, F: Fn(&S, T) -> S
    requires
        lens.lawful(),
        lens.sets(s, x, r),
        lens.gets(r, v),
    ensures
        v == x,
{
}

/// Setting the value a struct already holds leaves the struct as it was.
pub proof fn lemma_set_what_is_got<T, S, G, F>(lens: Lens<T, S, G, F>, s: S, v: T, r: S)
    where G: Fn(&S) -> T, F: Fn(&S, T) -> S
    requires
        lens.lawful(),
        lens.gets(s, v),
        lens.sets(s, v, r),
    ensures
        r == s,
{
}

/// Setting twice is setting once, to the second value: a set leaves every
/// part of the struct but the value as it was.
pub proof fn lemma_set_set<T, S, G, F>(lens: Lens<T, S, G, F>, s: S, x: T, y: T, r1: S, r2: S, r3: S)
    where G: Fn(&S) -> T, F: Fn(&S, T) -> S
    requires
        lens.lawful(),
        lens.sets(s, x, r1),
        lens.sets(r1, y, r2),
        lens.sets(s, y, r3),
    ensures
        r2 == r3,
{
}

} // verus!
