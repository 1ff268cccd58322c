use vstd::prelude::*;

use crate::adapt_state::AdaptState;
use vstd::arithmetic::div_mod::{
    lemma_add_mod_noop, lemma_mod_pos_bound, lemma_mod_self_0, lemma_small_mod,
};

verus! {

/// The batch bookkeeping of a scale adaptor that retunes once every
/// `adapt_interval` updates: how many updates the open window holds, and
/// whether adaptation is switched on.
#[derive(Clone, Copy, Debug, PartialEq, Eq, Structural)]
pub struct AdaptWindow {
    n_updates: usize,
    adapt_interval: usize,
    enabled: bool,
}

impl AdaptWindow {
    /// Updates in the open window.
    pub closed spec fn spec_n_updates(&self) -> nat {
        self.n_updates as nat
    }

    /// Updates per window.
    pub closed spec fn spec_interval(&self) -> nat {
        self.adapt_interval as nat
    }

    /// Whether updates are counted.
    pub closed spec fn spec_enabled(&self) -> bool {
        self.enabled
    }

    /// The open window is never full.
    pub open spec fn wf(&self) -> bool {
        self.spec_n_updates() < self.spec_interval() || self.spec_n_updates() == 0
    }

    /// The state of a window freshly made for `adapt_interval`.
    pub open spec fn is_fresh(&self, adapt_interval: nat) -> bool {
        &&& self.spec_n_updates() == 0
        &&& self.spec_interval() == adapt_interval
        &&& !self.spec_enabled()
    }

    /// A window that closes every `adapt_interval` updates, switched off.
    pub fn new(adapt_interval: usize) -> (r: AdaptWindow)
        ensures
            r.wf(),
            r.is_fresh(adapt_interval as nat),
    {
        AdaptWindow { n_updates: 0, adapt_interval, enabled: false }
    }

    /// Count one update. Returns whether it closed the window, which then
    /// starts again empty; a switched-off window ignores the update.
    pub fn record(&mut self) -> (closed: bool)
        requires
            old(self).wf(),
        ensures
            final(self).wf(),
            final(self).spec_interval() == old(self).spec_interval(),
            final(self).spec_enabled() == old(self).spec_enabled(),
            !old(self).spec_enabled() ==> !closed && final(self).spec_n_updates()
                == old(self).spec_n_updates(),
            old(self).spec_enabled() ==> closed == (old(self).spec_n_updates() + 1
                >= old(self).spec_interval()),
            old(self).spec_enabled() && closed ==> final(self).spec_n_updates() == 0,
            old(self).spec_enabled() && !closed ==> final(self).spec_n_updates()
                == old(self).spec_n_updates() + 1,
    {
        if self.enabled {
            self.n_updates = self.n_updates + 1;
            if self.n_updates >= self.adapt_interval {
                self.n_updates = 0;
                true
            } else {
                false
            }
        } else {
            false
        }
    }

    /// Updates counted in the open window.
    pub fn n_updates(&self) -> (r: usize)
        ensures
            r == self.spec_n_updates(),
    {
        self.n_updates
    }

    /// Updates per window.
    pub fn adapt_interval(&self) -> (r: usize)
        ensures
            r == self.spec_interval(),
    {
        self.adapt_interval
    }

    /// Switch counting on.
    pub fn enable(&mut self)
        ensures
            final(self).spec_enabled(),
            final(self).spec_n_updates() == old(self).spec_n_updates(),
            final(self).spec_interval() == old(self).spec_interval(),
    {
        self.enabled = true;
    }

    /// Switch counting off.
    pub fn disable(&mut self)
        ensures
            !final(self).spec_enabled(),
            final(self).spec_n_updates() == old(self).spec_n_updates(),
            final(self).spec_interval() == old(self).spec_interval(),
    {
        self.enabled = false;
    }

    /// `On` while counting, `Off` otherwise.
    pub fn state(&self) -> (r: AdaptState)
        ensures
            r == (if self.spec_enabled() { AdaptState::On } else { AdaptState::Off }),
    {
        if self.enabled {
            AdaptState::On
        } else {
            AdaptState::Off
        }
    }

    /// Empty the window and switch counting off, as at construction.
    pub fn reset(&mut self)
        ensures
            final(self).wf(),
            final(self).is_fresh(old(self).spec_interval()),
            forall|w: AdaptWindow| #[trigger] w.is_fresh(old(self).spec_interval()) ==> *final(self) == w,
    {
        self.n_updates = 0;
        self.enabled = false;
    }
}

/// A reset window equals a window freshly made with the same interval,
/// whatever updates came before.
pub proof fn lemma_reset_is_fresh(w: AdaptWindow, reset: AdaptWindow, fresh: AdaptWindow)
    requires
        reset.is_fresh(w.spec_interval()),
        fresh.is_fresh(w.spec_interval()),
    ensures
        reset == fresh,
{
}

/// The window's period: with an interval `k` of at least 1, if a window
/// holds `j mod k` updates after `j` updates, then update `j + 1` closes
/// it exactly when `j + 1` is a multiple of `k`, and otherwise leaves it
/// holding `(j + 1) mod k`.
pub proof fn lemma_window_period(k: nat, j: nat)
    requires
        k >= 1,
    ensures
        (j % k) + 1 >= k <==> (j + 1) % k == 0,
        (j % k) + 1 < k ==> (j + 1) % k == (j % k) + 1,
{
    lemma_mod_pos_bound(j as int, k as int);
    if k == 1 {
        assert((j + 1) % 1 == 0);
        assert(j % 1 == 0);
    } else {
        lemma_small_mod(1, k);
        lemma_add_mod_noop(j as int, 1, k as int);
        assert((((j % k) + 1) as int) % (k as int) == ((j + 1) as int) % (k as int));
        if (j % k) + 1 < k {
            lemma_small_mod(((j % k) + 1) as nat, k);
        } else {
            lemma_mod_self_0(k as int);
        }
    }
}

} // verus!
