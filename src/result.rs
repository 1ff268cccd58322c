use vstd::prelude::*;

verus! {

/// Errors from a runner failure.
#[derive(Clone, Copy, Debug, Hash, PartialEq, Eq, Structural)]
pub enum RunnerError {
    /// A chain panicked while holding the lock on shared results.
    LockFail,
}

impl RunnerError {
    /// A short description of the error.
    pub fn description(&self) -> (r: &'static str)
        ensures
            r@ == "Panic caused RWLock Failure"@,
    {
        match self {
            RunnerError::LockFail => "Panic caused RWLock Failure",
        }
    }
}

} // verus!
