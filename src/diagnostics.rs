use vstd::prelude::*;

verus! {

/// Every chain in `chains` holds `n` draws.
pub open spec fn all_of_length<T>(chains: Seq<Vec<T>>, n: nat) -> bool {
    forall|i: int| 0 <= i < chains.len() ==> #[trigger] chains[i]@.len() == n
}

/// The length shared by all chains, or `None` when there is no chain or
/// two chains differ in length; convergence diagnostics compare chains
/// only when they are of one length.
pub fn common_length<T>(chains: &Vec<Vec<T>>) -> (r: Option<usize>)
    ensures
        r matches Some(n) ==> chains@.len() > 0 && all_of_length(chains@, n as nat),
        r is None ==> chains@.len() == 0 || exists|i: int, j: int|
            0 <= i < chains@.len() && 0 <= j < chains@.len() && #[trigger] chains@[i]@.len()
                != #[trigger] chains@[j]@.len(),
{
    if chains.len() == 0 {
        return None;
    }
    let n = chains[0].len();
    let mut i: usize = 1;
    while i < chains.len()
        invariant
            1 <= i <= chains@.len(),
            n == chains@[0]@.len(),
            forall|k: int| 0 <= k < i ==> #[trigger] chains@[k]@.len() == n,
        decreases chains@.len() - i,
    {
        if chains[i].len() != n {
            assert(chains@[i as int]@.len() != chains@[0]@.len());
            return None;
        }
        i = i + 1;
    }
    Some(n)
}

} // verus!
