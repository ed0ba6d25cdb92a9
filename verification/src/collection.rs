//! Helpers for lists.

use vstd::prelude::*;

verus! {

/// `items` from the last to the first.
pub fn reversed<T>(items: Vec<T>) -> (turned: Vec<T>)
    ensures
        turned@ == items@.reverse(),
{
    let ghost all = items@;
    let mut rest = items;
    let mut turned: Vec<T> = Vec::new();
    while rest.len() > 0
        invariant
            rest.len() <= all.len(),
            rest@ == all.take(rest.len() as int),
            turned@ == all.skip(rest.len() as int).reverse(),
        decreases rest.len(),
    {
        let ghost n = rest.len() as int;
        let item = rest.pop().unwrap();
        turned.push(item);
        proof {
            assert(rest@ =~= all.take(n - 1));
            assert(turned@ =~= all.skip(n - 1).reverse());
        }
    }
    proof {
        assert(all.skip(0) =~= all);
    }
    turned
}

} // verus!
