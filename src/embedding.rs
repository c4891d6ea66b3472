//! Helpers around the embedding model's batch output.

use vstd::prelude::*;

verus! {

/// The vector of a one-text batch: the first vector the model returned, or
/// an empty vector when it returned none.
pub fn first_embedding<T>(batch: Vec<Vec<T>>) -> (r: Vec<T>)
    ensures
        batch@.len() > 0 ==> r@ == batch@[0]@,
        batch@.len() == 0 ==> r@.len() == 0,
{
    let mut batch = batch;
    if batch.len() > 0 {
        batch.swap_remove(0)
    } else {
        Vec::new()
    }
}

} // verus!
