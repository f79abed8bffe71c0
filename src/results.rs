//! Combining the results of independent pieces of work.
use vstd::prelude::*;

verus! {

/// Merges two results: the first error if either failed, else both lists of
/// items, the left one first.
pub fn aggregate_results<O, E>(left: Result<Vec<O>, E>, right: Result<Vec<O>, E>) -> (r: Result<
    Vec<O>,
    E,
>)
    ensures
        left is Err ==> r == left,
        left is Ok && right is Err ==> r == right,
        left is Ok && right is Ok ==> r is Ok && r->Ok_0@ == left->Ok_0@ + right->Ok_0@,
{
    match left {
        Err(e) => Err(e),
        Ok(mut l) => match right {
            Err(e) => Err(e),
            Ok(mut rr) => {
                l.append(&mut rr);
                Ok(l)
            },
        },
    }
}

} // verus!
