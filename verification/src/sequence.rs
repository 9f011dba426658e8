//! Turning a sequence of results into one result.

use vstd::prelude::*;

verus! {

/// The index of the first failure at or after `from`.
pub open spec fn first_failure<T, E>(results: Seq<Result<T, E>>, from: int) -> Option<int>
    decreases results.len() - from,
{
    if from < 0 || from >= results.len() {
        None
    } else if results[from] is Err {
        Some(from)
    } else {
        first_failure(results, from + 1)
    }
}

/// Every success in order, or else the first failure.
pub open spec fn all_ok<T, E>(results: Seq<Result<T, E>>) -> Result<Seq<T>, E> {
    match first_failure(results, 0) {
        Some(i) => Err(results[i]->Err_0),
        None => Ok(Seq::new(results.len(), |i: int| results[i]->Ok_0)),
    }
}

/// `first_failure` finds the first failure, and none only where there is none.
pub proof fn first_failure_first<T, E>(results: Seq<Result<T, E>>, from: int)
    requires
        0 <= from,
    ensures
        match first_failure(results, from) {
            Some(i) => {
                &&& from <= i < results.len()
                &&& results[i] is Err
                &&& forall|j: int| from <= j < i ==> results[j] is Ok
            },
            None => forall|j: int| from <= j < results.len() ==> results[j] is Ok,
        },
    decreases results.len() - from,
{
    if from < results.len() && results[from] is Ok {
        first_failure_first(results, from + 1);
    }
}

/// A failure with only successes before it is what `all_ok` gives.
pub proof fn all_ok_fails<T, E>(results: Seq<Result<T, E>>, i: int)
    requires
        0 <= i < results.len(),
        results[i] is Err,
        forall|j: int| 0 <= j < i ==> results[j] is Ok,
    ensures
        all_ok(results) == Err::<Seq<T>, E>(results[i]->Err_0),
{
    first_failure_first(results, 0);
}

/// Where every result is a success, `all_ok` gives them all.
pub proof fn all_ok_succeeds<T, E>(results: Seq<Result<T, E>>)
    requires
        forall|j: int| 0 <= j < results.len() ==> results[j] is Ok,
    ensures
        all_ok(results) == Ok::<Seq<T>, E>(Seq::new(results.len(), |i: int| results[i]->Ok_0)),
{
    first_failure_first(results, 0);
}

} // verus!
