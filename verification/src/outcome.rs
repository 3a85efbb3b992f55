//! Sequences of results.

use vstd::prelude::*;

verus! {

/// The values of a sequence of results when all of them are `Ok`, else the first
/// error.
pub open spec fn collect<T, E>(results: Seq<Result<T, E>>) -> Result<Seq<T>, E>
    decreases results.len(),
{
    if results.len() == 0 {
        Ok(Seq::empty())
    } else {
        match collect(results.drop_last()) {
            Err(e) => Err(e),
            Ok(values) => match results.last() {
                Err(e) => Err(e),
                Ok(v) => Ok(values.push(v)),
            },
        }
    }
}

/// All results are `Ok`: `collect` gives their values.
pub proof fn lemma_collect_ok<T, E>(results: Seq<Result<T, E>>, values: Seq<T>)
    requires
        results.len() == values.len(),
        forall|i: int| 0 <= i < results.len() ==> #[trigger] results[i] == Ok::<T, E>(values[i]),
    ensures
        collect(results) == Ok::<Seq<T>, E>(values),
    decreases results.len(),
{
    if results.len() > 0 {
        assert forall|i: int| 0 <= i < results.drop_last().len() implies #[trigger] results.drop_last()[i] == Ok::<
            T,
            E,
        >(values.drop_last()[i]) by {
            assert(results[i] == Ok::<T, E>(values[i]));
        }
        lemma_collect_ok(results.drop_last(), values.drop_last());
        assert(results[results.len() - 1] == Ok::<T, E>(values[values.len() - 1]));
        assert(values.drop_last().push(values.last()) =~= values);
    } else {
        assert(values =~= Seq::<T>::empty());
    }
}

/// The result at `at` is the first error: `collect` gives it.
pub proof fn lemma_collect_err<T, E>(results: Seq<Result<T, E>>, at: int, e: E)
    requires
        0 <= at < results.len(),
        results[at] == Err::<T, E>(e),
        forall|i: int| 0 <= i < at ==> (#[trigger] results[i]) is Ok,
    ensures
        collect(results) == Err::<Seq<T>, E>(e),
    decreases results.len(),
{
    let shorter = results.drop_last();
    if at < results.len() - 1 {
        assert forall|i: int| 0 <= i < at implies (#[trigger] shorter[i]) is Ok by {
            assert(results[i] is Ok);
        }
        lemma_collect_err(shorter, at, e);
    } else {
        let values = Seq::new(shorter.len(), |i: int| shorter[i]->Ok_0);
        assert forall|i: int| 0 <= i < shorter.len() implies #[trigger] shorter[i] == Ok::<T, E>(values[i]) by {
            assert(results[i] is Ok);
        }
        lemma_collect_ok(shorter, values);
    }
}

} // verus!
