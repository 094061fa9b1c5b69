//! The order of the walk: the verdict on a list is the first failure in it.

use crate::error::Error;
use vstd::prelude::*;

verus! {

/// The first failure among `verdicts`, in order: `Ok` where there is none.
pub open spec fn first_failure(verdicts: Seq<Result<(), Error>>) -> Result<(), Error>
    decreases verdicts.len(),
{
    if verdicts.len() == 0 {
        Ok(())
    } else if verdicts[0] is Err {
        verdicts[0]
    } else {
        first_failure(verdicts.drop_first())
    }
}

/// The verdict of two steps, one after the other: the second is reached only
/// where the first found no fault.
pub open spec fn and_then(first: Result<(), Error>, second: Result<(), Error>) -> Result<
    (),
    Error,
> {
    if first is Err {
        first
    } else {
        second
    }
}

/// Where nothing fails, the verdict is `Ok`.
pub proof fn lemma_no_failure(verdicts: Seq<Result<(), Error>>)
    requires
        forall|i: int| 0 <= i < verdicts.len() ==> (#[trigger] verdicts[i]) is Ok,
    ensures
        first_failure(verdicts) == Ok::<(), Error>(()),
    decreases verdicts.len(),
{
    if verdicts.len() > 0 {
        let rest = verdicts.drop_first();
        assert forall|i: int| 0 <= i < rest.len() implies (#[trigger] rest[i]) is Ok by {
            assert(rest[i] == verdicts[i + 1]);
        }
        lemma_no_failure(rest);
    }
}

/// The verdict is that of the first item that fails.
pub proof fn lemma_failure_at(verdicts: Seq<Result<(), Error>>, at: int)
    requires
        0 <= at < verdicts.len(),
        verdicts[at] is Err,
        forall|i: int| 0 <= i < at ==> (#[trigger] verdicts[i]) is Ok,
    ensures
        first_failure(verdicts) == verdicts[at],
    decreases verdicts.len(),
{
    if at > 0 {
        let rest = verdicts.drop_first();
        assert(rest[at - 1] == verdicts[at]);
        assert forall|i: int| 0 <= i < at - 1 implies (#[trigger] rest[i]) is Ok by {
            assert(rest[i] == verdicts[i + 1]);
        }
        lemma_failure_at(rest, at - 1);
    }
}

/// Where exactly one item fails, the verdict is its failure, wherever it
/// stands in the list.
pub proof fn lemma_single_failure(verdicts: Seq<Result<(), Error>>, at: int)
    requires
        0 <= at < verdicts.len(),
        verdicts[at] is Err,
        forall|i: int| 0 <= i < verdicts.len() && i != at ==> (#[trigger] verdicts[i]) is Ok,
    ensures
        first_failure(verdicts) == verdicts[at],
{
    lemma_failure_at(verdicts, at);
}

/// A verdict of `Ok` means that no item failed.
pub proof fn lemma_ok_means_all_ok(verdicts: Seq<Result<(), Error>>)
    requires
        first_failure(verdicts) is Ok,
    ensures
        forall|i: int| 0 <= i < verdicts.len() ==> (#[trigger] verdicts[i]) is Ok,
    decreases verdicts.len(),
{
    if verdicts.len() > 0 {
        let rest = verdicts.drop_first();
        lemma_ok_means_all_ok(rest);
        assert forall|i: int| 0 <= i < verdicts.len() implies (#[trigger] verdicts[i]) is Ok by {
            if i > 0 {
                assert(rest[i - 1] == verdicts[i]);
            }
        }
    }
}

} // verus!
