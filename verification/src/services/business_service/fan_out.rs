//! The fan-out: gathering the outcomes of concurrent sub-queries.
//!
//! One sub-query is issued per parent item, all at once, and they complete in
//! no particular order. The aggregate is all-or-nothing: it is the collection
//! of every sub-query's result, or the failure of the first sub-query that
//! was seen to fail, and never a part of the collection.
//!
//! [`FanOut`] holds the results gathered so far. A caller hands it each
//! completion as it arrives; [`FanOut::record`] says whether to wait for
//! more, to stop with the full collection, or to stop with the failure. After
//! a failure the sub-queries still in flight are not waited for: their
//! outcomes are never looked at.

use crate::error::{ErrorModel, ServiceError};
use vstd::prelude::*;

verus! {

/// The results gathered so far by a fan-out that still waits for some, as a
/// mathematical value.
pub struct FanOutModel<T> {
    /// How many sub-queries were issued.
    pub expected: nat,
    /// The results of those that have completed, in completion order.
    pub results: Seq<T>,
}

/// What a fan-out does after one completion, as a mathematical value.
pub enum FanStepModel<T> {
    /// Some sub-queries are still in flight.
    Continue(FanOutModel<T>),
    /// Every sub-query has succeeded: these are their results.
    Done(Seq<T>),
    /// A sub-query has failed: the whole fan-out has.
    Failed(ErrorModel),
}

impl<T> FanOutModel<T> {
    /// A fan-out over `expected` sub-queries. With none there is nothing to
    /// wait for.
    pub open spec fn start(expected: nat) -> FanStepModel<T> {
        if expected == 0 {
            FanStepModel::Done(Seq::empty())
        } else {
            FanStepModel::Continue(FanOutModel { expected, results: Seq::empty() })
        }
    }

    /// The step after one completion. A failure is the outcome of the whole
    /// fan-out, as the failure of a sub-query. A result is kept, and with the
    /// last one expected the collection is complete.
    pub open spec fn record(self, completion: Result<T, ErrorModel>) -> FanStepModel<T> {
        match completion {
            Err(e) => FanStepModel::Failed(ErrorModel::SubQueryFailure { cause: Box::new(e) }),
            Ok(result) => if self.results.len() + 1 >= self.expected {
                FanStepModel::Done(self.results.push(result))
            } else {
                FanStepModel::Continue(
                    FanOutModel { expected: self.expected, results: self.results.push(result) },
                )
            },
        }
    }
}

/// The completion of one sub-query as a mathematical value.
pub open spec fn completion_model<T>(completion: Result<T, ServiceError>) -> Result<T, ErrorModel> {
    match completion {
        Ok(result) => Ok(result),
        Err(e) => Err(e@),
    }
}

/// The results gathered so far by a fan-out that still waits for some.
pub struct FanOut<T> {
    expected: usize,
    results: Vec<T>,
}

impl<T> View for FanOut<T> {
    type V = FanOutModel<T>;

    closed spec fn view(&self) -> FanOutModel<T> {
        FanOutModel { expected: self.expected as nat, results: self.results@ }
    }
}

/// What a fan-out does after one completion.
pub enum FanOutStep<T> {
    /// Some sub-queries are still in flight: record the next completion.
    Continue(FanOut<T>),
    /// Every sub-query has succeeded: these are their results, in completion
    /// order.
    Done(Vec<T>),
    /// A sub-query has failed, and so has the fan-out. Nothing is to be
    /// waited for.
    Failed(ServiceError),
}

impl<T> View for FanOutStep<T> {
    type V = FanStepModel<T>;

    open spec fn view(&self) -> FanStepModel<T> {
        match self {
            FanOutStep::Continue(fan_out) => FanStepModel::Continue(fan_out@),
            FanOutStep::Done(results) => FanStepModel::Done(results@),
            FanOutStep::Failed(e) => FanStepModel::Failed(e@),
        }
    }
}

impl<T> FanOut<T> {
    /// A fan-out in flight still waits for at least one sub-query.
    #[verifier::type_invariant]
    spec fn waits_for_some(self) -> bool {
        self.results.len() < self.expected
    }

    /// Starts a fan-out over `expected` sub-queries.
    pub fn start(expected: usize) -> (step: FanOutStep<T>)
        ensures
            step@ == FanOutModel::<T>::start(expected as nat),
    {
        if expected == 0 {
            FanOutStep::Done(Vec::new())
        } else {
            FanOutStep::Continue(FanOut { expected, results: Vec::new() })
        }
    }

    /// Takes the completion of one sub-query and decides the next step.
    pub fn record(self, completion: Result<T, ServiceError>) -> (step: FanOutStep<T>)
        ensures
            step@ == self@.record(completion_model(completion)),
    {
        proof {
            use_type_invariant(&self);
        }
        match completion {
            Err(e) => FanOutStep::Failed(e.in_sub_query()),
            Ok(result) => {
                let expected = self.expected;
                let mut results = self.results;
                results.push(result);
                if results.len() >= expected {
                    FanOutStep::Done(results)
                } else {
                    FanOutStep::Continue(FanOut { expected, results })
                }
            },
        }
    }
}

/// Where a fan-out stands after the completions, taken in the order in which
/// they arrive. Once the fan-out is done or has failed, the completions that
/// follow are not looked at.
pub open spec fn gather<T>(step: FanStepModel<T>, completions: Seq<Result<T, ErrorModel>>) -> FanStepModel<T>
    decreases completions.len(),
{
    match step {
        FanStepModel::Continue(fan_out) => if completions.len() == 0 {
            step
        } else {
            gather(fan_out.record(completions[0]), completions.drop_first())
        },
        _ => step,
    }
}

/// The completions of sub-queries that all succeed, with these results.
pub open spec fn succeeded<T>(results: Seq<T>) -> Seq<Result<T, ErrorModel>> {
    Seq::new(results.len(), |i: int| Ok(results[i]))
}

proof fn lemma_gather_successes<T>(
    fan_out: FanOutModel<T>,
    results: Seq<T>,
    rest: Seq<Result<T, ErrorModel>>,
)
    requires
        fan_out.results.len() + results.len() < fan_out.expected,
    ensures
        gather(FanStepModel::Continue(fan_out), succeeded(results) + rest) == gather(
            FanStepModel::Continue(
                FanOutModel { expected: fan_out.expected, results: fan_out.results + results },
            ),
            rest,
        ),
    decreases results.len(),
{
    if results.len() > 0 {
        let completions = succeeded(results) + rest;
        let next = FanOutModel {
            expected: fan_out.expected,
            results: fan_out.results.push(results[0]),
        };
        assert(completions.drop_first() =~= succeeded(results.drop_first()) + rest);
        lemma_gather_successes(next, results.drop_first(), rest);
        assert(next.results + results.drop_first() =~= fan_out.results + results);
    }
}

/// A fan-out whose sub-queries all succeed ends with exactly their results,
/// whatever the order in which they complete: for `arrived`, any
/// rearrangement of the sub-queries' `results`, it is done with `arrived`
/// itself. So it holds as many results as sub-queries were issued, and each
/// result as often as the sub-queries gave it: none twice over, none left
/// out.
pub proof fn lemma_fan_out_all_succeed<T>(results: Seq<T>, arrived: Seq<T>)
    requires
        arrived.to_multiset() == results.to_multiset(),
    ensures
        gather(FanOutModel::<T>::start(results.len()), succeeded(arrived)) == FanStepModel::Done(
            arrived,
        ),
        arrived.len() == results.len(),
        forall|r: T| arrived.to_multiset().count(r) == results.to_multiset().count(r),
{
    vstd::seq_lib::to_multiset_len(arrived);
    vstd::seq_lib::to_multiset_len(results);
    if arrived.len() == 0 {
        assert(arrived =~= Seq::<T>::empty());
    } else {
        let fan_out = FanOutModel::<T> { expected: results.len(), results: Seq::empty() };
        let before = arrived.drop_last();
        let closing = seq![Ok::<T, ErrorModel>(arrived.last())];
        assert(succeeded(arrived) =~= succeeded(before) + closing);
        lemma_gather_successes(fan_out, before, closing);
        let last = FanOutModel::<T> { expected: results.len(), results: fan_out.results + before };
        assert(before.push(arrived.last()) =~= arrived);
        assert(gather(FanStepModel::Continue(last), closing) == gather(
            last.record(closing[0]),
            closing.drop_first(),
        ));
    }
}

/// The first failure to arrive is the outcome of the whole fan-out: if the
/// completion at `first`, one of the first `expected`, is a failure and every
/// one before it a success, the fan-out has failed with that failure, as the
/// failure of a sub-query.
/// The results that arrived before it are not surfaced, and what arrives
/// after it is not looked at.
pub proof fn lemma_fan_out_first_failure<T>(
    expected: nat,
    completions: Seq<Result<T, ErrorModel>>,
    first: int,
)
    requires
        0 <= first < completions.len(),
        first < expected,
        completions[first] is Err,
        forall|j: int| 0 <= j < first ==> (#[trigger] completions[j]) is Ok,
    ensures
        gather(FanOutModel::<T>::start(expected), completions) == FanStepModel::<T>::Failed(
            ErrorModel::SubQueryFailure { cause: Box::new(completions[first]->Err_0) },
        ),
{
    let fan_out = FanOutModel::<T> { expected, results: Seq::empty() };
    let before = Seq::new(first as nat, |j: int| completions[j]->Ok_0);
    let closing = completions.skip(first);
    assert(completions =~= succeeded(before) + closing);
    lemma_gather_successes(fan_out, before, closing);
    let at_failure = FanOutModel::<T> { expected, results: fan_out.results + before };
    assert(gather(FanStepModel::Continue(at_failure), closing) == gather(
        at_failure.record(closing[0]),
        closing.drop_first(),
    ));
}

/// A fan-out over `expected` sub-queries of which exactly one fails, at
/// whatever place among the completions, ends in that one failure and never
/// in the results of the others.
pub proof fn lemma_fan_out_one_failure<T>(
    expected: nat,
    completions: Seq<Result<T, ErrorModel>>,
    failed: int,
)
    requires
        completions.len() == expected,
        0 <= failed < completions.len(),
        completions[failed] is Err,
        forall|j: int|
            0 <= j < completions.len() && j != failed ==> (#[trigger] completions[j]) is Ok,
    ensures
        gather(FanOutModel::<T>::start(expected), completions) == FanStepModel::<T>::Failed(
            ErrorModel::SubQueryFailure { cause: Box::new(completions[failed]->Err_0) },
        ),
{
    lemma_fan_out_first_failure(expected, completions, failed);
}

/// The place of the first failure among the completions; their number where
/// none has failed.
pub open spec fn first_failure<T>(completions: Seq<Result<T, ErrorModel>>) -> int
    decreases completions.len(),
{
    if completions.len() == 0 || completions[0] is Err {
        0
    } else {
        1 + first_failure(completions.drop_first())
    }
}

/// The results that the first `n` completions hold.
pub open spec fn first_results<T>(completions: Seq<Result<T, ErrorModel>>, n: int) -> Seq<T> {
    Seq::new(n as nat, |i: int| completions[i]->Ok_0)
}

/// Where a fan-out over `expected` sub-queries stands after the completions,
/// said outright: failed with the first failure, if one arrived among the
/// first `expected` completions; else done with the results of exactly those,
/// if that many arrived; else still waiting, with the results of all that
/// arrived.
pub open spec fn all_or_nothing<T>(
    expected: nat,
    completions: Seq<Result<T, ErrorModel>>,
) -> FanStepModel<T> {
    let first = first_failure(completions);
    if first < completions.len() && first < expected {
        FanStepModel::Failed(
            ErrorModel::SubQueryFailure { cause: Box::new(completions[first]->Err_0) },
        )
    } else if completions.len() >= expected {
        FanStepModel::Done(first_results(completions, expected as int))
    } else {
        FanStepModel::Continue(
            FanOutModel { expected, results: first_results(completions, completions.len() as int) },
        )
    }
}

/// The first failure stands among the completions or just behind them; what
/// stands there is a failure, and everything before it a success.
pub proof fn lemma_first_failure<T>(completions: Seq<Result<T, ErrorModel>>)
    ensures
        0 <= first_failure(completions) <= completions.len(),
        first_failure(completions) < completions.len() ==> completions[first_failure(
            completions,
        )] is Err,
        forall|j: int| 0 <= j < first_failure(completions) ==> (#[trigger] completions[j]) is Ok,
    decreases completions.len(),
{
    if completions.len() > 0 && completions[0] is Ok {
        let tail = completions.drop_first();
        lemma_first_failure(tail);
        assert forall|j: int| 0 <= j < first_failure(completions) implies (
        #[trigger] completions[j]) is Ok by {
            if j > 0 {
                assert(tail[j - 1] == completions[j]);
            }
        }
    }
}

proof fn lemma_gather_from<T>(fan_out: FanOutModel<T>, completions: Seq<Result<T, ErrorModel>>)
    requires
        fan_out.results.len() < fan_out.expected,
    ensures
        ({
            let first = first_failure(completions);
            let missing = fan_out.expected - fan_out.results.len();
            gather(FanStepModel::Continue(fan_out), completions) == if first < completions.len()
                && first < missing {
                FanStepModel::<T>::Failed(
                    ErrorModel::SubQueryFailure { cause: Box::new(completions[first]->Err_0) },
                )
            } else if completions.len() >= missing {
                FanStepModel::Done(fan_out.results + first_results(completions, missing))
            } else {
                FanStepModel::Continue(
                    FanOutModel {
                        expected: fan_out.expected,
                        results: fan_out.results + first_results(
                            completions,
                            completions.len() as int,
                        ),
                    },
                )
            }
        }),
    decreases completions.len(),
{
    let missing = fan_out.expected - fan_out.results.len();
    if completions.len() > 0 {
        let tail = completions.drop_first();
        let step = fan_out.record(completions[0]);
        assert(gather(FanStepModel::Continue(fan_out), completions) == gather(step, tail));
        if let Ok(result) = completions[0] {
            lemma_first_failure(tail);
            let kept = fan_out.results.push(result);
            if missing == 1 {
                assert(fan_out.results + first_results(completions, 1) =~= kept);
            } else {
                lemma_gather_from(FanOutModel { expected: fan_out.expected, results: kept }, tail);
                if completions.len() >= missing {
                    assert(kept + first_results(tail, missing - 1) =~= fan_out.results
                        + first_results(completions, missing));
                } else {
                    assert(kept + first_results(tail, tail.len() as int) =~= fan_out.results
                        + first_results(completions, completions.len() as int));
                }
            }
        }
    }
}

/// A fan-out is all-or-nothing: whatever arrives and in whatever order, it
/// stands where [`all_or_nothing`] says. It is done only with one result for
/// each sub-query issued, and once a failure has arrived among them it holds
/// that failure and no result.
pub proof fn lemma_fan_out_is_all_or_nothing<T>(
    expected: nat,
    completions: Seq<Result<T, ErrorModel>>,
)
    ensures
        gather(FanOutModel::<T>::start(expected), completions) == all_or_nothing(
            expected,
            completions,
        ),
{
    lemma_first_failure(completions);
    if expected == 0 {
        assert(first_results(completions, 0) =~= Seq::<T>::empty());
    } else {
        let fan_out = FanOutModel::<T> { expected, results: Seq::empty() };
        lemma_gather_from(fan_out, completions);
    }
}

} // verus!
