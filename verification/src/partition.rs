//! Splitting a total among a fixed number of workers with minimal imbalance.

use crate::config::ConfigError;
use vstd::prelude::*;

verus! {

/// The count given to worker `idx` when `total` is split among `workers`:
/// the quotient, plus one for each of the first `total % workers` workers.
pub open spec fn share(idx: nat, total: nat, workers: nat) -> nat
    recommends
        workers > 0,
{
    total / workers + if idx < total % workers { 1nat } else { 0nat }
}

/// The sum of the counts given to the workers before `idx`, which is where
/// worker `idx` starts.
pub open spec fn shares_before(idx: nat, total: nat, workers: nat) -> nat
    recommends
        workers > 0,
    decreases idx,
{
    if idx == 0 {
        0
    } else {
        shares_before((idx - 1) as nat, total, workers) + share((idx - 1) as nat, total, workers)
    }
}

/// The sum of a sequence of counts.
pub open spec fn sum(counts: Seq<usize>) -> nat
    decreases counts.len(),
{
    if counts.len() == 0 {
        0
    } else {
        sum(counts.drop_last()) + counts.last() as nat
    }
}

/// The counts before `idx` add up to `idx` quotients plus one unit for each
/// worker that received a remainder unit.
pub proof fn lemma_shares_before_closed_form(idx: nat, total: nat, workers: nat)
    requires
        workers > 0,
    ensures
        shares_before(idx, total, workers) == idx * (total / workers) + if idx < total % workers {
            idx
        } else {
            total % workers
        },
    decreases idx,
{
    let quotient = total / workers;
    if idx > 0 {
        let before = (idx - 1) as nat;
        lemma_shares_before_closed_form(before, total, workers);
        assert(idx * quotient == before * quotient + quotient) by (nonlinear_arith)
            requires
                idx == before + 1,
        ;
    } else {
        assert(idx * quotient == 0) by (nonlinear_arith)
            requires
                idx == 0,
        ;
    }
}

/// The counts of all workers add up to the total that was split.
pub proof fn lemma_shares_cover_total(total: nat, workers: nat)
    requires
        workers > 0,
    ensures
        shares_before(workers, total, workers) == total,
{
    lemma_shares_before_closed_form(workers, total, workers);
    assert(total % workers < workers && total == workers * (total / workers) + total % workers)
        by (nonlinear_arith)
        requires
            workers > 0,
    ;
}

/// The start of a worker never lies behind the start of a later one, and no
/// start lies beyond the total.
pub proof fn lemma_shares_before_monotonic(i: nat, j: nat, total: nat, workers: nat)
    requires
        workers > 0,
        i <= j <= workers,
    ensures
        shares_before(i, total, workers) <= shares_before(j, total, workers) <= total,
{
    let quotient = total / workers;
    lemma_shares_before_closed_form(i, total, workers);
    lemma_shares_before_closed_form(j, total, workers);
    lemma_shares_before_closed_form(workers, total, workers);
    lemma_shares_cover_total(total, workers);
    assert(i * quotient <= j * quotient <= workers * quotient) by (nonlinear_arith)
        requires
            i <= j <= workers,
    ;
}

/// No two workers' counts differ by more than one, and a worker with a lower
/// index never has the smaller count.
pub proof fn law_shares_balanced(i: nat, j: nat, total: nat, workers: nat)
    requires
        workers > 0,
    ensures
        share(i, total, workers) <= share(j, total, workers) + 1,
        i <= j ==> share(i, total, workers) >= share(j, total, workers),
{
}

/// A worker's count never exceeds the total.
pub proof fn lemma_share_at_most_total(idx: nat, total: nat, workers: nat)
    requires
        workers > 0,
    ensures
        share(idx, total, workers) <= total,
{
    assert(total % workers < workers && total == workers * (total / workers) + total % workers
        && total / workers <= workers * (total / workers)) by (nonlinear_arith)
        requires
            workers > 0,
    ;
}

/// The sum of the first `n` counts of a sequence that holds each worker's
/// share is the start of worker `n`.
pub proof fn lemma_sum_of_shares(counts: Seq<usize>, total: nat, workers: nat)
    requires
        workers > 0,
        forall|i: int| 0 <= i < counts.len() ==> counts[i] == share(i as nat, total, workers),
    ensures
        sum(counts) == shares_before(counts.len(), total, workers),
    decreases counts.len(),
{
    if counts.len() > 0 {
        lemma_sum_of_shares(counts.drop_last(), total, workers);
    }
}

/// The number of units that worker `thread_idx` of `threads` receives of `total`.
pub fn per_thread_amount(thread_idx: usize, total: usize, threads: usize) -> (amount: usize)
    requires
        threads > 0,
    ensures
        amount == share(thread_idx as nat, total as nat, threads as nat),
{
    let per_thread: usize = total / threads;
    let extras: usize = total % threads;
    proof {
        lemma_share_at_most_total(thread_idx as nat, total as nat, threads as nat);
    }
    if thread_idx < extras {
        per_thread + 1
    } else {
        per_thread
    }
}

/// Splits `total` among `workers` workers: one count per worker, in index
/// order. Splitting among zero workers is a configuration error.
pub fn partition(total: usize, workers: usize) -> (outcome: Result<Vec<usize>, ConfigError>)
    ensures
        workers == 0 <==> outcome is Err,
        outcome matches Err(fault) ==> fault == ConfigError::NoWorkers,
        outcome matches Ok(counts) ==> {
            &&& counts@.len() == workers
            &&& forall|i: int|
                0 <= i < workers ==> counts@[i] == share(i as nat, total as nat, workers as nat)
            &&& sum(counts@) == total
            &&& forall|i: int, j: int|
                0 <= i < workers && 0 <= j < workers ==> counts@[i] <= counts@[j] + 1
        },
{
    if workers == 0 {
        return Err(ConfigError::NoWorkers);
    }
    let mut counts: Vec<usize> = Vec::new();
    let mut idx: usize = 0;
    while idx < workers
        invariant
            workers > 0,
            idx <= workers,
            counts@.len() == idx,
            forall|i: int|
                0 <= i < idx ==> counts@[i] == share(i as nat, total as nat, workers as nat),
        decreases workers - idx,
    {
        counts.push(per_thread_amount(idx, total, workers));
        idx += 1;
    }
    proof {
        lemma_sum_of_shares(counts@, total as nat, workers as nat);
        lemma_shares_cover_total(total as nat, workers as nat);
    }
    Ok(counts)
}

} // verus!
