use vstd::prelude::*;

verus! {

/// The sum of a sequence of budgets, as an unbounded integer.
pub open spec fn sum_u64(s: Seq<u64>) -> int
    decreases s.len(),
{
    if s.len() == 0 {
        0
    } else {
        sum_u64(s.drop_last()) + s.last()
    }
}

/// Splits `total_trials` across `worker_count` workers. Every worker gets the
/// base share `total_trials / worker_count`; the first worker additionally
/// carries the whole remainder, so the budgets sum to `total_trials` exactly
/// and exactly one budget differs from the base share.
pub fn split_budgets(total_trials: u64, worker_count: usize) -> (budgets: Vec<u64>)
    requires
        worker_count >= 1,
    ensures
        budgets.len() == worker_count,
        sum_u64(budgets@) == total_trials,
        budgets[0] == total_trials as int / worker_count as int + total_trials as int
            % worker_count as int,
        forall|i: int|
            1 <= i < budgets.len() ==> budgets[i] == total_trials as int / worker_count as int,
{
    let base: u64 = total_trials / (worker_count as u64);
    let remainder: u64 = total_trials % (worker_count as u64);
    proof {
        vstd::arithmetic::div_mod::lemma_fundamental_div_mod(
            total_trials as int,
            worker_count as int,
        );
        assert(base + remainder <= total_trials) by (nonlinear_arith)
            requires
                worker_count >= 1,
                base == total_trials as int / worker_count as int,
                remainder == total_trials as int % worker_count as int,
                total_trials as int == worker_count as int * (total_trials as int
                    / worker_count as int) + total_trials as int % worker_count as int,
                base >= 0,
                remainder >= 0,
        ;
    }
    let mut budgets: Vec<u64> = Vec::new();
    budgets.push(base + remainder);
    proof {
        assert(budgets@.len() == 1);
        assert(budgets@.drop_last() =~= Seq::<u64>::empty());
        assert(sum_u64(budgets@) == sum_u64(budgets@.drop_last()) + budgets@.last());
        assert(sum_u64(budgets@.drop_last()) == 0);
    }
    let mut i: usize = 1;
    while i < worker_count
        invariant
            1 <= i <= worker_count,
            budgets.len() == i,
            base == total_trials as int / worker_count as int,
            remainder == total_trials as int % worker_count as int,
            budgets[0] == base + remainder,
            forall|j: int| 1 <= j < i ==> budgets[j] == base,
            sum_u64(budgets@) == base + remainder + (i - 1) * base,
        decreases worker_count - i,
    {
        let ghost prev = budgets@;
        budgets.push(base);
        proof {
            assert(budgets@.drop_last() =~= prev);
            assert(sum_u64(budgets@) == sum_u64(prev) + base);
            assert(base + remainder + (i - 1) * base + base == base + remainder + ((i + 1) - 1)
                * base) by (nonlinear_arith);
        }
        i += 1;
    }
    proof {
        assert(base + remainder + (worker_count - 1) * base == worker_count as int * base
            + remainder) by (nonlinear_arith);
    }
    budgets
}

/// Resolves the worker count from the reported hardware parallelism: one
/// logical unit is held back for the aggregator thread, and the result is
/// clamped so that it is never less than 1, even if the report is 0.
pub fn resolve_worker_count(reported_parallelism: usize) -> (w: usize)
    ensures
        w >= 1,
        reported_parallelism >= 2 ==> w == reported_parallelism - 1,
        reported_parallelism < 2 ==> w == 1,
{
    if reported_parallelism >= 2 {
        reported_parallelism - 1
    } else {
        1
    }
}

/// Relies on num_cpus::get: the number of logical execution units available
/// to this process, documented to always be at least 1.
#[verifier::external_body]
fn logical_core_count() -> (n: usize)
    ensures
        n >= 1,
{
    num_cpus::get()
}

/// The number of workers to spawn on this host: the available hardware
/// parallelism minus one unit reserved for the aggregator, never less than 1.
pub fn planned_worker_count() -> (w: usize)
    ensures
        w >= 1,
{
    resolve_worker_count(logical_core_count())
}

} // verus!
