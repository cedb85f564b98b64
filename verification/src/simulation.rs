use vstd::prelude::*;
use crate::analytics::Reporter;
use crate::cell::non_decreasing;

verus! {

/// Number of die rolls in one simulated trial.
pub const ROLLS_PER_TRIAL: u64 = 231;

/// How many trials a worker runs between two publications of its totals.
pub const PUBLISH_INTERVAL: u64 = 100_000;

/// Relies on fastrand::u8 over the inclusive range 1..=4: the result is one
/// face of a four-sided die, drawn from exactly that range.
#[verifier::external_body]
fn roll_four_sided() -> (face: u8)
    ensures
        1 <= face <= 4,
{
    fastrand::u8(1..=4)
}

/// Runs one trial: rolls the four-sided die [`ROLLS_PER_TRIAL`] times and
/// counts how many rolls came up as the distinguished face. The count is the
/// trial's score and can never exceed the number of rolls.
pub fn run_trial() -> (score: u64)
    ensures
        score <= ROLLS_PER_TRIAL,
{
    let mut score: u64 = 0;
    let mut roll: u64 = 0;
    while roll < ROLLS_PER_TRIAL
        invariant
            score <= roll <= ROLLS_PER_TRIAL,
        decreases ROLLS_PER_TRIAL - roll,
    {
        if roll_four_sided() == 1 {
            score += 1;
        }
        roll += 1;
    }
    score
}

/// A worker's private running totals across the trials it has run so far.
#[derive(Clone, Copy, Debug, PartialEq, Eq, Structural)]
pub struct TrialTotals {
    /// Trials completed so far.
    pub iterations: u64,
    /// The maximum per-trial score seen so far.
    pub high_score: u64,
    /// How many trials scored the maximum possible value.
    pub wins: u64,
}

impl TrialTotals {
    /// Totals before any trial has run.
    pub fn new() -> (t: Self)
        ensures
            t == (TrialTotals { iterations: 0, high_score: 0, wins: 0 }),
    {
        TrialTotals { iterations: 0, high_score: 0, wins: 0 }
    }

    /// Folds one finished trial into the totals: one more trial done, the
    /// best outcome raised to `score` if it beats it, and a win recorded
    /// exactly when every roll came up as the distinguished face.
    pub fn record_trial(&mut self, score: u64)
        requires
            score <= ROLLS_PER_TRIAL,
            old(self).iterations < u64::MAX,
            old(self).wins <= old(self).iterations,
        ensures
            final(self).iterations == old(self).iterations + 1,
            final(self).high_score == if score > old(self).high_score {
                score
            } else {
                old(self).high_score
            },
            final(self).wins == old(self).wins + if score == ROLLS_PER_TRIAL {
                1int
            } else {
                0int
            },
    {
        self.iterations += 1;
        if score > self.high_score {
            self.high_score = score;
        }
        if score == ROLLS_PER_TRIAL {
            self.wins += 1;
        }
    }
}

/// Publishes the three running totals into the worker's bundle, one
/// whole-value store per cell.
fn publish(reporter: &mut Reporter, totals: &TrialTotals)
    ensures
        final(reporter).budget() == old(reporter).budget(),
        final(reporter).progress_log() == old(reporter).progress_log().push(totals.iterations),
        final(reporter).high_score_log() == old(reporter).high_score_log().push(
            totals.high_score,
        ),
        final(reporter).wins_log() == old(reporter).wins_log().push(totals.wins),
{
    reporter.write_current_iterations(totals.iterations);
    reporter.write_high_score(totals.high_score);
    reporter.write_wins(totals.wins);
}

/// Publishing a value at least as large as everything published since `base`
/// keeps the published suffix free of backward moves.
proof fn lemma_publish_suffix(s: Seq<u64>, base: int, v: u64)
    requires
        0 <= base <= s.len(),
        non_decreasing(s.skip(base)),
        forall|k: int| base <= k < s.len() ==> s[k] <= v,
    ensures
        non_decreasing(s.push(v).skip(base)),
{
    let t = s.push(v).skip(base);
    assert forall|i: int, j: int| 0 <= i <= j < t.len() implies t[i] <= t[j] by {
        assert(t[i] == s.push(v)[base + i]);
        assert(t[j] == s.push(v)[base + j]);
        if base + j < s.len() {
            assert(s.skip(base)[i] == s[base + i]);
            assert(s.skip(base)[j] == s[base + j]);
        } else {
            assert(t[j] == v);
            if base + i < s.len() {
                assert(s[base + i] <= v);
            }
        }
    }
}

/// How the publication count advances with one more finished trial: it goes
/// up by one exactly when the new trial count is a multiple of the interval.
proof fn lemma_quotient_step(it: int, k: int)
    requires
        it >= 0,
        k > 0,
    ensures
        (it + 1) % k == 0 ==> (it + 1) / k == it / k + 1,
        (it + 1) % k != 0 ==> (it + 1) / k == it / k,
{
    vstd::arithmetic::div_mod::lemma_fundamental_div_mod(it, k);
    vstd::arithmetic::div_mod::lemma_fundamental_div_mod(it + 1, k);
    vstd::arithmetic::div_mod::lemma_mod_division_less_than_divisor(it, k);
    vstd::arithmetic::div_mod::lemma_mod_division_less_than_divisor(it + 1, k);
    assert(((it + 1) % k == 0 ==> (it + 1) / k == it / k + 1) && ((it + 1) % k != 0 ==> (it + 1)
        / k == it / k)) by (nonlinear_arith)
        requires
            it == k * (it / k) + it % k,
            it + 1 == k * ((it + 1) / k) + (it + 1) % k,
            0 <= it % k < k,
            0 <= (it + 1) % k < k,
            k > 0,
    ;
}

/// Runs `desired_iterations` independent trials, keeping private running
/// totals and publishing them into the bundle every [`PUBLISH_INTERVAL`]
/// trials; a final unconditional publication makes the bundle reflect the
/// true end state exactly. Each cell's log only grows, the published values
/// never move backwards, and the last published progress is exactly the
/// number of trials asked for: no trial is lost or double-counted.
pub fn run_simulations(desired_iterations: u64, reporter: &mut Reporter)
    requires
        desired_iterations == old(reporter).budget(),
    ensures
        final(reporter).budget() == old(reporter).budget(),
        old(reporter).progress_log().is_prefix_of(final(reporter).progress_log()),
        old(reporter).high_score_log().is_prefix_of(final(reporter).high_score_log()),
        old(reporter).wins_log().is_prefix_of(final(reporter).wins_log()),
        non_decreasing(
            final(reporter).progress_log().skip(old(reporter).progress_log().len() as int),
        ),
        non_decreasing(
            final(reporter).high_score_log().skip(old(reporter).high_score_log().len() as int),
        ),
        non_decreasing(final(reporter).wins_log().skip(old(reporter).wins_log().len() as int)),
        final(reporter).progress_log().last() == desired_iterations,
        final(reporter).high_score_log().last() <= ROLLS_PER_TRIAL,
        final(reporter).wins_log().last() <= desired_iterations,
        final(reporter).progress_log().len() == old(reporter).progress_log().len()
            + desired_iterations as int / (PUBLISH_INTERVAL as int) + 1,
        final(reporter).high_score_log().len() == old(reporter).high_score_log().len()
            + desired_iterations as int / (PUBLISH_INTERVAL as int) + 1,
        final(reporter).wins_log().len() == old(reporter).wins_log().len()
            + desired_iterations as int / (PUBLISH_INTERVAL as int) + 1,
{
    let ghost base_progress = reporter.progress_log();
    let ghost base_high = reporter.high_score_log();
    let ghost base_wins = reporter.wins_log();
    let mut totals = TrialTotals::new();
    while totals.iterations < desired_iterations
        invariant
            totals.iterations <= desired_iterations,
            totals.high_score <= ROLLS_PER_TRIAL,
            totals.wins <= totals.iterations,
            reporter.budget() == old(reporter).budget(),
            base_progress == old(reporter).progress_log(),
            base_high == old(reporter).high_score_log(),
            base_wins == old(reporter).wins_log(),
            base_progress.is_prefix_of(reporter.progress_log()),
            base_high.is_prefix_of(reporter.high_score_log()),
            base_wins.is_prefix_of(reporter.wins_log()),
            non_decreasing(reporter.progress_log().skip(base_progress.len() as int)),
            non_decreasing(reporter.high_score_log().skip(base_high.len() as int)),
            non_decreasing(reporter.wins_log().skip(base_wins.len() as int)),
            forall|k: int|
                base_progress.len() <= k < reporter.progress_log().len()
                    ==> reporter.progress_log()[k] <= totals.iterations,
            forall|k: int|
                base_high.len() <= k < reporter.high_score_log().len()
                    ==> reporter.high_score_log()[k] <= totals.high_score,
            forall|k: int|
                base_wins.len() <= k < reporter.wins_log().len() ==> reporter.wins_log()[k]
                    <= totals.wins,
            reporter.progress_log().len() == base_progress.len() + totals.iterations as int / (
            PUBLISH_INTERVAL as int),
            reporter.high_score_log().len() == base_high.len() + totals.iterations as int / (
            PUBLISH_INTERVAL as int),
            reporter.wins_log().len() == base_wins.len() + totals.iterations as int / (
            PUBLISH_INTERVAL as int),
        decreases desired_iterations - totals.iterations,
    {
        let score = run_trial();
        proof {
            lemma_quotient_step(totals.iterations as int, PUBLISH_INTERVAL as int);
        }
        totals.record_trial(score);
        if totals.iterations % PUBLISH_INTERVAL == 0 {
            let ghost pre = *reporter;
            publish(reporter, &totals);
            proof {
                lemma_publish_suffix(
                    pre.progress_log(),
                    base_progress.len() as int,
                    totals.iterations,
                );
                lemma_publish_suffix(pre.high_score_log(), base_high.len() as int, totals.high_score);
                lemma_publish_suffix(pre.wins_log(), base_wins.len() as int, totals.wins);
            }
        }
    }
    let ghost pre = *reporter;
    publish(reporter, &totals);
    proof {
        lemma_publish_suffix(pre.progress_log(), base_progress.len() as int, totals.iterations);
        lemma_publish_suffix(pre.high_score_log(), base_high.len() as int, totals.high_score);
        lemma_publish_suffix(pre.wins_log(), base_wins.len() as int, totals.wins);
    }
}

/// The outcome of a plain single-threaded run: the best score seen and how
/// many trials were run before stopping.
#[derive(Clone, Copy, Debug, PartialEq, Eq, Structural)]
pub struct NaiveOutcome {
    /// The maximum per-trial score observed.
    pub max_ones: u64,
    /// How many trials were run.
    pub sessions: u64,
}

/// The plain single-threaded baseline: runs trials until one of them scores
/// at least `threshold`, or `session_cap` trials have run, whichever comes
/// first. Stopping early therefore certifies that the best score reached the
/// threshold.
pub fn naive_run(threshold: u64, session_cap: u64) -> (out: NaiveOutcome)
    ensures
        out.sessions <= session_cap,
        out.max_ones <= ROLLS_PER_TRIAL,
        out.sessions < session_cap ==> out.max_ones >= threshold,
        threshold > 0 && session_cap > 0 ==> out.sessions >= 1,
{
    let mut max_ones: u64 = 0;
    let mut sessions: u64 = 0;
    let mut last_score: u64 = 0;
    while last_score < threshold && sessions < session_cap
        invariant
            sessions <= session_cap,
            max_ones <= ROLLS_PER_TRIAL,
            last_score <= max_ones,
            sessions == 0 ==> last_score == 0,
        decreases session_cap - sessions,
    {
        last_score = run_trial();
        sessions += 1;
        if last_score > max_ones {
            max_ones = last_score;
        }
    }
    NaiveOutcome { max_ones, sessions }
}

} // verus!
