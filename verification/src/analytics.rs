use vstd::prelude::*;
use crate::cell::non_decreasing;
use crate::cell::CellReader;
use crate::cell::ReadWhileWriting;
use crate::partition::sum_u64;

verus! {

/// The metrics bundle owned by one worker: its assigned trial budget and the
/// three single-writer cells it publishes into (trials completed so far, best
/// per-trial score seen so far, count of perfect trials).
///
/// The worker holds the one `Reporter` and is the only writer; the aggregator
/// observes through a [`ReporterReader`] obtained from [`Self::reader`].
pub struct Reporter {
    desired_iterations: u64,
    current_iterations: ReadWhileWriting,
    high_score: ReadWhileWriting,
    wins: ReadWhileWriting,
}

impl Reporter {
    /// The trial budget this bundle was created with.
    pub closed spec fn budget(&self) -> u64 {
        self.desired_iterations
    }

    /// Every progress value published so far, in order, starting at 0.
    pub closed spec fn progress_log(&self) -> Seq<u64> {
        self.current_iterations@
    }

    /// Every best-outcome value published so far, in order, starting at 0.
    pub closed spec fn high_score_log(&self) -> Seq<u64> {
        self.high_score@
    }

    /// Every win count published so far, in order, starting at 0.
    pub closed spec fn wins_log(&self) -> Seq<u64> {
        self.wins@
    }

    /// Creates a bundle for a worker assigned `desired_iterations` trials,
    /// with every metric starting at 0.
    pub fn new(desired_iterations: u64) -> (r: Self)
        ensures
            r.budget() == desired_iterations,
            r.progress_log() == seq![0u64],
            r.high_score_log() == seq![0u64],
            r.wins_log() == seq![0u64],
    {
        Reporter {
            desired_iterations,
            current_iterations: ReadWhileWriting::new(0),
            high_score: ReadWhileWriting::new(0),
            wins: ReadWhileWriting::new(0),
        }
    }

    /// The trial budget this bundle was created with.
    pub fn desired_iterations(&self) -> (n: u64)
        ensures
            n == self.budget(),
    {
        self.desired_iterations
    }

    /// The owner's view of the progress cell: its most recent store.
    pub fn read_current_iterations(&self) -> (n: u64)
        ensures
            n == self.progress_log().last(),
    {
        self.current_iterations.read()
    }

    /// The owner's view of the best-outcome cell: its most recent store.
    pub fn read_high_score(&self) -> (n: u64)
        ensures
            n == self.high_score_log().last(),
    {
        self.high_score.read()
    }

    /// The owner's view of the wins cell: its most recent store.
    pub fn read_wins(&self) -> (n: u64)
        ensures
            n == self.wins_log().last(),
    {
        self.wins.read()
    }

    /// Publishes a new progress value; the other cells are untouched.
    pub fn write_current_iterations(&mut self, n: u64)
        ensures
            final(self).budget() == old(self).budget(),
            final(self).progress_log() == old(self).progress_log().push(n),
            final(self).high_score_log() == old(self).high_score_log(),
            final(self).wins_log() == old(self).wins_log(),
    {
        self.current_iterations.write(n);
    }

    /// Publishes a new best-outcome value; the other cells are untouched.
    pub fn write_high_score(&mut self, n: u64)
        ensures
            final(self).budget() == old(self).budget(),
            final(self).progress_log() == old(self).progress_log(),
            final(self).high_score_log() == old(self).high_score_log().push(n),
            final(self).wins_log() == old(self).wins_log(),
    {
        self.high_score.write(n);
    }

    /// Publishes a new win count; the other cells are untouched.
    pub fn write_wins(&mut self, n: u64)
        ensures
            final(self).budget() == old(self).budget(),
            final(self).progress_log() == old(self).progress_log(),
            final(self).high_score_log() == old(self).high_score_log(),
            final(self).wins_log() == old(self).wins_log().push(n),
    {
        self.wins.write(n);
    }

    /// Hands out a read-only observer of all three cells; the worker keeps
    /// the sole write capability.
    pub fn reader(&self) -> ReporterReader {
        ReporterReader {
            progress: self.current_iterations.reader(),
            high_score: self.high_score.reader(),
            wins: self.wins.reader(),
        }
    }
}

/// The aggregator's non-blocking view of one worker's bundle.
pub struct ReporterReader {
    progress: CellReader,
    high_score: CellReader,
    wins: CellReader,
}

/// One observation of a bundle's three cells. Each field is a value the
/// owning worker actually stored, though the three need not come from the
/// same publication and any of them may be stale.
#[derive(Clone, Copy, Debug, PartialEq, Eq, Structural)]
pub struct Sample {
    pub progress: u64,
    pub high_score: u64,
    pub wins: u64,
}

impl ReporterReader {
    /// Samples all three cells without blocking their writer.
    pub fn sample(&self) -> Sample {
        Sample {
            progress: self.progress.read(),
            high_score: self.high_score.read(),
            wins: self.wins.read(),
        }
    }
}

/// The reduction of one round of samples: progress summed, best outcome
/// maximised, wins summed (sums saturate at the machine limit).
#[derive(Clone, Copy, Debug, PartialEq, Eq, Structural)]
pub struct Snapshot {
    pub position: u64,
    pub high_score: u64,
    pub wins: u64,
}

/// The sum of the sampled progress values, as an unbounded integer.
pub open spec fn sum_progress(s: Seq<Sample>) -> int
    decreases s.len(),
{
    if s.len() == 0 {
        0
    } else {
        sum_progress(s.drop_last()) + s.last().progress
    }
}

/// The maximum of the sampled best-outcome values, 0 when there are none.
pub open spec fn max_high_score(s: Seq<Sample>) -> int
    decreases s.len(),
{
    if s.len() == 0 {
        0
    } else if s.last().high_score >= max_high_score(s.drop_last()) {
        s.last().high_score as int
    } else {
        max_high_score(s.drop_last())
    }
}

/// The sum of the sampled win counts, as an unbounded integer.
pub open spec fn sum_wins(s: Seq<Sample>) -> int
    decreases s.len(),
{
    if s.len() == 0 {
        0
    } else {
        sum_wins(s.drop_last()) + s.last().wins
    }
}

/// An unbounded sum clamped to what a cell can hold.
pub open spec fn clamped(n: int) -> int {
    if n > u64::MAX {
        u64::MAX as int
    } else {
        n
    }
}

/// Holds when `s` is the reduction of the sample round `round`: progress
/// summed, best outcome maximised, wins summed, the sums saturating.
pub open spec fn reduces(round: Seq<Sample>, s: Snapshot) -> bool {
    s.position == clamped(sum_progress(round)) && s.high_score == max_high_score(round)
        && s.wins == clamped(sum_wins(round))
}

/// Reduces one round of samples: progress by saturating sum, best outcome by
/// maximum, wins by saturating sum.
pub fn reduce(samples: &Vec<Sample>) -> (s: Snapshot)
    ensures
        s.position == clamped(sum_progress(samples@)),
        s.high_score == max_high_score(samples@),
        s.wins == clamped(sum_wins(samples@)),
{
    let mut position: u64 = 0;
    let mut high_score: u64 = 0;
    let mut wins: u64 = 0;
    let mut i: usize = 0;
    while i < samples.len()
        invariant
            0 <= i <= samples.len(),
            position == clamped(sum_progress(samples@.take(i as int))),
            high_score == max_high_score(samples@.take(i as int)),
            wins == clamped(sum_wins(samples@.take(i as int))),
        decreases samples.len() - i,
    {
        let ghost prefix = samples@.take(i as int);
        let s = samples[i];
        proof {
            assert(samples@.take(i + 1).drop_last() =~= prefix);
            assert(samples@.take(i + 1).last() == s);
        }
        position = if position <= u64::MAX - s.progress {
            position + s.progress
        } else {
            u64::MAX
        };
        if s.high_score > high_score {
            high_score = s.high_score;
        }
        wins = if wins <= u64::MAX - s.wins {
            wins + s.wins
        } else {
            u64::MAX
        };
        i += 1;
    }
    proof {
        assert(samples@.take(samples@.len() as int) =~= samples@);
    }
    Snapshot { position, high_score, wins }
}

/// The aggregator's phase: polling and rendering while workers run, then a
/// final render once the stop signal arrives, then closed.
#[derive(Clone, Copy, Debug, PartialEq, Eq, Structural)]
pub enum Phase {
    Running,
    Finalizing,
    Stopped,
}

/// What the display should do after one polling tick.
#[derive(Clone, Copy, Debug, PartialEq, Eq, Structural)]
pub enum TickAction {
    Render,
    FinalizeRender,
}

/// The aggregator's state: the total trial count the display was sized for,
/// one read-only observer per worker bundle, and the current phase.
pub struct ReportHandler {
    total: u64,
    readers: Vec<ReporterReader>,
    phase: Phase,
}

impl ReportHandler {
    /// The total trial count this handler was created for.
    pub closed spec fn total(&self) -> u64 {
        self.total
    }

    /// How many worker bundles this handler observes.
    pub closed spec fn reader_count(&self) -> int {
        self.readers@.len() as int
    }

    /// The handler's current phase.
    pub closed spec fn phase(&self) -> Phase {
        self.phase
    }

    /// Creates a handler for a run of `desired_iterations` trials in total,
    /// observing no bundles yet.
    pub fn new(desired_iterations: u64) -> (h: Self)
        ensures
            h.total() == desired_iterations,
            h.reader_count() == 0,
            h.phase() == Phase::Running,
    {
        ReportHandler { total: desired_iterations, readers: Vec::new(), phase: Phase::Running }
    }

    /// Creates the bundle for one worker assigned `desired_iterations`
    /// trials, keeps its read-only observer, and hands the bundle — the sole
    /// write capability — back for the worker.
    pub fn add_reporter(&mut self, desired_iterations: u64) -> (r: Reporter)
        ensures
            final(self).total() == old(self).total(),
            final(self).phase() == old(self).phase(),
            final(self).reader_count() == old(self).reader_count() + 1,
            r.budget() == desired_iterations,
            r.progress_log() == seq![0u64],
            r.high_score_log() == seq![0u64],
            r.wins_log() == seq![0u64],
    {
        let reporter = Reporter::new(desired_iterations);
        self.readers.push(reporter.reader());
        reporter
    }

    /// Samples every observed bundle once and reduces the round: progress by
    /// saturating sum, best outcome by maximum, wins by saturating sum. The
    /// sampled values themselves are whatever is currently visible, possibly
    /// stale.
    pub fn refresh(&self) -> (s: Snapshot)
        ensures
            exists|round: Seq<Sample>|
                round.len() == self.reader_count() && #[trigger] reduces(round, s),
            self.reader_count() == 0 ==> s == (Snapshot { position: 0, high_score: 0, wins: 0 }),
    {
        let mut samples: Vec<Sample> = Vec::new();
        let mut i: usize = 0;
        while i < self.readers.len()
            invariant
                samples@.len() == i,
                0 <= i <= self.readers@.len(),
            decreases self.readers@.len() - i,
        {
            samples.push(self.readers[i].sample());
            i += 1;
        }
        let snapshot = reduce(&samples);
        proof {
            assert(reduces(samples@, snapshot));
            if self.reader_count() == 0 {
                assert(samples@.len() == 0);
                assert(samples@ =~= Seq::<Sample>::empty());
            }
        }
        snapshot
    }

    /// One polling tick: without a stop signal the display re-renders and
    /// polling continues; once the stop signal arrives the handler moves to
    /// its final render, and only then.
    pub fn observe(&mut self, stop_requested: bool) -> (a: TickAction)
        requires
            old(self).phase() == Phase::Running,
        ensures
            final(self).total() == old(self).total(),
            final(self).reader_count() == old(self).reader_count(),
            !stop_requested ==> a == TickAction::Render && final(self).phase() == Phase::Running,
            stop_requested ==> a == TickAction::FinalizeRender && final(self).phase()
                == Phase::Finalizing,
    {
        if stop_requested {
            self.phase = Phase::Finalizing;
            TickAction::FinalizeRender
        } else {
            TickAction::Render
        }
    }

    /// Closes the handler after its final render.
    pub fn close(&mut self)
        requires
            old(self).phase() == Phase::Finalizing,
        ensures
            final(self).total() == old(self).total(),
            final(self).reader_count() == old(self).reader_count(),
            final(self).phase() == Phase::Stopped,
    {
        self.phase = Phase::Stopped;
    }
}

/// Law: once every worker has published its true final state, the samples of
/// a round are exactly the assigned budgets, and the aggregator's progress
/// reduction recovers their sum — with the partitioner's guarantee, the total
/// trial count: no trial is lost or double-counted.
pub proof fn lemma_final_reduction(samples: Seq<Sample>, budgets: Seq<u64>)
    requires
        samples.len() == budgets.len(),
        forall|i: int| 0 <= i < samples.len() ==> samples[i].progress == budgets[i],
    ensures
        sum_progress(samples) == sum_u64(budgets),
    decreases samples.len(),
{
    if samples.len() > 0 {
        lemma_final_reduction(samples.drop_last(), budgets.drop_last());
    }
}

/// Law: the best-outcome reduction never moves backwards between two rounds
/// whose samples are pointwise at least as new — staleness may delay the
/// maximum, but can never invert it.
pub proof fn lemma_max_monotone(earlier: Seq<Sample>, later: Seq<Sample>)
    requires
        earlier.len() == later.len(),
        forall|i: int| 0 <= i < earlier.len() ==> earlier[i].high_score <= later[i].high_score,
    ensures
        max_high_score(earlier) <= max_high_score(later),
    decreases earlier.len(),
{
    if earlier.len() > 0 {
        lemma_max_monotone(earlier.drop_last(), later.drop_last());
    }
}

/// Law: the progress reduction never moves backwards between two rounds whose
/// samples are pointwise at least as new, so the finalization render shows a
/// sum at least as large as any rendered while running.
pub proof fn lemma_sum_monotone(earlier: Seq<Sample>, later: Seq<Sample>)
    requires
        earlier.len() == later.len(),
        forall|i: int| 0 <= i < earlier.len() ==> earlier[i].progress <= later[i].progress,
    ensures
        sum_progress(earlier) <= sum_progress(later),
    decreases earlier.len(),
{
    if earlier.len() > 0 {
        lemma_sum_monotone(earlier.drop_last(), later.drop_last());
    }
}

/// Law: staleness may delay the best-outcome maximum but never invert it.
/// Every worker publishes a best-outcome sequence that only grows; a tick
/// observes, for each worker, one published value, and a later tick observes
/// one published no earlier. The reduced maximum then cannot decrease from
/// the earlier tick to the later one.
pub proof fn lemma_stale_max_never_inverts(
    logs: Seq<Seq<u64>>,
    earlier: Seq<Sample>,
    later: Seq<Sample>,
    earlier_at: Seq<int>,
    later_at: Seq<int>,
)
    requires
        logs.len() == earlier.len(),
        logs.len() == later.len(),
        logs.len() == earlier_at.len(),
        logs.len() == later_at.len(),
        forall|k: int| 0 <= k < logs.len() ==> non_decreasing(#[trigger] logs[k]),
        forall|k: int|
            0 <= k < logs.len() ==> 0 <= earlier_at[k] <= #[trigger] later_at[k] < logs[k].len(),
        forall|k: int|
            0 <= k < logs.len() ==> (#[trigger] earlier[k]).high_score == logs[k][earlier_at[k]],
        forall|k: int|
            0 <= k < logs.len() ==> (#[trigger] later[k]).high_score == logs[k][later_at[k]],
    ensures
        max_high_score(earlier) <= max_high_score(later),
{
    assert forall|k: int| 0 <= k < earlier.len() implies earlier[k].high_score
        <= later[k].high_score by {
        assert(non_decreasing(logs[k]));
        assert(logs[k][earlier_at[k]] <= logs[k][later_at[k]]);
    }
    lemma_max_monotone(earlier, later);
}

/// Law: the same under the progress sum — a later tick that observes, from
/// each worker, a publication no earlier than the one an earlier tick
/// observed, reduces to a sum at least as large. In particular the
/// finalization render, which observes every worker's last publication,
/// shows a sum at least as large as any render before it.
pub proof fn lemma_stale_sum_never_decreases(
    logs: Seq<Seq<u64>>,
    earlier: Seq<Sample>,
    later: Seq<Sample>,
    earlier_at: Seq<int>,
    later_at: Seq<int>,
)
    requires
        logs.len() == earlier.len(),
        logs.len() == later.len(),
        logs.len() == earlier_at.len(),
        logs.len() == later_at.len(),
        forall|k: int| 0 <= k < logs.len() ==> non_decreasing(#[trigger] logs[k]),
        forall|k: int|
            0 <= k < logs.len() ==> 0 <= earlier_at[k] <= #[trigger] later_at[k] < logs[k].len(),
        forall|k: int|
            0 <= k < logs.len() ==> (#[trigger] earlier[k]).progress == logs[k][earlier_at[k]],
        forall|k: int|
            0 <= k < logs.len() ==> (#[trigger] later[k]).progress == logs[k][later_at[k]],
    ensures
        sum_progress(earlier) <= sum_progress(later),
{
    assert forall|k: int| 0 <= k < earlier.len() implies earlier[k].progress
        <= later[k].progress by {
        assert(non_decreasing(logs[k]));
        assert(logs[k][earlier_at[k]] <= logs[k][later_at[k]]);
    }
    lemma_sum_monotone(earlier, later);
}

} // verus!
