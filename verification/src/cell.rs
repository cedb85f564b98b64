use vstd::prelude::*;
use std::sync::Arc;
use core::sync::atomic::AtomicU64;
use core::sync::atomic::Ordering;

verus! {

/// A single-writer, many-reader shared value.
///
/// The owner holds the one `ReadWhileWriting` handle and is the only party
/// able to store into the cell; each store replaces the whole value at once,
/// so a concurrent reader can observe only a value that was actually stored
/// (the initial value or one of the writes), never a torn mixture.
///
/// The view of a cell is the full sequence of values its owner has stored,
/// initial value included. Readers obtained through [`Self::reader`] observe
/// the underlying atomic without blocking the writer; what they see may lag
/// behind the owner's latest store.
pub struct ReadWhileWriting {
    shared: Arc<AtomicU64>,
    last: u64,
    hist: Ghost<Seq<u64>>,
}

/// A sequence of published values that never moves backwards.
pub open spec fn non_decreasing(s: Seq<u64>) -> bool {
    forall|i: int, j: int| 0 <= i <= j < s.len() ==> s[i] <= s[j]
}

/// A non-blocking, read-only observer of one [`ReadWhileWriting`] cell.
///
/// Any number of readers may sample the cell at any time, concurrently with
/// the owner's stores; a sample is some value the owner stored, possibly a
/// stale one.
pub struct CellReader {
    shared: Arc<AtomicU64>,
}

impl ReadWhileWriting {
    /// The sequence of values stored so far: the initial value, then each
    /// write in order.
    pub closed spec fn view(&self) -> Seq<u64> {
        self.hist@
    }

    #[verifier::type_invariant]
    closed spec fn wf(self) -> bool {
        self.hist@.len() >= 1 && self.hist@.last() == self.last
    }

    /// Creates a cell holding `value`.
    pub fn new(value: u64) -> (cell: Self)
        ensures
            cell@ == seq![value],
    {
        let ghost hist: Seq<u64> = seq![value];
        ReadWhileWriting {
            shared: Arc::new(AtomicU64::new(value)),
            last: value,
            hist: Ghost(hist),
        }
    }

    /// Replaces the stored value as a single whole-value store; never blocks
    /// readers.
    pub fn write(&mut self, value: u64)
        ensures
            final(self)@ == old(self)@.push(value),
    {
        // The handle is rebuilt whole so that the cached last value and the
        // history can never be observed out of step with one another.
        let shared = self.shared.clone();
        shared.store(value, Ordering::Release);
        let ghost hist = self.hist@.push(value);
        *self = ReadWhileWriting { shared, last: value, hist: Ghost(hist) };
    }

    /// The owner's view of the cell: the value of its own most recent store,
    /// which is always one of the values in the cell's history.
    pub fn read(&self) -> (value: u64)
        ensures
            value == self@.last(),
            self@.contains(value),
    {
        proof {
            use_type_invariant(self);
            assert(self.hist@[self.hist@.len() - 1] == self.last);
        }
        self.last
    }

    /// Hands out a read-only observer of this cell; the owner keeps the sole
    /// write capability.
    pub fn reader(&self) -> CellReader {
        CellReader { shared: self.shared.clone() }
    }
}

impl Default for ReadWhileWriting {
    /// A cell holding 0, the starting value of every metric.
    fn default() -> (cell: Self)
        ensures
            cell@ == seq![0u64],
    {
        ReadWhileWriting::new(0)
    }
}

impl CellReader {
    /// Samples the cell without blocking its writer. The result is whatever
    /// store is currently visible to this thread; it may lag behind the
    /// owner's latest write, but it is always a whole stored value.
    pub fn read(&self) -> u64 {
        self.shared.load(Ordering::Acquire)
    }
}

} // verus!
