//! Applying take-over decisions: the order in which files are handled and
//! the progress reported for each, as a state machine driven by the task that
//! performs the file operations.
use vstd::prelude::*;

verus! {

/// Result of the file operation for one item.
#[derive(Clone, Copy, PartialEq, Eq, Structural, Debug)]
pub enum FileOutcome {
    /// The file was copied or moved.
    Done,
    /// This file could not be handled; the others still are.
    Failed,
    /// The destination itself is unusable; nothing more can be done.
    DestinationUnusable,
}

/// One message of the progress stream.
#[derive(Clone, Copy, PartialEq, Eq, Structural, Debug)]
pub enum CommitProgress {
    /// The item at this collection index was handled.
    Step(usize),
    /// The item at this collection index could not be handled.
    ItemFailed(usize),
    /// Every selected item was handled; this is the last message.
    Completed,
    /// The commit stopped early; this is the last message.
    Aborted,
}

/// Indices of the items marked for take-over, in collection order.
pub open spec fn selected_indices(take_over: Seq<bool>) -> Seq<usize>
    decreases take_over.len(),
{
    if take_over.len() == 0 {
        Seq::empty()
    } else {
        let prev = selected_indices(take_over.drop_last());
        if take_over.last() {
            prev.push((take_over.len() - 1) as usize)
        } else {
            prev
        }
    }
}

pub struct CommitView {
    pub selected: Seq<usize>,
    pub next: nat,
    pub successes: nat,
    pub failures: nat,
    pub finished: bool,
}

/// The progress of one commit over a snapshot of take-over decisions.
pub struct CommitTask {
    selected: Vec<usize>,
    next: usize,
    successes: usize,
    failures: usize,
    finished: bool,
}

impl CommitTask {
    pub closed spec fn view(&self) -> CommitView {
        CommitView {
            selected: self.selected@,
            next: self.next as nat,
            successes: self.successes as nat,
            failures: self.failures as nat,
            finished: self.finished,
        }
    }

    pub closed spec fn wf(&self) -> bool {
        &&& self.next <= self.selected@.len()
        &&& self.successes + self.failures == self.next
    }

    /// A commit of the items whose take-over flag is set.
    pub fn new(take_over: &Vec<bool>) -> (r: Self)
        ensures
            r.wf(),
            r@ == (CommitView {
                selected: selected_indices(take_over@),
                next: 0,
                successes: 0,
                failures: 0,
                finished: false,
            }),
    {
        let mut selected: Vec<usize> = Vec::new();
        let mut i: usize = 0;
        while i < take_over.len()
            invariant
                i <= take_over@.len(),
                selected@ == selected_indices(take_over@.subrange(0, i as int)),
            decreases take_over@.len() - i,
        {
            assert(take_over@.subrange(0, i + 1).drop_last() =~= take_over@.subrange(0, i as int));
            if take_over[i] {
                selected.push(i);
            }
            i += 1;
        }
        assert(take_over@.subrange(0, take_over@.len() as int) =~= take_over@);
        CommitTask { selected, next: 0, successes: 0, failures: 0, finished: false }
    }

    /// The collection index of the next item to handle, if any is left.
    pub fn next_item(&self) -> (r: Option<usize>)
        requires
            self.wf(),
        ensures
            r == (if !self@.finished && self@.next < self@.selected.len() {
                Some(self@.selected[self@.next as int])
            } else {
                None
            }),
    {
        if !self.finished && self.next < self.selected.len() {
            Some(self.selected[self.next])
        } else {
            None
        }
    }

    /// Records the outcome for the item `next_item` gave, and returns the
    /// message to report for it.
    pub fn record(&mut self, outcome: FileOutcome) -> (r: CommitProgress)
        requires
            old(self).wf(),
            !old(self)@.finished,
            old(self)@.next < old(self)@.selected.len(),
        ensures
            final(self).wf(),
            final(self)@.selected == old(self)@.selected,
            final(self)@.next == old(self)@.next + 1,
            ({
                let idx = old(self)@.selected[old(self)@.next as int];
                match outcome {
                    FileOutcome::Done => r == CommitProgress::Step(idx) && final(self)@.successes
                        == old(self)@.successes + 1 && final(self)@.failures == old(self)@.failures
                        && !final(self)@.finished,
                    FileOutcome::Failed => r == CommitProgress::ItemFailed(idx)
                        && final(self)@.successes == old(self)@.successes && final(self)@.failures
                        == old(self)@.failures + 1 && !final(self)@.finished,
                    FileOutcome::DestinationUnusable => r == CommitProgress::Aborted
                        && final(self)@.successes == old(self)@.successes && final(self)@.failures
                        == old(self)@.failures + 1 && final(self)@.finished,
                }
            }),
    {
        let n = self.selected.len();
        let idx = self.selected[self.next];
        assert(self.next < n);
        self.next = self.next + 1;
        match outcome {
            FileOutcome::Done => {
                self.successes = self.successes + 1;
                CommitProgress::Step(idx)
            },
            FileOutcome::Failed => {
                self.failures = self.failures + 1;
                CommitProgress::ItemFailed(idx)
            },
            FileOutcome::DestinationUnusable => {
                self.failures = self.failures + 1;
                self.finished = true;
                CommitProgress::Aborted
            },
        }
    }

    /// Ends a commit whose items have all been handled: the final message,
    /// given once.
    pub fn finish(&mut self) -> (r: Option<CommitProgress>)
        requires
            old(self).wf(),
        ensures
            final(self).wf(),
            final(self)@.selected == old(self)@.selected,
            final(self)@.next == old(self)@.next,
            final(self)@.successes == old(self)@.successes,
            final(self)@.failures == old(self)@.failures,
            if !old(self)@.finished && old(self)@.next == old(self)@.selected.len() {
                r == Some(CommitProgress::Completed) && final(self)@.finished
            } else {
                r is None && final(self)@.finished == old(self)@.finished
            },
    {
        if !self.finished && self.next == self.selected.len() {
            self.finished = true;
            Some(CommitProgress::Completed)
        } else {
            None
        }
    }

    /// How many items were handled.
    pub fn successes(&self) -> (r: usize)
        ensures
            r == self@.successes,
    {
        self.successes
    }

    /// How many items could not be handled.
    pub fn failures(&self) -> (r: usize)
        ensures
            r == self@.failures,
    {
        self.failures
    }
}

/// What the interactive side knows of a commit: whether one runs, and the
/// last message it received.
pub struct CommitMonitor {
    pub running: bool,
    pub last: Option<CommitProgress>,
}

pub open spec fn is_final(p: CommitProgress) -> bool {
    p is Completed || p is Aborted
}

impl CommitMonitor {
    /// No commit running.
    pub fn new() -> (r: Self)
        ensures
            !r.running,
            r.last is None,
    {
        CommitMonitor { running: false, last: None }
    }

    /// A commit was started.
    pub fn start(&mut self)
        ensures
            final(self).running,
            final(self).last is None,
    {
        self.running = true;
        self.last = None;
    }

    /// Takes one message of the stream: a final one ends the commit.
    pub fn receive(&mut self, p: CommitProgress)
        ensures
            final(self).last == Some(p),
            final(self).running == (old(self).running && !is_final(p)),
    {
        if let CommitProgress::Completed = p {
            self.running = false;
        } else if let CommitProgress::Aborted = p {
            self.running = false;
        }
        self.last = Some(p);
    }
}

} // verus!
