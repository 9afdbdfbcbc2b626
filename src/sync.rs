//! Scheduling of directory scans: requests queue up in submission order, one
//! scan runs at a time, and results are published in the order scans ran.
use vstd::prelude::*;

verus! {

/// Abstract state of the scheduler.
pub struct SyncView {
    /// Every path submitted so far, oldest first.
    pub history: Seq<Seq<char>>,
    /// How many scans have been started.
    pub started: nat,
    /// The scan in progress, if any.
    pub active: Option<nat>,
    /// How many scans have been published.
    pub published: nat,
    /// The step the running scan is at.
    pub phase: ScanPhase,
}

/// The steps of one scan, in the order they happen.
#[derive(Clone, Copy, PartialEq, Eq, Structural, Debug)]
pub enum ScanPhase {
    /// Load what was saved for the path, replacing the collection if found.
    LoadPersisted,
    /// Merge the collection with the directory's current files.
    Rescan,
    /// Group similar items.
    Group,
    /// Hand the result to the interactive thread.
    Publish,
}

pub open spec fn next_phase(p: ScanPhase) -> ScanPhase {
    match p {
        ScanPhase::LoadPersisted => ScanPhase::Rescan,
        ScanPhase::Rescan => ScanPhase::Group,
        _ => ScanPhase::Publish,
    }
}

pub open spec fn view_wf(v: SyncView) -> bool {
    &&& v.started <= v.history.len()
    &&& match v.active {
        Some(s) => s + 1 == v.started && v.published == s,
        None => v.published == v.started,
    }
}

/// One request handed to the scanning worker.
pub struct ScanJob {
    pub seq: u64,
    pub path: String,
}

/// What the view does once a scan is published.
#[derive(Clone, Copy, PartialEq, Eq, Structural, Debug)]
pub enum PublishAction {
    /// The collection has items: select the first one.
    SelectFirst,
    /// The collection is empty: show the placeholder and the empty status.
    ShowEmpty,
}

/// Result of a finished scan, for the interactive thread.
pub struct Publication {
    pub seq: u64,
    pub num_items: usize,
    pub action: PublishAction,
}

pub open spec fn publish_action_of(num_items: nat) -> PublishAction {
    if num_items > 0 {
        PublishAction::SelectFirst
    } else {
        PublishAction::ShowEmpty
    }
}

/// Scheduler state after a request for `path`.
pub open spec fn submit_step(v: SyncView, path: Seq<char>) -> SyncView {
    SyncView { history: v.history.push(path), ..v }
}

/// Scheduler state after the worker asks for work, and the job it gets.
pub open spec fn take_step(v: SyncView) -> (SyncView, Option<(nat, Seq<char>)>) {
    if v.active is None && v.started < v.history.len() {
        (
            SyncView {
                started: v.started + 1,
                active: Some(v.started),
                phase: ScanPhase::LoadPersisted,
                ..v
            },
            Some((v.started, v.history[v.started as int])),
        )
    } else {
        (v, None)
    }
}

/// Scheduler state after the worker finished the step of the running scan.
pub open spec fn advance_step(v: SyncView) -> SyncView {
    if v.active is Some && v.phase != ScanPhase::Publish {
        SyncView { phase: next_phase(v.phase), ..v }
    } else {
        v
    }
}

/// Scheduler state after the worker publishes its scan, and what is published:
/// only a scan that went through all its steps.
pub open spec fn complete_step(v: SyncView) -> (SyncView, Option<nat>) {
    match v.active {
        Some(s) => if v.phase == ScanPhase::Publish {
            (SyncView { active: None, published: s + 1, ..v }, Some(s))
        } else {
            (v, None)
        },
        None => (v, None),
    }
}

/// Serialises scan requests for a single background worker.
pub struct Synchronizer {
    pending: Vec<String>,
    submitted: u64,
    started: u64,
    active: Option<u64>,
    published: u64,
    phase: ScanPhase,
    history: Ghost<Seq<Seq<char>>>,
}

impl Synchronizer {
    pub closed spec fn view(&self) -> SyncView {
        SyncView {
            history: self.history@,
            started: self.started as nat,
            active: match self.active {
                Some(s) => Some(s as nat),
                None => None,
            },
            published: self.published as nat,
            phase: self.phase,
        }
    }

    pub closed spec fn wf(&self) -> bool {
        &&& view_wf(self@)
        &&& self.submitted as nat == self.history@.len()
        &&& self.pending@.len() == self.history@.len() - self.started
        &&& forall|i: int|
            0 <= i < self.pending@.len() ==> #[trigger] self.pending@[i]@ == self.history@[self.started + i]
    }

    /// A scheduler with no request yet.
    pub fn new() -> (r: Self)
        ensures
            r.wf(),
            r@ == (SyncView {
                history: Seq::empty(),
                started: 0,
                active: None,
                published: 0,
                phase: ScanPhase::LoadPersisted,
            }),
    {
        Synchronizer {
            pending: Vec::new(),
            submitted: 0,
            started: 0,
            active: None,
            published: 0,
            phase: ScanPhase::LoadPersisted,
            history: Ghost(Seq::empty()),
        }
    }

    /// How many requests have been submitted.
    pub fn submitted(&self) -> (r: u64)
        requires
            self.wf(),
        ensures
            r == self@.history.len(),
    {
        self.submitted
    }

    /// Queues a scan of `path`; it runs after every earlier request.
    pub fn synchronize(&mut self, path: &str)
        requires
            old(self).wf(),
            old(self)@.history.len() < u64::MAX,
        ensures
            final(self).wf(),
            final(self)@ == submit_step(old(self)@, path@),
    {
        self.pending.push(path.to_owned());
        self.submitted = self.submitted + 1;
        self.history = Ghost(self.history@.push(path@));
        assert forall|i: int| 0 <= i < self.pending@.len() implies #[trigger] self.pending@[i]@
            == self.history@[self.started + i] by {
            if i < self.pending@.len() - 1 {
                assert(self.pending@[i] == old(self).pending@[i]);
            }
        }
    }

    /// Hands the oldest waiting request to the worker, unless a scan is
    /// already running or nothing waits.
    pub fn take_next(&mut self) -> (r: Option<ScanJob>)
        requires
            old(self).wf(),
        ensures
            final(self).wf(),
            final(self)@ == take_step(old(self)@).0,
            match (r, take_step(old(self)@).1) {
                (Some(job), Some((s, p))) => job.seq == s && job.path@ == p,
                (None, None) => true,
                _ => false,
            },
    {
        if self.active.is_some() || self.pending.len() == 0 {
            return None;
        }
        let path = self.pending.remove(0);
        let seq = self.started;
        self.started = self.started + 1;
        self.active = Some(seq);
        self.phase = ScanPhase::LoadPersisted;
        assert forall|i: int| 0 <= i < self.pending@.len() implies #[trigger] self.pending@[i]@
            == self.history@[self.started + i] by {
            assert(self.pending@[i] == old(self).pending@[i + 1]);
        }
        assert(old(self).pending@[0]@ == self.history@[seq as int]);
        Some(ScanJob { seq, path })
    }

    /// The step the running scan is at, if a scan runs.
    pub fn phase(&self) -> (r: Option<ScanPhase>)
        ensures
            r == (if self@.active is Some {
                Some(self@.phase)
            } else {
                None
            }),
    {
        if self.active.is_some() {
            Some(self.phase)
        } else {
            None
        }
    }

    /// The worker finished the current step of the running scan: moves on to
    /// the next one and returns it.
    pub fn advance(&mut self) -> (r: Option<ScanPhase>)
        requires
            old(self).wf(),
        ensures
            final(self).wf(),
            final(self)@ == advance_step(old(self)@),
            r == (if old(self)@.active is Some && old(self)@.phase != ScanPhase::Publish {
                Some(final(self)@.phase)
            } else {
                None
            }),
    {
        if self.active.is_none() {
            return None;
        }
        let next = match self.phase {
            ScanPhase::LoadPersisted => ScanPhase::Rescan,
            ScanPhase::Rescan => ScanPhase::Group,
            ScanPhase::Group => ScanPhase::Publish,
            ScanPhase::Publish => {
                return None;
            },
        };
        self.phase = next;
        Some(next)
    }

    /// Ends the running scan once its last step is reached; the result carries
    /// its sequence number and what the view does with a collection of
    /// `num_items` items.
    pub fn complete(&mut self, num_items: usize) -> (r: Option<Publication>)
        requires
            old(self).wf(),
        ensures
            final(self).wf(),
            final(self)@ == complete_step(old(self)@).0,
            match (r, complete_step(old(self)@).1) {
                (Some(p), Some(s)) => p.seq == s && p.num_items == num_items && p.action
                    == publish_action_of(num_items as nat),
                (None, None) => true,
                _ => false,
            },
    {
        match self.active {
            Some(seq) => {
                if self.phase != ScanPhase::Publish {
                    return None;
                }
                self.active = None;
                self.published = seq + 1;
                let action = if num_items > 0 {
                    PublishAction::SelectFirst
                } else {
                    PublishAction::ShowEmpty
                };
                Some(Publication { seq, num_items, action })
            },
            None => None,
        }
    }
}

/// A call made on the scheduler, for reasoning about sequences of calls.
pub ghost enum SyncOp {
    Submit(Seq<char>),
    Take,
    Advance,
    Complete,
}

/// Applies `ops` in order from `v`; gives the final state, the jobs handed out
/// as (sequence number, path), and the sequence numbers published.
pub open spec fn run_ops(v: SyncView, ops: Seq<SyncOp>) -> (SyncView, Seq<(nat, Seq<char>)>, Seq<nat>)
    decreases ops.len(),
{
    if ops.len() == 0 {
        (v, Seq::empty(), Seq::empty())
    } else {
        let prev = run_ops(v, ops.drop_last());
        let w = prev.0;
        match ops.last() {
            SyncOp::Submit(p) => (submit_step(w, p), prev.1, prev.2),
            SyncOp::Take => {
                let t = take_step(w);
                match t.1 {
                    Some(job) => (t.0, prev.1.push(job), prev.2),
                    None => (t.0, prev.1, prev.2),
                }
            },
            SyncOp::Advance => (advance_step(w), prev.1, prev.2),
            SyncOp::Complete => {
                let c = complete_step(w);
                match c.1 {
                    Some(s) => (c.0, prev.1, prev.2.push(s)),
                    None => (c.0, prev.1, prev.2),
                }
            },
        }
    }
}

/// For every sequence of calls, whatever interleaving of requests and scans:
/// the jobs handed to the worker are the submitted paths in submission order,
/// numbered consecutively, and publications come in that same order, so a
/// later request is never published before an earlier one.
pub proof fn lemma_scans_in_submission_order(v: SyncView, ops: Seq<SyncOp>)
    requires
        view_wf(v),
    ensures
        view_wf(run_ops(v, ops).0),
        run_ops(v, ops).0.history.len() >= v.history.len(),
        run_ops(v, ops).0.history.subrange(0, v.history.len() as int) == v.history,
        run_ops(v, ops).0.started == v.started + run_ops(v, ops).1.len(),
        run_ops(v, ops).0.published == v.published + run_ops(v, ops).2.len(),
        forall|i: int|
            0 <= i < run_ops(v, ops).1.len() ==> #[trigger] run_ops(v, ops).1[i] == (
                (v.started + i) as nat,
                run_ops(v, ops).0.history[v.started + i],
            ),
        forall|i: int|
            0 <= i < run_ops(v, ops).2.len() ==> #[trigger] run_ops(v, ops).2[i] == v.published
                + i,
    decreases ops.len(),
{
    if ops.len() > 0 {
        lemma_scans_in_submission_order(v, ops.drop_last());
        let prev = run_ops(v, ops.drop_last());
        let cur = run_ops(v, ops);
        assert(cur.0.history.subrange(0, v.history.len() as int) =~= v.history) by {
            assert(prev.0.history.subrange(0, v.history.len() as int) == v.history);
            assert forall|i: int| 0 <= i < v.history.len() implies cur.0.history[i] == prev.0.history[i] by {
            }
        }
        assert forall|i: int| 0 <= i < cur.1.len() implies #[trigger] cur.1[i] == (
            (v.started + i) as nat,
            cur.0.history[v.started + i],
        ) by {
            if i < prev.1.len() {
                assert(prev.1[i] == ((v.started + i) as nat, prev.0.history[v.started + i]));
                assert(v.started + i < prev.0.history.len());
            }
        }
        assert forall|i: int| 0 <= i < cur.2.len() implies #[trigger] cur.2[i] == v.published + i by {
            if i < prev.2.len() {
                assert(prev.2[i] == v.published + i);
            }
        }
    }
}

/// Within one scan, the saved state is loaded before the directory is
/// rescanned, which comes before grouping, which comes before publication:
/// a scan is published only after exactly these three steps, in this order.
pub proof fn lemma_scan_steps_in_order(v: SyncView)
    requires
        view_wf(v),
        take_step(v).1 is Some,
    ensures
        ({
            let w0 = take_step(v).0;
            let w1 = advance_step(w0);
            let w2 = advance_step(w1);
            let w3 = advance_step(w2);
            &&& w0.phase == ScanPhase::LoadPersisted
            &&& w1.phase == ScanPhase::Rescan
            &&& w2.phase == ScanPhase::Group
            &&& w3.phase == ScanPhase::Publish
            &&& complete_step(w0).1 is None
            &&& complete_step(w1).1 is None
            &&& complete_step(w2).1 is None
            &&& complete_step(w3).1 == Some(v.started)
        }),
{
}

/// The status text of an empty collection.
pub fn empty_status_text() -> (r: String)
    ensures
        r@ == "No images found"@,
{
    "No images found".to_owned()
}

} // verus!
