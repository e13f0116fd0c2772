use vstd::prelude::*;
use crate::delivery::{description, DeliveryError};
use crate::state::{
    failed_in, failed_set, failure_record, order_after, success_record, RecordView,
    UploadStateStore,
};
use crate::time::Timestamp;
use crate::model::{step, ActionView, LoopInput, LoopView};
use crate::watch::{is_relevant, triggers_upload, ChangeEvent};

verus! {

/// Where the control loop stands.
#[derive(Clone, Debug)]
pub enum Phase {
    /// Waiting for an event or the heartbeat timer.
    Idle,
    /// An upload of this path is in flight.
    Uploading(String),
    /// A heartbeat is in flight.
    HeartbeatInFlight,
    /// The watch source is gone; the loop has ended.
    Stopped,
}

/// The phase, with paths as character sequences.
pub enum PhaseView {
    Idle,
    Uploading(Seq<char>),
    HeartbeatInFlight,
    Stopped,
}

/// What the loop asks its driver to do next.
#[derive(Clone, Debug)]
pub enum Action {
    /// Nothing to do: wait for the next event.
    Nothing,
    /// Upload this file, then report with `on_upload_finished`.
    Upload(String),
    /// Send a heartbeat, then report with `on_heartbeat_finished`.
    SendHeartbeat,
    /// Watching has ended for good: stop the process with an error.
    Stop,
}

/// An action as a mathematical value.
pub open spec fn action_view(a: Action) -> ActionView {
    match a {
        Action::Nothing => ActionView::Nothing,
        Action::Upload(p) => ActionView::Upload(p@),
        Action::SendHeartbeat => ActionView::SendHeartbeat,
        Action::Stop => ActionView::Stop,
    }
}

/// The model's input for the end of an upload with `result` at `at`.
pub open spec fn upload_input(result: Result<(), DeliveryError>, at: Timestamp) -> LoopInput {
    match result {
        Ok(_) => LoopInput::UploadDone { failure: None, at },
        Err(e) => LoopInput::UploadDone { failure: Some(description(e)), at },
    }
}

pub open spec fn uploads(a: Action, p: Seq<char>) -> bool {
    a matches Action::Upload(q) && q@ == p
}

/// The control loop of the agent: it turns watch events, timer ticks and the
/// outcomes of delivery calls into the next call to make, and keeps the
/// per-path delivery state. One call is in flight at a time; after a
/// successful heartbeat every failed path is uploaded again, one after the
/// other.
pub struct AgentLoop {
    suffix: String,
    phase: Phase,
    sweep: Vec<String>,
    store: UploadStateStore,
}

impl View for AgentLoop {
    type V = LoopView;

    open spec fn view(&self) -> LoopView {
        LoopView {
            phase: self.phase(),
            pending: self.pending(),
            records: self.records(),
            order: self.store_order(),
            suffix: self.suffix(),
        }
    }
}

impl AgentLoop {
    pub closed spec fn phase(&self) -> PhaseView {
        match self.phase {
            Phase::Idle => PhaseView::Idle,
            Phase::Uploading(p) => PhaseView::Uploading(p@),
            Phase::HeartbeatInFlight => PhaseView::HeartbeatInFlight,
            Phase::Stopped => PhaseView::Stopped,
        }
    }

    /// The paths still to upload in the current retry sweep, in order.
    pub closed spec fn pending(&self) -> Seq<Seq<char>> {
        self.sweep@.map_values(|s: String| s@)
    }

    /// The delivery state of every path attempted so far.
    pub closed spec fn records(&self) -> Map<Seq<char>, RecordView> {
        self.store@
    }

    /// The paths attempted so far, in the order of their first attempt.
    pub closed spec fn store_order(&self) -> Seq<Seq<char>> {
        self.store.order()
    }

    /// The file-name suffix that marks a log file.
    pub closed spec fn suffix(&self) -> Seq<char> {
        self.suffix@
    }

    pub closed spec fn wf(&self) -> bool {
        &&& self.store.wf()
        &&& !(self.phase() is Uploading) ==> self.sweep@.len() == 0
    }

    /// A loop that waits for its first event, with no delivery history.
    pub fn new(suffix: String) -> (r: AgentLoop)
        ensures
            r.wf(),
            r.phase() == PhaseView::Idle,
            r.pending().len() == 0,
            r.records() == Map::<Seq<char>, RecordView>::empty(),
            r.store_order().len() == 0,
            r.suffix() == suffix@,
    {
        AgentLoop { suffix, phase: Phase::Idle, sweep: Vec::new(), store: UploadStateStore::new() }
    }

    /// The delivery state kept so far.
    pub fn store(&self) -> (r: &UploadStateStore)
        requires
            self.wf(),
        ensures
            r.wf(),
            r@ == self.records(),
            r.order() == self.store_order(),
    {
        &self.store
    }

    /// Whether the loop has ended.
    pub fn is_stopped(&self) -> (r: bool)
        ensures
            r == (self.phase() == PhaseView::Stopped),
    {
        match self.phase {
            Phase::Stopped => true,
            _ => false,
        }
    }

    /// A change reported by the watch source. When idle, a creation or
    /// modification of a file with the configured suffix starts its upload;
    /// any other event is dropped and leaves the loop exactly as it was, so
    /// whatever the loop does afterwards is what it would have done without
    /// that event.
    pub fn on_change(&mut self, event: ChangeEvent) -> (r: Action)
        requires
            old(self).wf(),
        ensures
            step(old(self)@, LoopInput::Change(event)) == (final(self)@, action_view(r)),
            final(self).wf(),
            final(self).records() == old(self).records(),
            final(self).store_order() == old(self).store_order(),
            final(self).suffix() == old(self).suffix(),
            final(self).pending() == old(self).pending(),
            if old(self).phase() == PhaseView::Idle && triggers_upload(event, old(self).suffix()) {
                &&& uploads(r, event.path@)
                &&& final(self).phase() == PhaseView::Uploading(event.path@)
            } else {
                &&& r is Nothing
                &&& *final(self) == *old(self)
            },
    {
        let idle = match self.phase {
            Phase::Idle => true,
            _ => false,
        };
        if idle && is_relevant(&event, self.suffix.as_str()) {
            let path = event.path;
            self.phase = Phase::Uploading(path.clone());
            Action::Upload(path)
        } else {
            Action::Nothing
        }
    }

    /// The heartbeat timer fired. When idle, a heartbeat is sent; otherwise
    /// the tick is skipped and the next one will try again.
    pub fn on_tick(&mut self) -> (r: Action)
        requires
            old(self).wf(),
        ensures
            step(old(self)@, LoopInput::Tick) == (final(self)@, action_view(r)),
            final(self).wf(),
            final(self).records() == old(self).records(),
            final(self).store_order() == old(self).store_order(),
            final(self).suffix() == old(self).suffix(),
            final(self).pending() == old(self).pending(),
            if old(self).phase() == PhaseView::Idle {
                &&& r is SendHeartbeat
                &&& final(self).phase() == PhaseView::HeartbeatInFlight
            } else {
                &&& r is Nothing
                &&& final(self).phase() == old(self).phase()
            },
    {
        match self.phase {
            Phase::Idle => {
                self.phase = Phase::HeartbeatInFlight;
                Action::SendHeartbeat
            },
            _ => Action::Nothing,
        }
    }

    /// Moves to the next path of the sweep, or back to idle when none is left.
    fn next_in_sweep(&mut self) -> (r: Action)
        requires
            old(self).store.wf(),
        ensures
            final(self).wf(),
            final(self).records() == old(self).records(),
            final(self).store_order() == old(self).store_order(),
            final(self).suffix() == old(self).suffix(),
            old(self).pending().len() == 0 ==> r is Nothing && final(self).phase()
                == PhaseView::Idle && final(self).pending() == Seq::<Seq<char>>::empty(),
            old(self).pending().len() > 0 ==> uploads(r, old(self).pending()[0])
                && final(self).phase() == PhaseView::Uploading(old(self).pending()[0])
                && final(self).pending() == old(self).pending().drop_first(),
    {
        if self.sweep.len() == 0 {
            self.phase = Phase::Idle;
            assert(self.pending() =~= Seq::<Seq<char>>::empty());
            Action::Nothing
        } else {
            let ghost before = self.sweep@;
            let next = self.sweep.remove(0);
            assert(self.pending() =~= before.map_values(|s: String| s@).drop_first());
            self.phase = Phase::Uploading(next.clone());
            Action::Upload(next)
        }
    }

    /// The outcome of the heartbeat. After a success, every path that is
    /// marked failed at this moment is uploaded again, one at a time, each
    /// once; after a failure nothing is retried until the next tick.
    pub fn on_heartbeat_finished(&mut self, result: Result<(), DeliveryError>) -> (r: Action)
        requires
            old(self).wf(),
        ensures
            step(old(self)@, LoopInput::HeartbeatDone(result is Ok)) == (final(self)@, action_view(r)),
            final(self).wf(),
            final(self).records() == old(self).records(),
            final(self).store_order() == old(self).store_order(),
            final(self).suffix() == old(self).suffix(),
            old(self).phase() != PhaseView::HeartbeatInFlight ==> r is Nothing
                && final(self).phase() == old(self).phase() && final(self).pending()
                == old(self).pending(),
            old(self).phase() == PhaseView::HeartbeatInFlight && result is Err ==> r is Nothing
                && final(self).phase() == PhaseView::Idle && final(self).pending().len() == 0,
            old(self).phase() == PhaseView::HeartbeatInFlight && result is Ok ==> {
                &&& ({
                    let q = failed_in(old(self).store_order(), old(self).records());
                    &&& q.len() == 0 ==> r is Nothing && final(self).phase() == PhaseView::Idle
                    &&& q.len() > 0 ==> uploads(r, q[0]) && final(self).phase()
                        == PhaseView::Uploading(q[0]) && final(self).pending() == q.drop_first()
                })
                &&& failed_set(old(self).records()) == Set::<Seq<char>>::empty() ==> r is Nothing
                    && final(self).phase() == PhaseView::Idle && final(self).pending().len() == 0
                &&& failed_set(old(self).records()) != Set::<Seq<char>>::empty()
                    ==> exists|p: Seq<char>|
                    uploads(r, p) && final(self).phase() == PhaseView::Uploading(p)
                        && sweep_covers(p, final(self).pending(), failed_set(old(self).records()))
            },
    {
        let in_flight = match self.phase {
            Phase::HeartbeatInFlight => true,
            _ => false,
        };
        if !in_flight {
            return Action::Nothing;
        }
        match result {
            Err(_) => {
                self.phase = Phase::Idle;
                assert(self.pending() =~= Seq::<Seq<char>>::empty());
                Action::Nothing
            },
            Ok(()) => {
                let failed = self.store.snapshot_failed();
                let ghost fs = failed_set(self.store@);
                let ghost q = failed@.map_values(|s: String| s@);
                proof {
                    lemma_distinct_views(failed@);
                    assert forall|p: Seq<char>| fs.contains(p) <==> q.contains(p) by {
                        if fs.contains(p) {
                            let i = choose|i: int| 0 <= i < failed@.len() && failed@[i]@ == p;
                            assert(q[i] == p);
                        }
                        if q.contains(p) {
                            let i = choose|i: int| 0 <= i < q.len() && q[i] == p;
                            assert(failed@[i]@ == p);
                        }
                    }
                    assert(fs =~= q.to_set());
                    q.unique_seq_to_set();
                }
                self.sweep = failed;
                let r = self.next_in_sweep();
                proof {
                    if q.len() > 0 {
                        assert(q =~= seq![q[0]] + q.drop_first());
                        assert(sweep_covers(q[0], q.drop_first(), fs));
                        assert(fs.contains(q[0]));
                    } else {
                        assert(fs =~= Set::<Seq<char>>::empty());
                    }
                }
                r
            },
        }
    }

    /// The outcome of the upload in flight, finished at `at`. The path's
    /// record is updated; then the sweep goes on, or the loop waits again.
    pub fn on_upload_finished(&mut self, result: Result<(), DeliveryError>, at: Timestamp) -> (r:
        Action)
        requires
            old(self).wf(),
        ensures
            step(old(self)@, upload_input(result, at)) == (final(self)@, action_view(r)),
            final(self).wf(),
            final(self).suffix() == old(self).suffix(),
            old(self).phase() matches PhaseView::Uploading(p) ==> {
                &&& final(self).store_order() == order_after(
                    old(self).store_order(),
                    old(self).records(),
                    p,
                )
                &&& result is Ok ==> final(self).records() == old(self).records().insert(
                    p,
                    success_record(at),
                )
                &&& result matches Err(e) ==> final(self).records() == old(self).records().insert(
                    p,
                    failure_record(old(self).records(), p, description(e), at),
                )
                &&& old(self).pending().len() == 0 ==> r is Nothing && final(self).phase()
                    == PhaseView::Idle && final(self).pending().len() == 0
                &&& old(self).pending().len() > 0 ==> uploads(r, old(self).pending()[0])
                    && final(self).phase() == PhaseView::Uploading(old(self).pending()[0])
                    && final(self).pending() == old(self).pending().drop_first()
            },
            !(old(self).phase() is Uploading) ==> r is Nothing && final(self).phase() == old(
                self,
            ).phase() && final(self).records() == old(self).records() && final(self).pending()
                == old(self).pending() && final(self).store_order() == old(self).store_order(),
    {
        let path = match &self.phase {
            Phase::Uploading(p) => p.clone(),
            _ => {
                return Action::Nothing;
            },
        };
        match result {
            Ok(()) => self.store.record_success(&path, at),
            Err(e) => self.store.record_failure(&path, e.describe(), at),
        }
        self.next_in_sweep()
    }

    /// The watch source closed its channel: the loop ends for good, and the
    /// driver is told to stop.
    pub fn on_disconnect(&mut self) -> (r: Action)
        requires
            old(self).wf(),
        ensures
            step(old(self)@, LoopInput::Disconnect) == (final(self)@, action_view(r)),
            final(self).wf(),
            r is Stop,
            final(self).phase() == PhaseView::Stopped,
            final(self).pending().len() == 0,
            final(self).records() == old(self).records(),
            final(self).store_order() == old(self).store_order(),
            final(self).suffix() == old(self).suffix(),
    {
        self.phase = Phase::Stopped;
        self.sweep = Vec::new();
        assert(self.pending() =~= Seq::<Seq<char>>::empty());
        Action::Stop
    }
}

/// The path being uploaded and those still pending together name every
/// path of `failed` exactly once.
pub open spec fn sweep_covers(current: Seq<char>, rest: Seq<Seq<char>>, failed: Set<Seq<char>>) -> bool {
    let all = seq![current] + rest;
    &&& all.no_duplicates()
    &&& all.to_set() == failed
    &&& all.len() == failed.len()
}

proof fn lemma_distinct_views(v: Seq<String>)
    requires
        crate::state::distinct_strings(v),
    ensures
        v.map_values(|s: String| s@).no_duplicates(),
{
}

} // verus!
