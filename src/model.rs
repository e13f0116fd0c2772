use vstd::prelude::*;
use crate::agent::PhaseView;
use crate::state::{failed_in, failure_record, order_after, success_record, RecordView};
use crate::time::Timestamp;
use crate::watch::{triggers_upload, ChangeEvent};

verus! {

/// Everything the control loop knows, as mathematical values.
pub struct LoopView {
    pub phase: PhaseView,
    pub pending: Seq<Seq<char>>,
    pub records: Map<Seq<char>, RecordView>,
    pub order: Seq<Seq<char>>,
    pub suffix: Seq<char>,
}

/// One input to the control loop.
pub enum LoopInput {
    Change(ChangeEvent),
    Tick,
    /// The heartbeat ended; `true` when it succeeded.
    HeartbeatDone(bool),
    /// The upload in flight ended at `at`; `failure` holds the error's
    /// description when it failed.
    UploadDone { failure: Option<Seq<char>>, at: Timestamp },
    Disconnect,
}

/// What the loop asks for, as mathematical values.
pub enum ActionView {
    Nothing,
    Upload(Seq<char>),
    SendHeartbeat,
    Stop,
}

/// Goes on with the paths `q`: the first is uploaded, or the loop goes idle.
pub open spec fn advance(v: LoopView, q: Seq<Seq<char>>) -> (LoopView, ActionView) {
    if q.len() == 0 {
        (LoopView { phase: PhaseView::Idle, pending: Seq::empty(), ..v }, ActionView::Nothing)
    } else {
        (
            LoopView { phase: PhaseView::Uploading(q[0]), pending: q.drop_first(), ..v },
            ActionView::Upload(q[0]),
        )
    }
}

/// One step of the control loop.
pub open spec fn step(v: LoopView, i: LoopInput) -> (LoopView, ActionView) {
    match i {
        LoopInput::Change(e) => if v.phase == PhaseView::Idle && triggers_upload(e, v.suffix) {
            (LoopView { phase: PhaseView::Uploading(e.path@), ..v }, ActionView::Upload(e.path@))
        } else {
            (v, ActionView::Nothing)
        },
        LoopInput::Tick => if v.phase == PhaseView::Idle {
            (LoopView { phase: PhaseView::HeartbeatInFlight, ..v }, ActionView::SendHeartbeat)
        } else {
            (v, ActionView::Nothing)
        },
        LoopInput::HeartbeatDone(ok) => if v.phase == PhaseView::HeartbeatInFlight {
            if ok {
                advance(v, failed_in(v.order, v.records))
            } else {
                advance(v, Seq::empty())
            }
        } else {
            (v, ActionView::Nothing)
        },
        LoopInput::UploadDone { failure, at } => match v.phase {
            PhaseView::Uploading(p) => {
                let rec = match failure {
                    None => success_record(at),
                    Some(err) => failure_record(v.records, p, err, at),
                };
                let next = LoopView {
                    records: v.records.insert(p, rec),
                    order: order_after(v.order, v.records, p),
                    ..v
                };
                advance(next, v.pending)
            },
            _ => (v, ActionView::Nothing),
        },
        LoopInput::Disconnect => (
            LoopView { phase: PhaseView::Stopped, pending: Seq::empty(), ..v },
            ActionView::Stop,
        ),
    }
}

/// The state after `inputs`, and the action answered to each.
pub open spec fn run(v: LoopView, inputs: Seq<LoopInput>) -> (LoopView, Seq<ActionView>)
    decreases inputs.len(),
{
    if inputs.len() == 0 {
        (v, Seq::empty())
    } else {
        let (mid, acts) = run(v, inputs.drop_last());
        let (end, a) = step(mid, inputs.last());
        (end, acts.push(a))
    }
}

/// The actions that ask for something, in order.
pub open spec fn requests(acts: Seq<ActionView>) -> Seq<ActionView>
    decreases acts.len(),
{
    if acts.len() == 0 {
        acts
    } else if acts.last() is Nothing {
        requests(acts.drop_last())
    } else {
        requests(acts.drop_last()).push(acts.last())
    }
}

/// An input that the loop drops whatever its state: a change that does not
/// call for an upload under `suffix`.
pub open spec fn ignored(i: LoopInput, suffix: Seq<char>) -> bool {
    i matches LoopInput::Change(e) && !triggers_upload(e, suffix)
}

/// `inputs` without the ignored ones.
pub open spec fn without_ignored(inputs: Seq<LoopInput>, suffix: Seq<char>) -> Seq<LoopInput>
    decreases inputs.len(),
{
    if inputs.len() == 0 {
        inputs
    } else if ignored(inputs.last(), suffix) {
        without_ignored(inputs.drop_last(), suffix)
    } else {
        without_ignored(inputs.drop_last(), suffix).push(inputs.last())
    }
}

proof fn lemma_run_keeps_suffix(v: LoopView, inputs: Seq<LoopInput>)
    ensures
        run(v, inputs).0.suffix == v.suffix,
    decreases inputs.len(),
{
    if inputs.len() > 0 {
        lemma_run_keeps_suffix(v, inputs.drop_last());
    }
}

/// Changes that do not call for an upload (a `.txt` file under the suffix
/// `.log`, a removal) make no difference: with them left out, the loop makes
/// the same requests, with the same arguments, and ends in the same state.
pub proof fn lemma_ignored_changes_make_no_difference(v: LoopView, inputs: Seq<LoopInput>)
    ensures
        run(v, without_ignored(inputs, v.suffix)).0 == run(v, inputs).0,
        requests(run(v, without_ignored(inputs, v.suffix)).1) == requests(run(v, inputs).1),
    decreases inputs.len(),
{
    if inputs.len() > 0 {
        let rest = inputs.drop_last();
        lemma_ignored_changes_make_no_difference(v, rest);
        lemma_run_keeps_suffix(v, rest);
        let kept = without_ignored(rest, v.suffix);
        let acts = run(v, rest).1;
        let (_, a) = step(run(v, rest).0, inputs.last());
        assert(acts.push(a).drop_last() =~= acts);
        if !ignored(inputs.last(), v.suffix) {
            let w = kept.push(inputs.last());
            assert(w.drop_last() =~= kept);
            let kept_acts = run(v, kept).1;
            assert(kept_acts.push(a).drop_last() =~= kept_acts);
        }
    }
}

} // verus!
