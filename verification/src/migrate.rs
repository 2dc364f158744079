//! The decisions of a migration run. The run reads the source head, asks
//! the state database whether that head is already mapped, plans the
//! pipeline and checks the safety policy, writes the destination commit,
//! and records the mapping. Each answer from the outside comes back as an
//! event; [`migrate_step`] decides what happens next. A run whose head is
//! already mapped does nothing, and nothing is written unless the policy
//! report allows it.
use vstd::prelude::*;

use crate::model::commit::CommitId;
use crate::policy::PolicyReport;

verus! {

/// Where a migration run stands.
#[derive(Clone, Copy, Debug, PartialEq, Eq, Structural)]
pub enum MigratePhase {
    /// Waiting for the source head.
    AwaitHead,
    /// Waiting to hear whether the source head is already mapped.
    AwaitMapping,
    /// Waiting for the planned run's policy report.
    AwaitPlan,
    /// Waiting for the destination commit to be written.
    AwaitWrite,
    /// The run is over.
    Finished,
}

/// The state of a migration run.
#[derive(Debug)]
pub struct MigrateState {
    pub phase: MigratePhase,
    /// Whether the whole history is replayed (else one commit at the head).
    pub history: bool,
    /// The source head, once known.
    pub head: Option<CommitId>,
}

/// What the outside reports back.
#[derive(Debug)]
pub enum MigrateEvent {
    /// The source head, `None` when the source has no commits.
    Head(Option<CommitId>),
    /// Whether the state database already maps the source head.
    Mapped(bool),
    /// The policy report of the planned run.
    Planned(PolicyReport),
    /// The destination commit written, `None` when nothing changed.
    Written(Option<CommitId>),
}

/// What the run does next.
#[derive(Debug)]
pub enum MigrateAction {
    /// Stop: the source has no commits.
    NothingToMigrate,
    /// Ask the state database whether the source head is mapped.
    CheckMapping,
    /// Stop: the source head is already mapped; nothing is changed.
    AlreadySynced,
    /// Plan the pipeline run and check the policy.
    Plan,
    /// Stop with a policy failure, reporting this report.
    Refuse(PolicyReport),
    /// Write (and push) the destination commit.
    Write,
    /// Replay the source history onto the destination.
    Replay,
    /// Record that this source commit maps to this destination commit.
    Record(CommitId, CommitId),
    /// Stop.
    Done,
}

/// A policy report lets the run proceed: allowed, and nothing awaits review.
pub open spec fn report_allows(p: PolicyReport) -> bool {
    p.allowed && p.review@.len() == 0
}

impl MigrateState {
    /// A run that has not started, replaying the whole history or not.
    pub fn new(history: bool) -> (r: MigrateState)
        ensures
            r.phase == MigratePhase::AwaitHead,
            r.history == history,
            r.head is None,
    {
        MigrateState { phase: MigratePhase::AwaitHead, history, head: None }
    }
}

/// The next state and action of a migration run after `event`.
///
/// A run without source commits stops. In snapshot mode a head already
/// mapped stops the run unchanged; otherwise the run is planned (in history
/// mode right after the head, since each replayed commit is checked on its
/// own). A policy report that does not allow the run refuses it before
/// anything is written. A written commit is recorded against the source
/// head. An event that does not answer the last action, or any event after
/// the run is over, ends it.
pub fn migrate_step(state: MigrateState, event: MigrateEvent) -> (r: (MigrateState, MigrateAction))
    ensures
        event matches MigrateEvent::Head(None) ==> (state.phase == MigratePhase::AwaitHead ==> r.0.phase
            == MigratePhase::Finished && r.1 is NothingToMigrate),
        event matches MigrateEvent::Head(Some(h)) ==> (state.phase == MigratePhase::AwaitHead ==> {
            &&& r.0.head == Some(h)
            &&& r.0.history == state.history
            &&& if state.history {
                r.0.phase == MigratePhase::AwaitPlan && r.1 is Plan
            } else {
                r.0.phase == MigratePhase::AwaitMapping && r.1 is CheckMapping
            }
        }),
        event matches MigrateEvent::Mapped(true) ==> (state.phase == MigratePhase::AwaitMapping ==> r.0.phase
            == MigratePhase::Finished && r.1 is AlreadySynced),
        event matches MigrateEvent::Mapped(false) ==> (state.phase == MigratePhase::AwaitMapping ==> r.0.phase
            == MigratePhase::AwaitPlan && r.1 is Plan && r.0.head == state.head && r.0.history == state.history),
        event matches MigrateEvent::Planned(p) ==> (state.phase == MigratePhase::AwaitPlan ==> {
            &&& r.0.head == state.head
            &&& r.0.history == state.history
            &&& if !report_allows(p) {
                r.0.phase == MigratePhase::Finished && r.1 == MigrateAction::Refuse(p)
            } else if state.history {
                r.0.phase == MigratePhase::Finished && r.1 is Replay
            } else {
                r.0.phase == MigratePhase::AwaitWrite && r.1 is Write
            }
        }),
        event matches MigrateEvent::Written(Some(d)) ==> (state.phase == MigratePhase::AwaitWrite ==> r.0.phase
            == MigratePhase::Finished && match state.head {
            Some(s) => r.1 == MigrateAction::Record(s, d),
            None => r.1 is Done,
        }),
        event matches MigrateEvent::Written(None) ==> (state.phase == MigratePhase::AwaitWrite ==> r.0.phase
            == MigratePhase::Finished && r.1 is Done),
        state.phase == MigratePhase::Finished ==> r.0.phase == MigratePhase::Finished && r.1 is Done,
        // Nothing is written unless an unmapped head's plan was allowed.
        r.1 is Write ==> state.phase == MigratePhase::AwaitPlan && !state.history && (event matches MigrateEvent::Planned(
            p,
        ) && report_allows(p)),
        r.0.phase == MigratePhase::AwaitWrite ==> state.phase == MigratePhase::AwaitPlan && !state.history,
        r.0.phase == MigratePhase::AwaitPlan ==> (state.phase == MigratePhase::AwaitMapping && event matches MigrateEvent::Mapped(
            false,
        )) || (state.phase == MigratePhase::AwaitHead && state.history),
        r.1 is Replay ==> state.phase == MigratePhase::AwaitPlan && state.history && (event matches MigrateEvent::Planned(
            p,
        ) && report_allows(p)),
        r.1 is Record ==> state.phase == MigratePhase::AwaitWrite,
{
    let history = state.history;
    match (state.phase, event) {
        (MigratePhase::AwaitHead, MigrateEvent::Head(None)) => {
            (MigrateState { phase: MigratePhase::Finished, history, head: None }, MigrateAction::NothingToMigrate)
        },
        (MigratePhase::AwaitHead, MigrateEvent::Head(Some(h))) => {
            if history {
                (MigrateState { phase: MigratePhase::AwaitPlan, history, head: Some(h) }, MigrateAction::Plan)
            } else {
                (MigrateState { phase: MigratePhase::AwaitMapping, history, head: Some(h) }, MigrateAction::CheckMapping)
            }
        },
        (MigratePhase::AwaitMapping, MigrateEvent::Mapped(true)) => {
            (MigrateState { phase: MigratePhase::Finished, history, head: state.head }, MigrateAction::AlreadySynced)
        },
        (MigratePhase::AwaitMapping, MigrateEvent::Mapped(false)) => {
            (MigrateState { phase: MigratePhase::AwaitPlan, history, head: state.head }, MigrateAction::Plan)
        },
        (MigratePhase::AwaitPlan, MigrateEvent::Planned(p)) => {
            if !p.is_allowed() {
                (MigrateState { phase: MigratePhase::Finished, history, head: state.head }, MigrateAction::Refuse(p))
            } else if history {
                (MigrateState { phase: MigratePhase::Finished, history, head: state.head }, MigrateAction::Replay)
            } else {
                (MigrateState { phase: MigratePhase::AwaitWrite, history, head: state.head }, MigrateAction::Write)
            }
        },
        (MigratePhase::AwaitWrite, MigrateEvent::Written(Some(d))) => {
            match state.head {
                Some(s) => (MigrateState { phase: MigratePhase::Finished, history, head: None }, MigrateAction::Record(s, d)),
                None => (MigrateState { phase: MigratePhase::Finished, history, head: None }, MigrateAction::Done),
            }
        },
        (_, _) => (MigrateState { phase: MigratePhase::Finished, history, head: state.head }, MigrateAction::Done),
    }
}

} // verus!
