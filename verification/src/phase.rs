//! The phases of a run and the steps between them.

use vstd::prelude::*;
use crate::coordinator::CrackError;

verus! {

/// Where a run stands.
#[derive(Clone, Copy, PartialEq, Eq, Debug, Structural)]
pub enum Phase {
    /// Reading the arguments and the word list.
    Loading,
    /// Cutting the list into slices.
    Partitioning,
    /// Starting one worker for each slice.
    Running,
    /// Waiting for every worker to end.
    Joining,
    /// Picking the answer and the statistics.
    Reporting,
    /// The run was given up before any worker started.
    Failed(CrackError),
}

/// What happened in a phase.
#[derive(Clone, Copy, PartialEq, Eq, Debug, Structural)]
pub enum Event {
    /// Too few arguments were given.
    ArgumentsMissing,
    /// The target's length is that of no supported algorithm's digests.
    AlgorithmUnknown,
    /// The word list could not be read.
    WordlistUnreadable,
    /// The word list was read as a whole.
    WordlistLoaded,
    /// The slices were made.
    Partitioned,
    /// Every worker was started.
    WorkersDispatched,
    /// Every worker has ended.
    WorkersJoined,
}

impl Phase {
    /// Place of the phase in the order of a run.
    pub open spec fn rank(self) -> nat {
        match self {
            Phase::Loading => 0,
            Phase::Partitioning => 1,
            Phase::Running => 2,
            Phase::Joining => 3,
            Phase::Reporting => 4,
            Phase::Failed(_) => 5,
        }
    }

    /// No step leaves the phase.
    pub open spec fn is_final(self) -> bool {
        self is Reporting || self is Failed
    }

    /// Whether workers have been started by the time of this phase.
    pub open spec fn workers_started(self) -> bool {
        self is Joining || self is Reporting
    }
}

/// The phase that follows `phase` on `event`, where `event` can happen in
/// `phase`.
pub open spec fn next_phase(phase: Phase, event: Event) -> Option<Phase> {
    match (phase, event) {
        (Phase::Loading, Event::ArgumentsMissing) => Some(Phase::Failed(CrackError::Usage)),
        (Phase::Loading, Event::AlgorithmUnknown) => Some(
            Phase::Failed(CrackError::UnrecognizedAlgorithm),
        ),
        (Phase::Loading, Event::WordlistUnreadable) => Some(
            Phase::Failed(CrackError::WordlistUnreadable),
        ),
        (Phase::Loading, Event::WordlistLoaded) => Some(Phase::Partitioning),
        (Phase::Partitioning, Event::Partitioned) => Some(Phase::Running),
        (Phase::Running, Event::WorkersDispatched) => Some(Phase::Joining),
        (Phase::Joining, Event::WorkersJoined) => Some(Phase::Reporting),
        _ => None,
    }
}

/// Takes the step from `phase` on `event`, or none where `event` cannot
/// happen in `phase`.
pub fn advance(phase: Phase, event: Event) -> (r: Option<Phase>)
    ensures
        r == next_phase(phase, event),
{
    match phase {
        Phase::Loading => match event {
            Event::ArgumentsMissing => Some(Phase::Failed(CrackError::Usage)),
            Event::AlgorithmUnknown => Some(Phase::Failed(CrackError::UnrecognizedAlgorithm)),
            Event::WordlistUnreadable => Some(Phase::Failed(CrackError::WordlistUnreadable)),
            Event::WordlistLoaded => Some(Phase::Partitioning),
            _ => None,
        },
        Phase::Partitioning => match event {
            Event::Partitioned => Some(Phase::Running),
            _ => None,
        },
        Phase::Running => match event {
            Event::WorkersDispatched => Some(Phase::Joining),
            _ => None,
        },
        Phase::Joining => match event {
            Event::WorkersJoined => Some(Phase::Reporting),
            _ => None,
        },
        _ => None,
    }
}

/// Every step leads to a later phase: a run never goes back.
pub proof fn steps_go_forward(phase: Phase, event: Event)
    requires
        next_phase(phase, event) is Some,
    ensures
        next_phase(phase, event).unwrap().rank() > phase.rank(),
{
}

/// A run fails only while loading, before any worker is started, and a
/// failed run starts none.
pub proof fn failure_comes_before_workers(phase: Phase, event: Event)
    requires
        next_phase(phase, event) matches Some(next) && next is Failed,
    ensures
        phase == Phase::Loading,
        !phase.workers_started(),
        !next_phase(phase, event).unwrap().workers_started(),
{
}

/// The run ends in the reporting phase or in a failure: no step leaves
/// either, and a step leaves every other phase.
pub proof fn final_phases_have_no_step(phase: Phase)
    ensures
        phase.is_final() <==> forall|event: Event| next_phase(phase, event) is None,
{
    if !phase.is_final() {
        let event = match phase {
            Phase::Loading => Event::WordlistLoaded,
            Phase::Partitioning => Event::Partitioned,
            Phase::Running => Event::WorkersDispatched,
            _ => Event::WorkersJoined,
        };
        assert(next_phase(phase, event) is Some);
    }
}

} // verus!
