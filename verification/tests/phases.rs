use hash_cracker::coordinator::CrackError;
use hash_cracker::phase::{advance, Event, Phase};

const EVENTS: [Event; 7] = [
    Event::ArgumentsMissing,
    Event::AlgorithmUnknown,
    Event::WordlistUnreadable,
    Event::WordlistLoaded,
    Event::Partitioned,
    Event::WorkersDispatched,
    Event::WorkersJoined,
];

#[test]
fn run_goes_through_every_phase() {
    let mut phase = Phase::Loading;
    phase = advance(phase, Event::WordlistLoaded).unwrap();
    assert_eq!(phase, Phase::Partitioning);
    phase = advance(phase, Event::Partitioned).unwrap();
    assert_eq!(phase, Phase::Running);
    phase = advance(phase, Event::WorkersDispatched).unwrap();
    assert_eq!(phase, Phase::Joining);
    phase = advance(phase, Event::WorkersJoined).unwrap();
    assert_eq!(phase, Phase::Reporting);
}

#[test]
fn loading_failures() {
    assert_eq!(
        advance(Phase::Loading, Event::ArgumentsMissing),
        Some(Phase::Failed(CrackError::Usage))
    );
    assert_eq!(
        advance(Phase::Loading, Event::AlgorithmUnknown),
        Some(Phase::Failed(CrackError::UnrecognizedAlgorithm))
    );
    assert_eq!(
        advance(Phase::Loading, Event::WordlistUnreadable),
        Some(Phase::Failed(CrackError::WordlistUnreadable))
    );
}

#[test]
fn no_failure_after_loading() {
    for phase in [Phase::Partitioning, Phase::Running, Phase::Joining, Phase::Reporting] {
        for event in [Event::ArgumentsMissing, Event::AlgorithmUnknown, Event::WordlistUnreadable] {
            assert_eq!(advance(phase, event), None);
        }
    }
}

#[test]
fn final_phases_take_no_step() {
    for event in EVENTS {
        assert_eq!(advance(Phase::Reporting, event), None);
        assert_eq!(advance(Phase::Failed(CrackError::Usage), event), None);
        assert_eq!(advance(Phase::Failed(CrackError::WordlistUnreadable), event), None);
    }
}

#[test]
fn events_out_of_turn_are_refused() {
    assert_eq!(advance(Phase::Loading, Event::Partitioned), None);
    assert_eq!(advance(Phase::Loading, Event::WorkersJoined), None);
    assert_eq!(advance(Phase::Partitioning, Event::WordlistLoaded), None);
    assert_eq!(advance(Phase::Running, Event::WorkersJoined), None);
    assert_eq!(advance(Phase::Joining, Event::WorkersDispatched), None);
}
