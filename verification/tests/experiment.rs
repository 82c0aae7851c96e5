use supervisor::experiment::{Action, Decision, Experiment, State};
use supervisor::journal::{open_result, Journal, OpenFailure};

#[test]
fn start_and_stop_only_when_valid() {
    let mut e = Experiment::new();
    assert_eq!(e.actions(), vec![Action::Start]);
    assert_eq!(e.decide(Action::Stop), Decision::Ignore);
    assert_eq!(e.decide(Action::Start), Decision::Start);
    assert_eq!(e.state, State::Stopped);
    e.started();
    assert_eq!(e.actions(), vec![Action::Stop]);
    assert_eq!(e.decide(Action::Start), Decision::Ignore);
    assert_eq!(e.decide(Action::Stop), Decision::Stop);
    assert_eq!(e.state, State::Stopped);
}

#[test]
fn journal_opening_and_timestamps() {
    assert_eq!(open_result(true, true, true), Ok(()));
    assert_eq!(open_result(false, false, false), Err(OpenFailure::File));
    assert_eq!(open_result(true, false, false), Err(OpenFailure::Router));
    assert_eq!(open_result(true, true, false), Err(OpenFailure::TrackingSystem));
    let mut j = Journal::new();
    assert_eq!(j.timestamp(5), None);
    j.open(1000);
    assert_eq!(j.timestamp(1250), Some(250));
    j.close();
    assert_eq!(j.timestamp(1300), None);
}
