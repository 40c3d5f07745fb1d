use dig_node_service::service_control::{
    RunEvent, RunStage, RunWait, StopOutcome, StopSignal, GRACEFUL_STOP_DEADLINE_MS,
};

#[test]
fn a_stop_requested_before_the_wait_is_not_missed() {
    let mut signal = StopSignal::new();
    let waiter = signal.waiter();
    signal.request();
    assert!(
        signal.is_requested(),
        "the request must be readable at once"
    );
    assert!(
        waiter.wait_is_over(&signal),
        "a stop requested before the waiter runs must resolve immediately"
    );
}

#[test]
fn every_waiter_sees_the_same_stop() {
    let mut signal = StopSignal::new();
    let a = signal.waiter();
    let b = signal.waiter();
    signal.request();
    let first = a.wait_is_over(&signal);
    let second = b.wait_is_over(&signal);
    assert!(first && second, "both waiters must observe the stop");
}

#[test]
fn a_serve_body_that_never_finishes_is_stopped_by_the_deadline() {
    let stage: RunStage<u8> = RunStage::Serving;
    assert_eq!(stage.wait(100), RunWait::BodyOrStop);
    let stage = stage.next(RunEvent::StopRequested);
    assert_eq!(stage.wait(100), RunWait::BodyOrDeadline(100));
    match stage.next(RunEvent::DeadlinePassed) {
        RunStage::Over(result, outcome) => {
            assert_eq!(outcome, StopOutcome::Forced);
            assert!(
                result.is_none(),
                "a forced stop has no serve result to report"
            );
        }
        other => panic!("the run must be over: {other:?}"),
    }
}

#[test]
fn a_serve_body_that_winds_down_is_reported_as_graceful() {
    let stage: RunStage<u8> = RunStage::Serving;
    let stage = stage.next(RunEvent::StopRequested);
    match stage.next(RunEvent::BodyFinished(7u8)) {
        RunStage::Over(result, outcome) => {
            assert_eq!(outcome, StopOutcome::Graceful);
            assert_eq!(
                result,
                Some(7),
                "a graceful stop must carry the body's own result through"
            );
        }
        other => panic!("the run must be over: {other:?}"),
    }
}

#[test]
fn a_body_that_ends_by_itself_is_graceful_without_a_stop() {
    let stage: RunStage<u8> = RunStage::Serving;
    let over = stage.next(RunEvent::BodyFinished(3));
    assert_eq!(over.wait(1), RunWait::Nothing);
    assert!(matches!(
        over,
        RunStage::Over(Some(3), StopOutcome::Graceful)
    ));
}

#[test]
fn nothing_is_asked_for_until_it_is() {
    let signal = StopSignal::default();
    assert!(!signal.is_requested());
    assert!(!signal.waiter().wait_is_over(&signal));
    assert_eq!(GRACEFUL_STOP_DEADLINE_MS, 20_000);
}

#[test]
fn asking_twice_changes_nothing() {
    let mut signal = StopSignal::new();
    signal.request();
    signal.request();
    assert!(signal.is_requested());
}
