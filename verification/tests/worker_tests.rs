use logview::worker::{
    worker_step, WorkerAction, WorkerInput, WorkerState, LONG_DELAY_MS, SHORT_DELAY_MS,
};

#[test]
fn pause_parks_with_long_delay() {
    let (state, action) = worker_step(WorkerInput::PauseActive);
    assert_eq!(state, WorkerState::Paused);
    assert!(matches!(action, WorkerAction::SleepLong));
}

#[test]
fn line_is_appended_and_reading_continues() {
    let (state, action) = worker_step(WorkerInput::Line("hello".to_string()));
    assert_eq!(state, WorkerState::Reading);
    match action {
        WorkerAction::Append(line) => assert_eq!(line, "hello"),
        _ => panic!("a completed line must be appended"),
    }
}

#[test]
fn end_of_input_waits_briefly() {
    let (state, action) = worker_step(WorkerInput::EndOfInput);
    assert_eq!(state, WorkerState::WaitingForData);
    assert!(matches!(action, WorkerAction::SleepShort));
}

#[test]
fn read_error_recovers() {
    let (state, action) = worker_step(WorkerInput::ReadError);
    assert_eq!(state, WorkerState::RecoveringFromError);
    assert!(matches!(action, WorkerAction::SleepShort));
}

#[test]
fn paused_polling_is_slower_than_retry() {
    assert_eq!(SHORT_DELAY_MS, 10);
    assert_eq!(LONG_DELAY_MS, 100);
    assert!(SHORT_DELAY_MS < LONG_DELAY_MS);
}
