use v8_bridge::text::decimal_chars;
use v8_bridge::evaluation::{
    encode_promise_state, format_exception, rejection_message, PromiseState,
    RejectedWork, SettlePoll, SettleStep,
    MAX_MICROTASK_CHECKPOINTS, PROMISE_STATE_FULFILLED, PROMISE_STATE_PENDING,
    PROMISE_STATE_REJECTED,
};

#[test]
fn promise_state_codes() {
    assert_eq!(encode_promise_state(PromiseState::Pending), 0);
    assert_eq!(encode_promise_state(PromiseState::Fulfilled), 1);
    assert_eq!(encode_promise_state(PromiseState::Rejected), 2);
    assert_eq!(
        (PROMISE_STATE_PENDING, PROMISE_STATE_FULFILLED, PROMISE_STATE_REJECTED),
        (0, 1, 2)
    );
}

#[test]
fn settled_promise_is_reported_at_once() {
    let mut poll = SettlePoll::new();
    assert_eq!(poll.step(PromiseState::Fulfilled), SettleStep::Fulfilled);
    let mut poll = SettlePoll::new();
    assert_eq!(poll.step(PromiseState::Rejected), SettleStep::Rejected);
}

#[test]
fn promise_settling_after_checkpoints() {
    let mut poll = SettlePoll::new();
    for _ in 0..10 {
        assert_eq!(poll.step(PromiseState::Pending), SettleStep::RunCheckpoint);
    }
    assert_eq!(poll.step(PromiseState::Fulfilled), SettleStep::Fulfilled);
}

#[test]
fn pending_promise_is_given_up_after_1024_checkpoints() {
    assert_eq!(MAX_MICROTASK_CHECKPOINTS, 1024);
    let mut poll = SettlePoll::new();
    let mut checkpoints = 0;
    loop {
        match poll.step(PromiseState::Pending) {
            SettleStep::RunCheckpoint => checkpoints += 1,
            SettleStep::GiveUp => break,
            other => panic!("unexpected step {other:?}"),
        }
    }
    assert_eq!(checkpoints, 1024);
    assert_eq!(poll.step(PromiseState::Fulfilled), SettleStep::GiveUp);
}

#[test]
fn promise_settling_on_the_last_inspection_counts() {
    let mut poll = SettlePoll::new();
    for _ in 0..1023 {
        assert_eq!(poll.step(PromiseState::Pending), SettleStep::RunCheckpoint);
    }
    assert_eq!(poll.step(PromiseState::Rejected), SettleStep::Rejected);
}

#[test]
fn decimal_notation() {
    let text = |n: usize| decimal_chars(n).into_iter().collect::<String>();
    assert_eq!(text(0), "0");
    assert_eq!(text(7), "7");
    assert_eq!(text(10), "10");
    assert_eq!(text(1024), "1024");
    assert_eq!(text(usize::MAX), usize::MAX.to_string());
}

#[test]
fn exception_with_line() {
    assert_eq!(
        format_exception(Some("ReferenceError: x is not defined".to_string()), Some(3)),
        "line 3: ReferenceError: x is not defined"
    );
    assert_eq!(format_exception(Some("E".to_string()), Some(120)), "line 120: E");
}

#[test]
fn exception_without_line() {
    assert_eq!(format_exception(Some("boom".to_string()), Some(0)), "boom");
    assert_eq!(format_exception(Some("boom".to_string()), None), "boom");
}

#[test]
fn exception_without_text() {
    assert_eq!(format_exception(None, None), "V8 exception");
    assert_eq!(format_exception(None, Some(2)), "line 2: V8 exception");
}

#[test]
fn rejection_messages() {
    assert_eq!(rejection_message(RejectedWork::Promise, Some("Error: x".to_string())), "Error: x");
    assert_eq!(rejection_message(RejectedWork::Promise, None), "Promise rejected");
    assert_eq!(rejection_message(RejectedWork::FunctionCall, None), "Function call rejected");
    assert_eq!(
        rejection_message(RejectedWork::ModuleEvaluation, None),
        "Module evaluation rejected"
    );
}
