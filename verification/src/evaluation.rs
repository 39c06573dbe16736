//! Decisions taken while evaluating scripts and modules: how promise states are
//! reported to the embedder, how long a promise is driven by microtask
//! checkpoints before giving up, and how script exceptions are reported.
use vstd::prelude::*;
use crate::text::{chars_of, decimal, decimal_chars, extend_chars, string_from_chars};

verus! {

/// The state of a promise.
#[derive(Clone, Copy, Debug, PartialEq, Eq, Structural)]
pub enum PromiseState {
    Pending,
    Fulfilled,
    Rejected,
}

/// Code reported to the embedder for a pending promise.
pub const PROMISE_STATE_PENDING: i32 = 0;

/// Code reported to the embedder for a fulfilled promise.
pub const PROMISE_STATE_FULFILLED: i32 = 1;

/// Code reported to the embedder for a rejected promise.
pub const PROMISE_STATE_REJECTED: i32 = 2;

/// The code reported to the embedder for a promise state.
pub open spec fn spec_encode_promise_state(state: PromiseState) -> i32 {
    match state {
        PromiseState::Pending => PROMISE_STATE_PENDING,
        PromiseState::Fulfilled => PROMISE_STATE_FULFILLED,
        PromiseState::Rejected => PROMISE_STATE_REJECTED,
    }
}

/// The code reported to the embedder for `state`.
pub fn encode_promise_state(state: PromiseState) -> (code: i32)
    ensures
        code == spec_encode_promise_state(state),
{
    match state {
        PromiseState::Pending => PROMISE_STATE_PENDING,
        PromiseState::Fulfilled => PROMISE_STATE_FULFILLED,
        PromiseState::Rejected => PROMISE_STATE_REJECTED,
    }
}

/// How many times the state of a promise is inspected, with a microtask
/// checkpoint after each pending observation, before it is given up on.
pub const MAX_MICROTASK_CHECKPOINTS: u32 = 1024;

/// What to do after inspecting a promise that is being driven to settlement.
#[derive(Clone, Copy, Debug, PartialEq, Eq, Structural)]
pub enum SettleStep {
    /// Still pending: run a microtask checkpoint and inspect it again.
    RunCheckpoint,
    /// It fulfilled.
    Fulfilled,
    /// It rejected.
    Rejected,
    /// It stayed pending through every checkpoint: give up.
    GiveUp,
}

/// The step taken after `observed` earlier inspections when the promise is in
/// `state`, and the inspection count afterwards.
pub open spec fn spec_settle_step(observed: u32, state: PromiseState) -> (u32, SettleStep) {
    if observed >= MAX_MICROTASK_CHECKPOINTS {
        (observed, SettleStep::GiveUp)
    } else {
        (
            (observed + 1) as u32,
            match state {
                PromiseState::Pending => SettleStep::RunCheckpoint,
                PromiseState::Fulfilled => SettleStep::Fulfilled,
                PromiseState::Rejected => SettleStep::Rejected,
            },
        )
    }
}

/// Drives a promise towards settlement, one inspection at a time.
pub struct SettlePoll {
    observed: u32,
}

impl View for SettlePoll {
    type V = u32;

    closed spec fn view(&self) -> u32 {
        self.observed
    }
}

impl SettlePoll {
    /// A poll that has inspected nothing yet.
    pub fn new() -> (r: Self)
        ensures
            r@ == 0,
    {
        SettlePoll { observed: 0 }
    }

    /// The step to take now that the promise is in `state`.
    pub fn step(&mut self, state: PromiseState) -> (step: SettleStep)
        ensures
            (final(self)@, step) == spec_settle_step(old(self)@, state),
    {
        if self.observed >= MAX_MICROTASK_CHECKPOINTS {
            return SettleStep::GiveUp;
        }
        self.observed = self.observed + 1;
        match state {
            PromiseState::Pending => SettleStep::RunCheckpoint,
            PromiseState::Fulfilled => SettleStep::Fulfilled,
            PromiseState::Rejected => SettleStep::Rejected,
        }
    }
}

/// The inspection count after `n` pending observations from a fresh poll.
pub open spec fn observed_after_pending(n: nat) -> u32
    decreases n,
{
    if n == 0 {
        0
    } else {
        spec_settle_step(observed_after_pending((n - 1) as nat), PromiseState::Pending).0
    }
}

/// A promise is driven through at most `MAX_MICROTASK_CHECKPOINTS` checkpoints:
/// while fewer have run, a pending promise gets another one, and once that
/// many have run the poll gives up whatever the state.
pub proof fn law_settle_poll_is_bounded(n: nat, state: PromiseState)
    ensures
        n < MAX_MICROTASK_CHECKPOINTS ==> observed_after_pending(n) == n,
        n < MAX_MICROTASK_CHECKPOINTS ==> spec_settle_step(
            observed_after_pending(n),
            PromiseState::Pending,
        ).1 == SettleStep::RunCheckpoint,
        n >= MAX_MICROTASK_CHECKPOINTS ==> spec_settle_step(observed_after_pending(n), state).1
            == SettleStep::GiveUp,
    decreases n,
{
    if n > 0 {
        law_settle_poll_is_bounded((n - 1) as nat, state);
        if n - 1 >= MAX_MICROTASK_CHECKPOINTS {
            assert(observed_after_pending(n) == observed_after_pending((n - 1) as nat));
        }
    }
}

// ---------------------------------------------------------------------------
// Rejections
// ---------------------------------------------------------------------------

/// What produced a promise that rejected.
#[derive(Clone, Copy, Debug, PartialEq, Eq, Structural)]
pub enum RejectedWork {
    /// A script or a promise handle.
    Promise,
    /// A called function.
    FunctionCall,
    /// A module's evaluation.
    ModuleEvaluation,
}

/// The message reported when the rejection reason has no string form.
pub open spec fn rejection_fallback(work: RejectedWork) -> Seq<char> {
    match work {
        RejectedWork::Promise => "Promise rejected"@,
        RejectedWork::FunctionCall => "Function call rejected"@,
        RejectedWork::ModuleEvaluation => "Module evaluation rejected"@,
    }
}

/// The message reported for a rejection: the reason's string form, or the
/// fallback when it has none.
pub open spec fn spec_rejection_message(work: RejectedWork, reason: Option<Seq<char>>) -> Seq<char> {
    match reason {
        Some(r) => r,
        None => rejection_fallback(work),
    }
}

/// Reports a rejection whose reason, taken as a string, is `reason`.
pub fn rejection_message(work: RejectedWork, reason: Option<String>) -> (message: String)
    ensures
        message@ == spec_rejection_message(
            work,
            match reason {
                Some(r) => Some(r@),
                None => None,
            },
        ),
{
    match reason {
        Some(r) => r,
        None => match work {
            RejectedWork::Promise => String::from_str("Promise rejected"),
            RejectedWork::FunctionCall => String::from_str("Function call rejected"),
            RejectedWork::ModuleEvaluation => String::from_str("Module evaluation rejected"),
        },
    }
}

// ---------------------------------------------------------------------------
// Exception text
// ---------------------------------------------------------------------------

/// The report of a script exception: its stack trace or, failing that, its
/// text (`"V8 exception"` when neither could be had), prefixed with
/// `line N: ` when the exception's message gives a line number above 0.
pub open spec fn spec_format_exception(exception: Option<Seq<char>>, line: Option<nat>) -> Seq<
    char,
> {
    let text = match exception {
        Some(t) => t,
        None => "V8 exception"@,
    };
    match line {
        Some(n) if n > 0 => "line "@ + decimal(n) + ": "@ + text,
        _ => text,
    }
}

/// Reports a script exception (see `spec_format_exception`); `line` is the
/// line number of the exception's message, `None` when there is no message.
pub fn format_exception(exception: Option<String>, line: Option<usize>) -> (report: String)
    ensures
        report@ == spec_format_exception(
            match exception {
                Some(t) => Some(t@),
                None => None,
            },
            match line {
                Some(n) => Some(n as nat),
                None => None,
            },
        ),
{
    let text = match exception {
        Some(t) => t,
        None => String::from_str("V8 exception"),
    };
    match line {
        Some(n) => {
            if n > 0 {
                let mut out = chars_of("line ");
                let digits = decimal_chars(n);
                extend_chars(&mut out, digits.as_slice());
                let sep = chars_of(": ");
                extend_chars(&mut out, sep.as_slice());
                let body = chars_of(text.as_str());
                extend_chars(&mut out, body.as_slice());
                string_from_chars(out.as_slice())
            } else {
                text
            }
        },
        None => text,
    }
}

} // verus!
