//! Connection settings of the protocol client and its write-and-verify
//! policy.

use std::time::Duration;
use vstd::prelude::*;

use crate::types::{same_value, values_equal, DataValue, ValueModel};

verus! {

/// TCP port of the inverter's protocol service.
pub const DEFAULT_PORT: u16 = 8899;

/// Name for the duration that `Duration::from_secs` makes of a number of
/// seconds.
pub uninterp spec fn duration_of_secs(secs: u64) -> Duration;

/// `Duration::from_secs`: the duration of `secs` whole seconds. Its result is
/// `duration_of_secs` of the argument; nothing more is stated of it.
#[verifier::external_body]
fn duration_from_secs(secs: u64) -> (d: Duration)
    ensures
        d == duration_of_secs(secs),
{
    Duration::from_secs(secs)
}

/// Connection settings: inverter port, per-exchange timeout, number of
/// attempts and the pause between them.
#[derive(Debug, Clone, Copy)]
pub struct ClientConfig {
    pub port: u16,
    pub timeout: Duration,
    pub retries: usize,
    pub retry_delay: Duration,
}

impl Default for ClientConfig {
    fn default() -> (r: Self)
        ensures
            r.port == DEFAULT_PORT,
            r.timeout == duration_of_secs(5),
            r.retries == 3,
            r.retry_delay == duration_of_secs(1),
    {
        ClientConfig {
            port: DEFAULT_PORT,
            timeout: duration_from_secs(5),
            retries: 3,
            retry_delay: duration_from_secs(1),
        }
    }
}

/// Number of attempts an exchange makes: `retries`, but at least one.
pub open spec fn attempt_count(retries: usize) -> nat {
    if retries == 0 {
        1
    } else {
        retries as nat
    }
}

/// Number of attempts an exchange makes with `cfg`; the attempts after the
/// first wait `cfg.retry_delay` before they start.
pub fn attempts(cfg: &ClientConfig) -> (r: usize)
    ensures
        r == attempt_count(cfg.retries),
{
    if cfg.retries == 0 {
        1
    } else {
        cfg.retries
    }
}

/// Where a write-and-verify exchange stands.
#[derive(Debug, Clone, Copy, PartialEq, Eq, Structural)]
pub enum VerifyState {
    /// The write was sent; its answer is awaited.
    Written,
    /// Read-back number `attempt` (counted from 0) is awaited.
    ReadBack { attempt: usize },
    /// The outcome is decided.
    Done,
}

/// What a write-and-verify exchange observed.
#[derive(Debug, Clone, Copy, PartialEq, Eq, Structural)]
pub enum VerifyEvent {
    /// The write was answered with the written value.
    Answered,
    /// The write was answered with another value.
    AnsweredOther,
    /// The answer to the write was lost (timeout or empty payload).
    AnswerLost,
    /// The write failed otherwise.
    WriteFailed,
    /// A read-back gave the written value.
    ReadMatches,
    /// A read-back gave another value, or failed.
    ReadMismatch,
}

/// What a write-and-verify exchange does next.
#[derive(Debug, Clone, Copy, PartialEq, Eq, Structural)]
pub enum VerifyAction {
    /// Return the value just received.
    ReturnValue,
    /// Return the error just received.
    ReturnError,
    /// Read the value back; first, if `rewrite`, wait the retry delay and
    /// send the write again, ignoring its answer.
    ReadBack { rewrite: bool },
    /// Give up: the write could not be confirmed in time.
    GiveUp,
}

/// The write-and-verify policy: a write that is answered with the written
/// value is done; a write whose answer is lost, or holds another value, is
/// confirmed by reading the value back, up to
/// `attempt_count(retries)` times, each read-back after the first preceded
/// by a pause and a rewrite; any other failure of the write is returned.
pub open spec fn verify_policy(state: VerifyState, event: VerifyEvent, retries: usize) -> (
    VerifyState,
    VerifyAction,
) {
    match (state, event) {
        (VerifyState::Written, VerifyEvent::Answered) => (VerifyState::Done, VerifyAction::ReturnValue),
        (VerifyState::Written, VerifyEvent::AnswerLost) => (
            VerifyState::ReadBack { attempt: 0 },
            VerifyAction::ReadBack { rewrite: false },
        ),
        (VerifyState::Written, VerifyEvent::AnsweredOther) => (
            VerifyState::ReadBack { attempt: 0 },
            VerifyAction::ReadBack { rewrite: false },
        ),
        (VerifyState::Written, VerifyEvent::WriteFailed) => (
            VerifyState::Done,
            VerifyAction::ReturnError,
        ),
        (VerifyState::ReadBack { attempt: _ }, VerifyEvent::ReadMatches) => (
            VerifyState::Done,
            VerifyAction::ReturnValue,
        ),
        (VerifyState::ReadBack { attempt }, VerifyEvent::ReadMismatch) => if attempt + 1
            < attempt_count(retries) {
            (VerifyState::ReadBack { attempt: (attempt + 1) as usize }, VerifyAction::ReadBack {
                rewrite: true,
            })
        } else {
            (VerifyState::Done, VerifyAction::GiveUp)
        },
        _ => (VerifyState::Done, VerifyAction::GiveUp),
    }
}

/// Next state and action of a write-and-verify exchange.
pub fn verify_step(state: VerifyState, event: VerifyEvent, retries: usize) -> (r: (
    VerifyState,
    VerifyAction,
))
    ensures
        r == verify_policy(state, event, retries),
        event == VerifyEvent::ReadMismatch ==> match state {
            VerifyState::ReadBack { attempt } => r == (if attempt + 1 < (if retries >= 1 {
                retries as nat
            } else {
                1nat
            }) {
                (
                    VerifyState::ReadBack { attempt: (attempt + 1) as usize },
                    VerifyAction::ReadBack { rewrite: true },
                )
            } else {
                (VerifyState::Done, VerifyAction::GiveUp)
            }),
            _ => true,
        },
{
    let n: usize = if retries == 0 {
        1
    } else {
        retries
    };
    match (state, event) {
        (VerifyState::Written, VerifyEvent::Answered) => (VerifyState::Done, VerifyAction::ReturnValue),
        (VerifyState::Written, VerifyEvent::AnswerLost) => (
            VerifyState::ReadBack { attempt: 0 },
            VerifyAction::ReadBack { rewrite: false },
        ),
        (VerifyState::Written, VerifyEvent::AnsweredOther) => (
            VerifyState::ReadBack { attempt: 0 },
            VerifyAction::ReadBack { rewrite: false },
        ),
        (VerifyState::Written, VerifyEvent::WriteFailed) => (
            VerifyState::Done,
            VerifyAction::ReturnError,
        ),
        (VerifyState::ReadBack { attempt: _ }, VerifyEvent::ReadMatches) => (
            VerifyState::Done,
            VerifyAction::ReturnValue,
        ),
        (VerifyState::ReadBack { attempt }, VerifyEvent::ReadMismatch) => {
            if attempt < n - 1 {
                (VerifyState::ReadBack { attempt: attempt + 1 }, VerifyAction::ReadBack {
                    rewrite: true,
                })
            } else {
                (VerifyState::Done, VerifyAction::GiveUp)
            }
        },
        _ => (VerifyState::Done, VerifyAction::GiveUp),
    }
}

/// Steps left before a write-and-verify exchange is decided.
pub open spec fn verify_rank(state: VerifyState, retries: usize) -> nat {
    match state {
        VerifyState::Written => attempt_count(retries) + 1,
        VerifyState::ReadBack { attempt } => if attempt < attempt_count(retries) {
            (attempt_count(retries) - attempt) as nat
        } else {
            0
        },
        VerifyState::Done => 0,
    }
}

/// A write-and-verify exchange succeeds only on an answer to the write that
/// holds the written value or on a read-back of the written value; it fails with the write's own error
/// only when that error is neither a timeout nor an empty answer; it is
/// decided after at most `attempt_count(retries)` read-backs, each step
/// bringing it closer.
pub proof fn lemma_verify_policy(state: VerifyState, event: VerifyEvent, retries: usize)
    requires
        state != VerifyState::Done,
        state matches VerifyState::ReadBack { attempt } ==> attempt < attempt_count(retries),
    ensures
        ({
            let (next, action) = verify_policy(state, event, retries);
            &&& action == VerifyAction::ReturnValue ==> event == VerifyEvent::Answered
                || event == VerifyEvent::ReadMatches
            &&& action == VerifyAction::ReturnError ==> event == VerifyEvent::WriteFailed
            &&& verify_rank(next, retries) < verify_rank(state, retries)
            &&& next matches VerifyState::ReadBack { attempt } ==> attempt < attempt_count(
                retries,
            )
            &&& (next == VerifyState::Done <==> !(action is ReadBack))
        }),
{
}

/// The event that an answer to the write brings: whether it holds the
/// written value.
pub fn answer_event(written: &DataValue, answer: &DataValue) -> (e: VerifyEvent)
    ensures
        e == (if same_value(written@, answer@) {
            VerifyEvent::Answered
        } else {
            VerifyEvent::AnsweredOther
        }),
{
    if values_equal(written, answer) {
        VerifyEvent::Answered
    } else {
        VerifyEvent::AnsweredOther
    }
}

/// The event that a read-back brings: whether it gave the written value
/// (`None` when the read failed).
pub fn read_back_event(written: &DataValue, read: Option<&DataValue>) -> (e: VerifyEvent)
    ensures
        e == (if read matches Some(v) && same_value(written@, v@) {
            VerifyEvent::ReadMatches
        } else {
            VerifyEvent::ReadMismatch
        }),
{
    match read {
        Some(v) => if values_equal(written, v) {
            VerifyEvent::ReadMatches
        } else {
            VerifyEvent::ReadMismatch
        },
        None => VerifyEvent::ReadMismatch,
    }
}

/// An answered write is returned only when the answer holds the written
/// value; an answer with another value is checked by reading the value
/// back.
pub proof fn lemma_answer_returned_only_if_equal(
    written: ValueModel,
    answer: ValueModel,
    retries: usize,
)
    ensures
        ({
            let event = if same_value(written, answer) {
                VerifyEvent::Answered
            } else {
                VerifyEvent::AnsweredOther
            };
            let (next, action) = verify_policy(VerifyState::Written, event, retries);
            &&& action == VerifyAction::ReturnValue <==> same_value(written, answer)
            &&& !same_value(written, answer) ==> next == VerifyState::ReadBack { attempt: 0 }
                && action == VerifyAction::ReadBack { rewrite: false }
        }),
{
}

/// State and action after a write whose answer was lost and `k`
/// read-backs that did not give the written value.
pub open spec fn after_lost_write(retries: usize, k: nat) -> (VerifyState, VerifyAction)
    decreases k,
{
    if k == 0 {
        verify_policy(VerifyState::Written, VerifyEvent::AnswerLost, retries)
    } else {
        verify_policy(after_lost_write(retries, (k - 1) as nat).0, VerifyEvent::ReadMismatch, retries)
    }
}

/// A write whose answer is lost is read back exactly `max(retries, 1)` times
/// while the read-backs do not give the written value: the first read-back
/// follows the write at once, each later one comes after a rewrite, and the
/// exchange gives up after the last one.
pub proof fn lemma_read_back_count(retries: usize, k: nat)
    ensures
        k < (if retries >= 1 {
            retries as nat
        } else {
            1nat
        }) ==> after_lost_write(retries, k) == (
            VerifyState::ReadBack { attempt: k as usize },
            VerifyAction::ReadBack { rewrite: k > 0 },
        ),
        k == (if retries >= 1 {
            retries as nat
        } else {
            1nat
        }) ==> after_lost_write(retries, k) == (VerifyState::Done, VerifyAction::GiveUp),
    decreases k,
{
    if k > 0 {
        lemma_read_back_count(retries, (k - 1) as nat);
    }
}

/// What the first answer to a write decides: an answer with the written
/// value is returned; a lost answer, or one with another value, is checked
/// by reading the value back at once, without rewriting; any other failure
/// of the write is returned as it is, without retry. A read-back that gives
/// the written value is returned.
pub proof fn lemma_write_outcomes(retries: usize, attempt: usize)
    ensures
        verify_policy(VerifyState::Written, VerifyEvent::Answered, retries) == (
            VerifyState::Done,
            VerifyAction::ReturnValue,
        ),
        verify_policy(VerifyState::Written, VerifyEvent::AnswerLost, retries) == (
            VerifyState::ReadBack { attempt: 0 },
            VerifyAction::ReadBack { rewrite: false },
        ),
        verify_policy(VerifyState::Written, VerifyEvent::AnsweredOther, retries) == (
            VerifyState::ReadBack { attempt: 0 },
            VerifyAction::ReadBack { rewrite: false },
        ),
        verify_policy(VerifyState::Written, VerifyEvent::WriteFailed, retries) == (
            VerifyState::Done,
            VerifyAction::ReturnError,
        ),
        verify_policy(VerifyState::ReadBack { attempt }, VerifyEvent::ReadMatches, retries) == (
            VerifyState::Done,
            VerifyAction::ReturnValue,
        ),
{
}

} // verus!
