//! The token that authorizes the aircraft's reports: how it is come by, how
//! often that may fail, and when it is given up.

use crate::state::State;
use crate::telemetry::NetworkError;
use vstd::prelude::*;

verus! {

/// The number of failed logins in a row that are put up with.
pub const MAX_RETRIES: u8 = 5;

/// The wait after a failed login, in seconds.
pub const RETRY_SLEEP_S: u64 = 5;

/// What follows a login.
#[derive(Debug, Clone, Copy, PartialEq, Eq)]
pub enum TokenStep {
    /// The token is held.
    Acquired,
    /// The login failed: wait `sleep_s` seconds and try again.
    Retry { sleep_s: u64 },
    /// The login failed once too often. Without a token the aircraft must
    /// not go on: the caller stops for good.
    Exhausted,
}

/// Whether a failed login is one too many, `retry` having failed before it
/// since the last token.
pub open spec fn exhausted(retry: u8) -> bool {
    retry + 1 > MAX_RETRIES
}

/// Takes the outcome of a login. `retry` counts the logins that failed in a
/// row.
///
/// A token is kept, and the count starts again. A failure is counted; up to
/// `MAX_RETRIES` failures in a row are answered with a wait, the next one is
/// the end.
pub fn token_acquired(state: &mut State, retry: &mut u8, outcome: Result<String, NetworkError>) -> (step:
    TokenStep)
    ensures
        outcome matches Ok(token) ==> {
            &&& step == TokenStep::Acquired
            &&& *final(retry) == 0
            &&& *final(state) == (State { token: Some(token), ..*old(state) })
        },
        outcome is Err ==> {
            &&& *final(state) == *old(state)
            &&& *final(retry) == if *old(retry) < u8::MAX {
                (*old(retry) + 1) as u8
            } else {
                u8::MAX
            }
            &&& exhausted(*old(retry)) ==> step == TokenStep::Exhausted
            &&& !exhausted(*old(retry)) ==> step == (TokenStep::Retry { sleep_s: RETRY_SLEEP_S })
        },
{
    match outcome {
        Ok(token) => {
            state.token = Some(token);
            *retry = 0;
            TokenStep::Acquired
        },
        Err(_) => {
            if *retry < u8::MAX {
                *retry = *retry + 1;
            }
            if *retry > MAX_RETRIES {
                TokenStep::Exhausted
            } else {
                TokenStep::Retry { sleep_s: RETRY_SLEEP_S }
            }
        },
    }
}

/// Gives the token up. The next tick logs in again.
pub fn invalidate_token(state: &mut State)
    ensures
        *final(state) == (State { token: None, ..*old(state) }),
{
    state.token = None;
}

/// The count of failed logins after `failures` more of them in a row.
pub open spec fn after_failures(retry: u8, failures: nat) -> u8
    decreases failures,
{
    if failures == 0 {
        retry
    } else if after_failures(retry, (failures - 1) as nat) < u8::MAX {
        (after_failures(retry, (failures - 1) as nat) + 1) as u8
    } else {
        u8::MAX
    }
}

/// From a fresh count, the logins that fail in a row are answered with a
/// wait up to the `MAX_RETRIES`th, and every one after that is the end.
pub proof fn lemma_retries_are_bounded(failures: nat)
    ensures
        exhausted(after_failures(0, failures)) <==> failures >= MAX_RETRIES,
        after_failures(0, failures) == if failures < u8::MAX {
            failures
        } else {
            u8::MAX as nat
        },
    decreases failures,
{
    if failures > 0 {
        lemma_retries_are_bounded((failures - 1) as nat);
    }
}

} // verus!
