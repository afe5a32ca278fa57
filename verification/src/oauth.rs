//! The device-flow decision rule: what one poll response means for the loop
//! that the caller runs against the authorization server.

use vstd::prelude::*;

use crate::text::str_eq;

verus! {

/// The authorization server's answer when a device flow starts.
#[derive(Debug)]
pub struct DeviceCodeResponse {
    pub device_code: String,
    pub user_code: String,
    pub verification_uri: String,
    pub expires_in: u64,
    pub interval: u64,
}

/// A granted access token.
#[derive(Debug)]
pub struct TokenResponse {
    pub access_token: String,
    pub token_type: String,
    pub scope: String,
}

/// One answer to a token poll: a token, or a named error.
#[derive(Debug)]
pub enum PollResponse {
    Success(TokenResponse),
    Pending { error: String, error_description: Option<String> },
}

/// What the polling loop must do next.
#[derive(Debug)]
pub enum PollStep {
    /// The token arrived; stop polling.
    Done(TokenResponse),
    /// Authorization is still pending; poll again after the interval.
    Retry,
    /// The server asked to slow down; wait extra, then poll again.
    SlowDown,
    /// Any other error ends the flow.
    Fail(String),
}

/// Reads one poll response: a token finishes the flow,
/// `authorization_pending` retries, `slow_down` retries after an extra wait,
/// and any other error fails with its name.
pub fn poll_step(response: PollResponse) -> (r: PollStep)
    ensures
        match response {
            PollResponse::Success(token) => r == PollStep::Done(token),
            PollResponse::Pending { error, .. } => {
                if error@ == "authorization_pending"@ {
                    r is Retry
                } else if error@ == "slow_down"@ {
                    r is SlowDown
                } else {
                    r matches PollStep::Fail(e) && e == error
                }
            },
        },
{
    match response {
        PollResponse::Success(token) => PollStep::Done(token),
        PollResponse::Pending { error, error_description: _ } => {
            if str_eq(error.as_str(), "authorization_pending") {
                PollStep::Retry
            } else if str_eq(error.as_str(), "slow_down") {
                PollStep::SlowDown
            } else {
                PollStep::Fail(error)
            }
        },
    }
}

} // verus!
