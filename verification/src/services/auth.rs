//! GitHub login by the OAuth device flow.
//!
//! The HTTP requests, the waiting and the notifications are left to the
//! caller; [`TokenPoller`] decides after each answer whether to go on, to
//! slow down, or to stop with a token or an error.

use vstd::prelude::*;

use crate::models::auth::DeviceFlowInfo;

verus! {

/// Where the device code is asked for.
pub const DEVICE_CODE_URL: &'static str = "https://github.com/login/device/code";

/// Where the token is polled for.
pub const TOKEN_URL: &'static str = "https://github.com/login/oauth/access_token";

/// The application's OAuth client id.
pub const CLIENT_ID: &'static str = "Iv23licutsPQwDRYefce";

/// GitHub's answer to a device-code request.
#[derive(Debug, Clone)]
pub struct DeviceCodeResponse {
    pub device_code: String,
    pub user_code: String,
    pub verification_uri: String,
    pub expires_in: u64,
    pub interval: u64,
}

/// GitHub's answer to a token poll.
#[derive(Debug, Clone)]
pub struct TokenResponse {
    pub access_token: Option<String>,
    pub error: Option<String>,
}

/// What the user is shown to finish the login.
pub fn device_flow_info(resp: &DeviceCodeResponse) -> (r: DeviceFlowInfo)
    ensures
        r.user_code@ == resp.user_code@,
        r.verification_uri@ == resp.verification_uri@,
{
    DeviceFlowInfo {
        user_code: resp.user_code.clone(),
        verification_uri: resp.verification_uri.clone(),
    }
}

/// What to do after a poll.
pub enum PollDecision {
    /// Wait `interval_secs` and poll again.
    Continue,
    /// The login succeeded with this token.
    Token(String),
    /// The login failed with this message.
    Fail(String),
}

/// The state of the token polling: the wait between polls and the lifetime
/// of the device code, in seconds.
pub struct TokenPoller {
    pub interval_secs: u64,
    pub expires_in: u64,
}

impl TokenPoller {
    /// Polling as GitHub asked for it.
    pub fn new(interval: u64, expires_in: u64) -> (p: Self)
        ensures
            p.interval_secs == interval,
            p.expires_in == expires_in,
    {
        TokenPoller { interval_secs: interval, expires_in }
    }

    /// Whether the device code has expired after `elapsed_secs` seconds
    /// (then the login fails with "Device code expired").
    pub fn is_expired(&self, elapsed_secs: u64) -> (r: bool)
        ensures
            r == (elapsed_secs > self.expires_in),
    {
        elapsed_secs > self.expires_in
    }

    /// Decides after a poll; `None` stands for a request that failed or an
    /// answer that could not be read (polling goes on). A token ends the
    /// login; `authorization_pending` goes on; `slow_down` goes on with five
    /// more seconds between polls; `expired_token` and `access_denied` fail
    /// with "Device code expired" and "Access denied"; another error fails
    /// with its own text; an answer with neither goes on.
    pub fn handle_response(&mut self, resp: Option<TokenResponse>) -> (r: PollDecision)
        requires
            old(self).interval_secs <= u64::MAX - 5,
        ensures
            final(self).expires_in == old(self).expires_in,
            match resp {
                None => r is Continue && final(self).interval_secs == old(self).interval_secs,
                Some(t) => match t.access_token {
                    Some(tok) => (r matches PollDecision::Token(s) && s@ == tok@)
                        && final(self).interval_secs == old(self).interval_secs,
                    None => match t.error {
                        None => r is Continue && final(self).interval_secs == old(self).interval_secs,
                        Some(e) => if e@ == "authorization_pending"@ {
                            r is Continue && final(self).interval_secs == old(self).interval_secs
                        } else if e@ == "slow_down"@ {
                            r is Continue && final(self).interval_secs == old(self).interval_secs + 5
                        } else if e@ == "expired_token"@ {
                            (r matches PollDecision::Fail(m) && m@ == "Device code expired"@)
                                && final(self).interval_secs == old(self).interval_secs
                        } else if e@ == "access_denied"@ {
                            (r matches PollDecision::Fail(m) && m@ == "Access denied"@)
                                && final(self).interval_secs == old(self).interval_secs
                        } else {
                            (r matches PollDecision::Fail(m) && m@ == e@)
                                && final(self).interval_secs == old(self).interval_secs
                        },
                    },
                },
            },
    {
        let t = match resp {
            None => return PollDecision::Continue,
            Some(t) => t,
        };
        if let Some(tok) = t.access_token {
            return PollDecision::Token(tok);
        }
        match t.error {
            None => PollDecision::Continue,
            Some(e) => {
                if e == "authorization_pending".to_owned() {
                    PollDecision::Continue
                } else if e == "slow_down".to_owned() {
                    self.interval_secs = self.interval_secs + 5;
                    PollDecision::Continue
                } else if e == "expired_token".to_owned() {
                    PollDecision::Fail("Device code expired".to_owned())
                } else if e == "access_denied".to_owned() {
                    PollDecision::Fail("Access denied".to_owned())
                } else {
                    PollDecision::Fail(e)
                }
            },
        }
    }
}

} // verus!
