//! The retry policy of an SSH connection: what to do after each attempt.
use crate::text::{contains_seq, copy_string, decimal, str_contains, usize_to_string};
use vstd::prelude::*;

verus! {

/// Connection attempts before giving up.
pub const MAX_RETRIES: usize = 3;
/// Seconds to wait before the next attempt.
pub const RETRY_DELAY_SECS: u64 = 2;
/// Seconds an attempt may take.
pub const CONNECTION_TIMEOUT_SECS: u64 = 10;
/// Seconds the whole connection may take.
pub const OVERALL_TIMEOUT_SECS: u64 = 30;

/// How an attempt ended.
#[derive(Clone, Debug)]
pub enum AttemptOutcome {
    /// The session is up and authenticated.
    Connected,
    /// The connection could not be made, for this cause.
    ConnectFailed(String),
    /// The connection was made but authentication failed, for this cause.
    AuthFailed(String),
}

/// What to do after an attempt.
#[derive(Clone, Debug)]
pub enum RetryAction {
    /// Use the session.
    Done,
    /// Wait this many seconds, then make the next attempt.
    WaitAndRetry(u64),
    /// Give up with this error.
    GiveUp(String),
}

/// The decision after attempt number `attempt` (from 1) of `max_retries`:
/// a made connection is used; a refused authentication is final; another
/// failure waits `delay` seconds before the next attempt, unless it was the
/// last, which gives up with that failure's cause.
pub open spec fn retry_spec(attempt: usize, max_retries: usize, delay: u64, outcome: AttemptOutcome) -> (bool, Option<u64>, Option<Seq<char>>) {
    match outcome {
        AttemptOutcome::Connected => (true, None, None),
        AttemptOutcome::ConnectFailed(e) => if attempt < max_retries { (false, Some(delay), None) } else { (false, None, Some(e@)) },
        AttemptOutcome::AuthFailed(e) => if contains_seq(e@, "SSH authentication failed"@) || attempt >= max_retries {
            (false, None, Some(e@))
        } else {
            (false, Some(delay), None)
        },
    }
}

/// The decision as (done, wait before the next attempt, error given up with).
pub open spec fn action_view(a: RetryAction) -> (bool, Option<u64>, Option<Seq<char>>) {
    match a {
        RetryAction::Done => (true, None, None),
        RetryAction::WaitAndRetry(s) => (false, Some(s), None),
        RetryAction::GiveUp(e) => (false, None, Some(e@)),
    }
}

/// The next step of the connection's retries after attempt `attempt`.
pub fn retry_step(attempt: usize, max_retries: usize, delay: u64, outcome: AttemptOutcome) -> (a: RetryAction)
    ensures
        action_view(a) == retry_spec(attempt, max_retries, delay, outcome),
{
    proof {
        reveal_strlit("SSH authentication failed");
    }
    match outcome {
        AttemptOutcome::Connected => RetryAction::Done,
        AttemptOutcome::ConnectFailed(e) => {
            if attempt < max_retries {
                RetryAction::WaitAndRetry(delay)
            } else {
                RetryAction::GiveUp(e)
            }
        },
        AttemptOutcome::AuthFailed(e) => {
            if str_contains(e.as_str(), "SSH authentication failed") || attempt >= max_retries {
                RetryAction::GiveUp(e)
            } else {
                RetryAction::WaitAndRetry(delay)
            }
        },
    }
}

/// The error when no attempt was made at all.
pub fn no_attempt_error(user: &str, host: &str, port: usize, max_retries: usize) -> (m: String)
    ensures
        m@ == "Failed to connect to "@ + user@ + "@"@ + host@ + ":"@ + decimal(port as nat) + " after "@
            + decimal(max_retries as nat) + " attempts"@,
{
    proof {
        reveal_strlit("Failed to connect to ");
        reveal_strlit("@");
        reveal_strlit(":");
        reveal_strlit(" after ");
        reveal_strlit(" attempts");
    }
    let mut m = String::from_str("Failed to connect to ");
    m.append(user);
    m.append("@");
    m.append(host);
    m.append(":");
    m.append(usize_to_string(port).as_str());
    m.append(" after ");
    m.append(usize_to_string(max_retries).as_str());
    m.append(" attempts");
    m
}

/// The address to connect to among those the host name resolves to, each
/// given as whether it is IPv4 and its text: the first IPv4 one whose text
/// does not hold `0.0.0.0`.
pub fn pick_address(addrs: &Vec<(bool, String)>) -> (r: Option<String>)
    ensures
        match r {
            Some(a) => exists|i: int| 0 <= i < addrs@.len() && addrs@[i].0 && !contains_seq(addrs@[i].1@, "0.0.0.0"@)
                && a@ == addrs@[i].1@
                && forall|j: int| 0 <= j < i ==> !(addrs@[j].0 && !contains_seq(#[trigger] addrs@[j].1@, "0.0.0.0"@)),
            None => forall|j: int| 0 <= j < addrs@.len() ==> !(addrs@[j].0 && !contains_seq(#[trigger] addrs@[j].1@, "0.0.0.0"@)),
        },
{
    let mut i: usize = 0;
    while i < addrs.len()
        invariant
            0 <= i <= addrs.len(),
            forall|j: int| 0 <= j < i ==> !(addrs@[j].0 && !contains_seq(#[trigger] addrs@[j].1@, "0.0.0.0"@)),
        decreases addrs.len() - i,
    {
        if addrs[i].0 && !str_contains(addrs[i].1.as_str(), "0.0.0.0") {
            return Some(copy_string(&addrs[i].1));
        }
        i = i + 1;
    }
    None
}

} // verus!
