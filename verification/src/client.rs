//! The slave's connection supervisor: exponential back-off between
//! reconnection attempts, a bounded number of consecutive failures, and the
//! reconnection status the shell polls.
//!
//! The network itself lives outside the library; the supervisor is the state
//! machine the connection loop consults before each step.

use vstd::prelude::*;
use crate::wire::dec_digits;
use crate::wire::push_u64;

verus! {

/// What the shell sees of the reconnection effort.
#[derive(Clone, Debug, PartialEq)]
pub struct ReconnectionStatus {
    pub is_reconnecting: bool,
    pub attempt_count: u32,
    pub max_attempts: u32,
    pub last_error: Option<String>,
}

pub struct ReconnectionStatusView {
    pub is_reconnecting: bool,
    pub attempt_count: u32,
    pub max_attempts: u32,
    pub last_error: Option<Seq<char>>,
}

impl View for ReconnectionStatus {
    type V = ReconnectionStatusView;

    open spec fn view(&self) -> ReconnectionStatusView {
        ReconnectionStatusView {
            is_reconnecting: self.is_reconnecting,
            attempt_count: self.attempt_count,
            max_attempts: self.max_attempts,
            last_error: match self.last_error {
                Some(ref e) => Some(e@),
                None => None,
            },
        }
    }
}

/// What the connection loop must do next.
#[derive(Clone, Debug, PartialEq, Eq, Structural)]
pub enum SupervisorAction {
    /// Open the websocket right away.
    ConnectNow,
    /// Wait this many seconds, then open the websocket.
    SleepThenConnect { delay_secs: u64 },
    /// Give up: either the operator disconnected, or the attempt budget is
    /// spent.
    Stop,
}

/// Two to the given power.
pub open spec fn two_to(e: nat) -> nat
    decreases e,
{
    if e == 0 {
        1
    } else {
        2 * two_to((e - 1) as nat)
    }
}

/// The back-off before the i-th reconnection attempt (i >= 1): two to the
/// (i-1), capped at thirty seconds.
pub open spec fn spec_backoff_secs(i: nat) -> nat
    recommends
        i >= 1,
{
    if two_to((i - 1) as nat) > 30 {
        30
    } else {
        two_to((i - 1) as nat)
    }
}

/// The seconds to wait before reconnection attempt `attempt`.
pub fn backoff_delay_secs(attempt: u32) -> (r: u64)
    requires
        attempt >= 1,
    ensures
        r == spec_backoff_secs(attempt as nat),
        r <= 30,
{
    proof {
        assert(two_to(0) == 1);
        assert(two_to(1) == 2);
        assert(two_to(2) == 4);
        assert(two_to(3) == 8);
        assert(two_to(4) == 16);
        assert(two_to(5) == 32);
        assert forall|e: nat| e >= 5 implies #[trigger] two_to(e) > 30 by {
            lemma_two_to_monotone(5, e);
        }
    }
    match attempt {
        1 => 1,
        2 => 2,
        3 => 4,
        4 => 8,
        5 => 16,
        _ => 30,
    }
}

proof fn lemma_two_to_monotone(a: nat, b: nat)
    requires
        a <= b,
    ensures
        two_to(a) <= two_to(b),
    decreases b,
{
    if a < b {
        lemma_two_to_monotone(a, (b - 1) as nat);
    }
}

/// The sentence published when the attempt budget is spent.
pub open spec fn max_attempts_text(max: nat) -> Seq<char> {
    ("Max reconnection attempts (")@ + dec_digits(max) + (") reached")@
}

fn build_max_attempts_text(max: u32) -> (r: String)
    ensures
        r@ == max_attempts_text(max as nat),
{
    let mut out = String::from_str("Max reconnection attempts (");
    push_u64(&mut out, max as u64);
    out.append(") reached");
    out
}

/// The supervisor's state: whether reconnection is wanted, how many
/// consecutive failures have happened, the budget, and the published status.
pub struct ReconnectSupervisor {
    pub should_reconnect: bool,
    pub attempt: u32,
    pub max_attempts: u32,
    pub status: ReconnectionStatus,
}

impl ReconnectSupervisor {
    /// A fresh supervisor that wants to connect and has not failed yet.
    pub fn new(max_attempts: u32) -> (r: ReconnectSupervisor)
        ensures
            r.should_reconnect,
            r.attempt == 0,
            r.max_attempts == max_attempts,
            !r.status@.is_reconnecting,
            r.status@.attempt_count == 0,
            r.status@.max_attempts == max_attempts,
            r.status@.last_error is None,
    {
        ReconnectSupervisor {
            should_reconnect: true,
            attempt: 0,
            max_attempts,
            status: ReconnectionStatus {
                is_reconnecting: false,
                attempt_count: 0,
                max_attempts,
                last_error: None,
            },
        }
    }

    /// Consulted at the head of the connection loop. The first attempt and
    /// the retry right after a lost connection go out at once; the i-th
    /// reconnection attempt after consecutive failures waits
    /// `min(2^(i-1), 30)` seconds; once `max_attempts` consecutive failures
    /// have happened, or the operator disconnected, the loop stops.
    pub fn next_action(&mut self) -> (r: SupervisorAction)
        ensures
            !old(self).should_reconnect ==> (r == SupervisorAction::Stop
                && !final(self).status@.is_reconnecting
                && final(self).status@.attempt_count == 0
                && final(self).status@.last_error is None),
            old(self).should_reconnect && old(self).attempt >= old(self).max_attempts ==> (r
                == SupervisorAction::Stop && !final(self).status@.is_reconnecting
                && final(self).status@.last_error == Some(
                max_attempts_text(old(self).max_attempts as nat),
            )),
            old(self).should_reconnect && old(self).attempt == 0 && old(self).max_attempts > 0
                ==> (r == SupervisorAction::ConnectNow && *final(self) == *old(self)),
            old(self).should_reconnect && 0 < old(self).attempt < old(self).max_attempts ==> (r
                == (SupervisorAction::SleepThenConnect {
                delay_secs: spec_backoff_secs(old(self).attempt as nat) as u64,
            }) && final(self).status@.is_reconnecting
                && final(self).status@.attempt_count == old(self).attempt
                && final(self).status@.max_attempts == old(self).max_attempts),
            final(self).should_reconnect == old(self).should_reconnect,
            final(self).attempt == old(self).attempt,
            final(self).max_attempts == old(self).max_attempts,
    {
        if !self.should_reconnect {
            self.status = ReconnectionStatus {
                is_reconnecting: false,
                attempt_count: 0,
                max_attempts: self.max_attempts,
                last_error: None,
            };
            return SupervisorAction::Stop;
        }
        if self.attempt >= self.max_attempts {
            self.status = ReconnectionStatus {
                is_reconnecting: false,
                attempt_count: self.attempt,
                max_attempts: self.max_attempts,
                last_error: Some(build_max_attempts_text(self.max_attempts)),
            };
            return SupervisorAction::Stop;
        }
        if self.attempt == 0 {
            return SupervisorAction::ConnectNow;
        }
        let delay = backoff_delay_secs(self.attempt);
        self.status = ReconnectionStatus {
            is_reconnecting: true,
            attempt_count: self.attempt,
            max_attempts: self.max_attempts,
            last_error: self.status.last_error.take(),
        };
        SupervisorAction::SleepThenConnect { delay_secs: delay }
    }

    /// A connection attempt failed: count it and publish the reason.
    pub fn on_connect_failed(&mut self, error: String)
        ensures
            final(self).attempt == if old(self).attempt < u32::MAX {
                old(self).attempt + 1
            } else {
                old(self).attempt as int
            },
            final(self).status@.is_reconnecting,
            final(self).status@.attempt_count == final(self).attempt,
            final(self).status@.last_error == Some(error@),
            final(self).should_reconnect == old(self).should_reconnect,
            final(self).max_attempts == old(self).max_attempts,
    {
        if self.attempt < u32::MAX {
            self.attempt = self.attempt + 1;
        }
        self.status = ReconnectionStatus {
            is_reconnecting: false,
            attempt_count: self.attempt,
            max_attempts: self.max_attempts,
            last_error: Some(error),
        };
        self.status.is_reconnecting = true;
    }

    /// A connection came up: the failure streak is over.
    pub fn on_connected(&mut self)
        ensures
            final(self).attempt == 0,
            !final(self).status@.is_reconnecting,
            final(self).status@.attempt_count == 0,
            final(self).status@.last_error is None,
            final(self).should_reconnect == old(self).should_reconnect,
            final(self).max_attempts == old(self).max_attempts,
    {
        self.attempt = 0;
        self.status = ReconnectionStatus {
            is_reconnecting: false,
            attempt_count: 0,
            max_attempts: self.max_attempts,
            last_error: None,
        };
    }

    /// An established connection dropped: retry at once, and say why the
    /// supervisor is reconnecting.
    pub fn on_connection_lost(&mut self)
        ensures
            final(self).attempt == 0,
            final(self).status@.is_reconnecting,
            final(self).status@.attempt_count == 0,
            final(self).status@.last_error == Some(("Connection lost")@),
            final(self).should_reconnect == old(self).should_reconnect,
            final(self).max_attempts == old(self).max_attempts,
    {
        self.attempt = 0;
        self.status = ReconnectionStatus {
            is_reconnecting: true,
            attempt_count: 0,
            max_attempts: self.max_attempts,
            last_error: Some(String::from_str("Connection lost")),
        };
    }

    /// The operator disconnected: stop reconnecting and clear the status.
    pub fn disconnect(&mut self)
        ensures
            !final(self).should_reconnect,
            final(self).attempt == 0,
            !final(self).status@.is_reconnecting,
            final(self).status@.attempt_count == 0,
            final(self).status@.last_error is None,
            final(self).max_attempts == old(self).max_attempts,
    {
        self.should_reconnect = false;
        self.attempt = 0;
        self.status = ReconnectionStatus {
            is_reconnecting: false,
            attempt_count: 0,
            max_attempts: self.max_attempts,
            last_error: None,
        };
    }

    /// The status the shell polls.
    pub fn get_reconnection_status(&self) -> (r: ReconnectionStatus)
        ensures
            r@ == self.status@,
    {
        let last_error = match &self.status.last_error {
            Some(e) => Some(e.clone()),
            None => None,
        };
        ReconnectionStatus {
            is_reconnecting: self.status.is_reconnecting,
            attempt_count: self.status.attempt_count,
            max_attempts: self.status.max_attempts,
            last_error,
        }
    }
}

/// The back-off bound: the wait before the i-th reconnection attempt is
/// exactly `min(2^(i-1), 30)` seconds, and in particular never above thirty.
pub proof fn lemma_backoff_bound(i: nat)
    requires
        i >= 1,
    ensures
        spec_backoff_secs(i) == if two_to((i - 1) as nat) > 30 {
            30nat
        } else {
            two_to((i - 1) as nat)
        },
        spec_backoff_secs(i) <= 30,
{
}

} // verus!
