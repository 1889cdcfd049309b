//! Whether the daemon can reach upstream, judged from the requests it makes,
//! and what a request loop does with each outcome. The clock, the socket and
//! the subscribers are the caller's: every transition takes the time it
//! happens at, and hands back the status to publish when there is news.

use vstd::prelude::*;

use crate::retry::MAX_ATTEMPTS;
use crate::text::{decimal, decimal_u64, push_all, push_str, string_of};

verus! {

/// How often, in seconds, an offline daemon probes for recovery.
pub const RETRY_EVERY: i64 = 10;

/// How long, in seconds, an online state stays fresh without traffic.
pub const FRESH_FOR: i64 = 60;

/// What the daemon believes of upstream.
#[derive(Debug, Clone, Copy, PartialEq, Eq, Structural)]
pub enum NetworkState {
    /// Nothing observed yet.
    Unknown,
    Online,
    Offline,
}

/// The reachability a front-end is shown.
#[derive(Debug, Clone, Copy, PartialEq, Eq, Structural)]
pub struct NetworkStatus {
    pub state: NetworkState,
    /// The user pinned the daemon offline: nothing is attempted.
    pub offline_mode: bool,
    /// When a request last got an answer.
    pub last_online_unix: i64,
    /// When the state last changed.
    pub since_unix: i64,
}

/// `a - b`, clamped to the range of `i64`.
pub open spec fn sat_sub(a: i64, b: i64) -> int {
    if a - b > i64::MAX {
        i64::MAX as int
    } else if a - b < i64::MIN {
        i64::MIN as int
    } else {
        a - b
    }
}

fn saturating_sub(a: i64, b: i64) -> (r: i64)
    ensures
        r == sat_sub(a, b),
{
    let d: i128 = a as i128 - b as i128;
    if d > i64::MAX as i128 {
        i64::MAX
    } else if d < i64::MIN as i128 {
        i64::MIN
    } else {
        d as i64
    }
}

/// The status after a change that leaves `state` and `offline_mode` as given
/// and the last answer at `last_online`: the moment of change moves to `now`
/// only when the state or the pin actually changed.
pub open spec fn settle(before: NetworkStatus, state: NetworkState, offline_mode: bool, last_online: i64, now: i64) -> NetworkStatus {
    NetworkStatus {
        state,
        offline_mode,
        last_online_unix: last_online,
        since_unix: if state == before.state && offline_mode == before.offline_mode {
            before.since_unix
        } else {
            now
        },
    }
}

/// Whether a transition from `before` to `after` is news worth publishing:
/// a new state or a new pin; a fresher answer time alone is not.
pub open spec fn is_news(before: NetworkStatus, after: NetworkStatus) -> bool {
    after.state != before.state || after.offline_mode != before.offline_mode
}

/// The daemon's view of upstream, with the time of its last probe.
#[derive(Debug, Clone, Copy, PartialEq, Eq, Structural)]
pub struct Reachability {
    pub status: NetworkStatus,
    pub last_probe_unix: i64,
}

impl Reachability {
    /// A pinned daemon is always offline.
    pub open spec fn wf(&self) -> bool {
        self.status.offline_mode ==> self.status.state == NetworkState::Offline
    }

    /// Nothing observed, not pinned, never probed.
    pub fn new() -> (r: Reachability)
        ensures
            r.wf(),
            r.status == (NetworkStatus {
                state: NetworkState::Unknown,
                offline_mode: false,
                last_online_unix: 0,
                since_unix: 0,
            }),
            r.last_probe_unix == 0,
    {
        Reachability {
            status: NetworkStatus {
                state: NetworkState::Unknown,
                offline_mode: false,
                last_online_unix: 0,
                since_unix: 0,
            },
            last_probe_unix: 0,
        }
    }

    /// Whether the user pinned the daemon offline.
    pub fn pinned(&self) -> (r: bool)
        ensures
            r == self.status.offline_mode,
    {
        self.status.offline_mode
    }

    fn apply(&mut self, state: NetworkState, offline_mode: bool, last_online: i64, now: i64) -> (published: Option<NetworkStatus>)
        ensures
            final(self).status == settle(old(self).status, state, offline_mode, last_online, now),
            final(self).last_probe_unix == old(self).last_probe_unix,
            is_news(old(self).status, final(self).status) ==> published == Some(final(self).status),
            !is_news(old(self).status, final(self).status) ==> published is None,
    {
        let changed = state != self.status.state || offline_mode != self.status.offline_mode;
        let since = if changed {
            now
        } else {
            self.status.since_unix
        };
        self.status = NetworkStatus { state, offline_mode, last_online_unix: last_online, since_unix: since };
        if changed {
            Some(self.status)
        } else {
            None
        }
    }

    /// Pin the daemon offline, or release it to be judged afresh.
    pub fn set_offline_mode(&mut self, offline: bool, now: i64) -> (published: Option<NetworkStatus>)
        ensures
            final(self).wf(),
            final(self).status == settle(
                old(self).status,
                if offline {
                    NetworkState::Offline
                } else {
                    NetworkState::Unknown
                },
                offline,
                old(self).status.last_online_unix,
                now,
            ),
            final(self).last_probe_unix == old(self).last_probe_unix,
            published == (if is_news(old(self).status, final(self).status) {
                Some(final(self).status)
            } else {
                None
            }),
    {
        let state = if offline {
            NetworkState::Offline
        } else {
            NetworkState::Unknown
        };
        let last = self.status.last_online_unix;
        self.apply(state, offline, last, now)
    }

    /// A request got an answer at `now`: upstream is online unless pinned.
    pub fn observe_reachable(&mut self, now: i64) -> (published: Option<NetworkStatus>)
        requires
            old(self).wf(),
        ensures
            final(self).wf(),
            final(self).status == settle(
                old(self).status,
                if old(self).status.offline_mode {
                    old(self).status.state
                } else {
                    NetworkState::Online
                },
                old(self).status.offline_mode,
                now,
                now,
            ),
            final(self).last_probe_unix == old(self).last_probe_unix,
            published == (if is_news(old(self).status, final(self).status) {
                Some(final(self).status)
            } else {
                None
            }),
    {
        let state = if self.status.offline_mode {
            self.status.state
        } else {
            NetworkState::Online
        };
        let pin = self.status.offline_mode;
        self.apply(state, pin, now, now)
    }

    /// A request did not reach upstream: offline, unless pinned (already so).
    pub fn observe_unreachable(&mut self, now: i64) -> (published: Option<NetworkStatus>)
        requires
            old(self).wf(),
        ensures
            final(self).wf(),
            final(self).status == settle(
                old(self).status,
                NetworkState::Offline,
                old(self).status.offline_mode,
                old(self).status.last_online_unix,
                now,
            ),
            final(self).last_probe_unix == old(self).last_probe_unix,
            published == (if is_news(old(self).status, final(self).status) {
                Some(final(self).status)
            } else {
                None
            }),
    {
        let pin = self.status.offline_mode;
        let last = self.status.last_online_unix;
        self.apply(NetworkState::Offline, pin, last, now)
    }

    /// Whether the state has gone stale at `now` and a probe is due: never
    /// while pinned; always while unknown; every `RETRY_EVERY` seconds while
    /// offline; while online, only once traffic and probes have both been
    /// quiet for `FRESH_FOR` seconds.
    pub open spec fn due_spec(&self, now: i64) -> bool {
        !self.status.offline_mode && match self.status.state {
            NetworkState::Unknown => true,
            NetworkState::Offline => sat_sub(now, self.last_probe_unix) >= 10,
            NetworkState::Online => sat_sub(now, self.status.last_online_unix) >= 60 && sat_sub(
                now,
                self.last_probe_unix,
            ) >= 60,
        }
    }

    /// Whether a probe is due at `now`.
    pub fn probe_due(&self, now: i64) -> (r: bool)
        ensures
            r == self.due_spec(now),
    {
        if self.status.offline_mode {
            return false;
        }
        let since_probe = saturating_sub(now, self.last_probe_unix);
        match self.status.state {
            NetworkState::Unknown => true,
            NetworkState::Offline => since_probe >= RETRY_EVERY,
            NetworkState::Online => saturating_sub(now, self.status.last_online_unix) >= FRESH_FOR
                && since_probe >= FRESH_FOR,
        }
    }

    /// Record that a probe starts at `now`.
    pub fn start_probe(&mut self, now: i64)
        ensures
            final(self).status == old(self).status,
            final(self).last_probe_unix == now,
    {
        self.last_probe_unix = now;
    }
}

/// While the daemon is pinned offline, nothing a request observes moves it:
/// neither an answer nor a failure changes the state or publishes news.
pub proof fn lemma_pinned_ignores_traffic(r: Reachability, now: i64)
    requires
        r.wf(),
        r.status.offline_mode,
    ensures
        settle(r.status, r.status.state, true, now, now).state == NetworkState::Offline,
        !is_news(r.status, settle(r.status, r.status.state, true, now, now)),
        !is_news(r.status, settle(r.status, NetworkState::Offline, true, r.status.last_online_unix, now)),
        !r.due_spec(now),
{
}

/// Observing the same outcome twice publishes at most once: the second
/// observation finds nothing new.
pub proof fn lemma_repeat_is_quiet(before: NetworkStatus, state: NetworkState, pin: bool, last: i64, now: i64, later: i64, last2: i64)
    ensures
        !is_news(settle(before, state, pin, last, now), settle(settle(before, state, pin, last, now), state, pin, last2, later)),
        settle(settle(before, state, pin, last, now), state, pin, last2, later).since_unix == settle(before, state, pin, last, now).since_unix,
{
}

/// What a request loop does with an answered request.
#[derive(Debug, Clone, Copy, PartialEq, Eq, Structural)]
pub enum AnswerStep {
    /// Hand the response to the caller, whatever its status.
    Deliver,
    /// Send the request again after this many milliseconds.
    RetryAfter(u64),
}

/// An answered request is retried only when upstream asked for it (`backoff`
/// is the wait its status and headers call for) and the request can be
/// sent again; any other answer is the caller's.
pub fn after_answer(backoff: Option<u64>, replayable: bool) -> (r: AnswerStep)
    ensures
        r == (match backoff {
            Some(ms) => if replayable {
                AnswerStep::RetryAfter(ms)
            } else {
                AnswerStep::Deliver
            },
            None => AnswerStep::Deliver,
        }),
{
    match backoff {
        Some(ms) => if replayable {
            AnswerStep::RetryAfter(ms)
        } else {
            AnswerStep::Deliver
        },
        None => AnswerStep::Deliver,
    }
}

/// What a request loop does with a request that got no answer.
#[derive(Debug, Clone, Copy, PartialEq, Eq, Structural)]
pub enum FailureStep {
    /// The failure was the answer, not the network: upstream is reachable
    /// and the request fails as upstream's error.
    Upstream,
    /// The network dropped it; wait out the attempt's backoff and resend.
    Retry,
    /// The retries are spent (or the request cannot be resent): upstream is
    /// unreachable and the request fails as offline.
    Offline,
}

/// The step after a failed attempt `attempt` (counting from 1): a failure
/// on the way out is retried while attempts remain and the request can be
/// resent, and only then counts as the network being down.
pub fn after_failure(transport: bool, attempt: u32, replayable: bool) -> (r: FailureStep)
    ensures
        !transport ==> r == FailureStep::Upstream,
        transport && replayable && attempt < MAX_ATTEMPTS ==> r == FailureStep::Retry,
        transport && !(replayable && attempt < MAX_ATTEMPTS) ==> r == FailureStep::Offline,
{
    if !transport {
        FailureStep::Upstream
    } else if replayable && attempt < MAX_ATTEMPTS {
        FailureStep::Retry
    } else {
        FailureStep::Offline
    }
}

/// Whether an HTTP status is a success (2xx).
pub open spec fn is_success(status: u16) -> bool {
    200 <= status <= 299
}

/// The detail an unsuccessful status is reported with: `HTTP <code>`.
pub open spec fn status_detail(status: u16) -> Seq<char> {
    "HTTP "@ + decimal(status as nat)
}

/// Accept a 2xx status; any other is upstream's failure, reported as
/// `HTTP <code>`.
pub fn require_success(status: u16) -> (r: Result<(), String>)
    ensures
        is_success(status) ==> r is Ok,
        !is_success(status) ==> (r matches Err(d) && d@ == status_detail(status)),
{
    if 200 <= status && status <= 299 {
        return Ok(());
    }
    let mut out: Vec<char> = Vec::new();
    push_str(&mut out, "HTTP ");
    let digits = decimal_u64(status as u64);
    push_all(&mut out, &digits);
    proof {
        reveal_strlit("HTTP ");
    }
    Err(string_of(&out))
}

} // verus!
