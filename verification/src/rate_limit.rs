//! Search rate limiting and the Soulseek session's connection state.
//!
//! Time is passed in as milliseconds on the caller's monotonic clock; the
//! caller sleeps when told to wait.
use vstd::prelude::*;

use crate::soulseek::SearchConfig;

verus! {

/// What the rate limiter decides for one search.
#[derive(Debug, Clone, Copy, PartialEq, Eq, Structural)]
pub enum Admission {
    /// Search now.
    Proceed,
    /// Sleep this many milliseconds, then call `window_renewed`.
    Wait(u64),
}

/// At most `searches_per_time` searches per window of `renew_time_ms`.
#[derive(Debug, Clone, Copy, PartialEq, Eq, Structural)]
pub struct SearchRateLimiter {
    pub searches_per_time: u32,
    pub renew_time_ms: u64,
    /// When the current window started (caller's clock, milliseconds).
    pub window_start_ms: u64,
    /// Searches made in the current window.
    pub used_in_window: u32,
}

impl SearchRateLimiter {
    /// The window never holds more searches than allowed, except for the
    /// single search that starts a window after a wait.
    pub open spec fn wf(&self) -> bool {
        self.used_in_window <= self.searches_per_time || self.used_in_window == 1
    }

    /// A limiter whose first window starts at the clock's origin.
    pub fn new(searches_per_time: u32, renew_time_secs: u32) -> (r: Self)
        ensures
            r.searches_per_time == searches_per_time,
            r.renew_time_ms == renew_time_secs * 1000,
            r.window_start_ms == 0,
            r.used_in_window == 0,
            r.wf(),
    {
        SearchRateLimiter {
            searches_per_time,
            renew_time_ms: renew_time_secs as u64 * 1000,
            window_start_ms: 0,
            used_in_window: 0,
        }
    }

    /// Milliseconds since the window started (0 if the clock reads earlier).
    pub open spec fn elapsed(&self, now_ms: u64) -> int {
        if now_ms >= self.window_start_ms {
            now_ms - self.window_start_ms
        } else {
            0
        }
    }

    /// Asks to search at `now_ms`. A window older than the renew time is
    /// restarted; within the allowance the search proceeds at once,
    /// otherwise the caller must wait out the rest of the window.
    pub fn acquire(&mut self, now_ms: u64) -> (r: Admission)
        requires
            old(self).searches_per_time > 0 || old(self).elapsed(now_ms) <= old(self).renew_time_ms,
        ensures
            (*final(self), r) == acquire_step(*old(self), now_ms),
            old(self).wf() ==> final(self).wf(),
    {
        let elapsed: u64 = if now_ms >= self.window_start_ms {
            now_ms - self.window_start_ms
        } else {
            0
        };
        if elapsed > self.renew_time_ms {
            self.window_start_ms = now_ms;
            self.used_in_window = 0;
        }
        if self.used_in_window < self.searches_per_time {
            self.used_in_window = self.used_in_window + 1;
            return Admission::Proceed;
        }
        Admission::Wait(self.renew_time_ms - elapsed)
    }

    /// After waiting: a new window starts at `now_ms` with this search in it.
    pub fn window_renewed(&mut self, now_ms: u64)
        ensures
            final(self).searches_per_time == old(self).searches_per_time,
            final(self).renew_time_ms == old(self).renew_time_ms,
            final(self).window_start_ms == now_ms,
            final(self).used_in_window == 1,
            final(self).wf(),
    {
        self.window_start_ms = now_ms;
        self.used_in_window = 1;
    }
}

/// One request to search at `now_ms`: the limiter after it and the answer.
/// An expired window restarts at `now_ms` with nothing used; a search
/// within the allowance proceeds and is counted; otherwise the caller waits
/// out the rest of the (old) window.
pub open spec fn acquire_step(l: SearchRateLimiter, now_ms: u64) -> (SearchRateLimiter, Admission) {
    let expired = l.elapsed(now_ms) > l.renew_time_ms;
    let used: int = if expired { 0 } else { l.used_in_window as int };
    let start = if expired { now_ms } else { l.window_start_ms };
    if used < l.searches_per_time {
        (SearchRateLimiter { used_in_window: (used + 1) as u32, window_start_ms: start, ..l }, Admission::Proceed)
    } else {
        (
            SearchRateLimiter { used_in_window: used as u32, window_start_ms: start, ..l },
            Admission::Wait((l.renew_time_ms - l.elapsed(now_ms)) as u64),
        )
    }
}

/// How many of a run of requests, at the given times, proceed at once.
pub open spec fn proceeded(l: SearchRateLimiter, times: Seq<u64>) -> int
    decreases times.len(),
{
    if times.len() == 0 {
        0
    } else {
        let (next, r) = acquire_step(l, times[0]);
        (if r == Admission::Proceed { 1int } else { 0int }) + proceeded(next, times.drop_first())
    }
}

/// Within one window, at most `searches_per_time` searches proceed: a run
/// of requests that all fall inside the current window lets through no
/// more than what is left of the allowance.
pub proof fn lemma_window_allowance(l: SearchRateLimiter, times: Seq<u64>)
    requires
        l.used_in_window <= l.searches_per_time,
        forall|i: int| 0 <= i < times.len() ==> #[trigger] l.elapsed(times[i]) <= l.renew_time_ms,
    ensures
        proceeded(l, times) <= l.searches_per_time - l.used_in_window,
    decreases times.len(),
{
    if times.len() > 0 {
        let (next, r) = acquire_step(l, times[0]);
        assert(l.elapsed(times[0]) <= l.renew_time_ms);
        assert forall|i: int| 0 <= i < times.drop_first().len() implies #[trigger] next.elapsed(times.drop_first()[i])
            <= next.renew_time_ms by {
            assert(times.drop_first()[i] == times[i + 1]);
            assert(l.elapsed(times[i + 1]) <= l.renew_time_ms);
        }
        lemma_window_allowance(next, times.drop_first());
    }
}

/// Why the search settings cannot be used.
#[derive(Debug, Clone, Copy, PartialEq, Eq, Structural)]
pub enum RateSettingsError {
    /// `searches_per_time` is zero.
    ZeroSearches,
    /// The renew period is zero.
    ZeroPeriod,
}

/// The allowance and renew period (seconds) in effect: 34 searches per 220
/// seconds unless configured, both required to be positive.
pub fn rate_limit_settings(config: &SearchConfig) -> (r: Result<(u32, u32), RateSettingsError>)
    ensures
        ({
            let spt: u32 = match config.searches_per_time {
                Some(v) => v,
                None => 34u32,
            };
            let renew: u32 = match config.renew_time_secs {
                Some(v) => v,
                None => 220u32,
            };
            if spt == 0 {
                r == Err::<(u32, u32), RateSettingsError>(RateSettingsError::ZeroSearches)
            } else if renew == 0 {
                r == Err::<(u32, u32), RateSettingsError>(RateSettingsError::ZeroPeriod)
            } else {
                r == Ok::<(u32, u32), RateSettingsError>((spt, renew))
            }
        }),
{
    let spt = match config.searches_per_time {
        Some(v) => v,
        None => 34,
    };
    let renew = match config.renew_time_secs {
        Some(v) => v,
        None => 220,
    };
    if spt == 0 {
        Err(RateSettingsError::ZeroSearches)
    } else if renew == 0 {
        Err(RateSettingsError::ZeroPeriod)
    } else {
        Ok((spt, renew))
    }
}

// ----------------------------------------------------------------------
// Session state
// ----------------------------------------------------------------------

/// The connection to the Soulseek network.
#[derive(Debug, Clone, PartialEq, Eq)]
pub enum SessionState {
    Disconnected { last_error: Option<String> },
    Connecting,
    LoggedIn { since_ms: u64 },
    Backoff { until_ms: u64, last_error: String },
}

/// What to do before an operation that needs a session.
#[derive(Debug, Clone, Copy, PartialEq, Eq, Structural)]
pub enum SessionCheck {
    /// Logged in: go ahead.
    Ready,
    /// A failed login is being backed off until this time.
    InBackoff(u64),
    /// Log in first.
    Login,
}

/// The session and its login backoff.
#[derive(Debug, Clone)]
pub struct Session {
    pub state: SessionState,
    /// Seconds to wait after the next failed login.
    pub backoff_secs: u64,
}

impl Session {
    /// Backoff stays between one second and a minute.
    pub open spec fn wf(&self) -> bool {
        1 <= self.backoff_secs <= 60
    }

    /// Disconnected, with a one-second backoff.
    pub fn new() -> (r: Self)
        ensures
            r.state == (SessionState::Disconnected { last_error: None }),
            r.backoff_secs == 1,
            r.wf(),
    {
        Session { state: SessionState::Disconnected { last_error: None }, backoff_secs: 1 }
    }

    /// Whether an operation may run, must wait, or must log in first.
    pub fn check(&self, now_ms: u64) -> (r: SessionCheck)
        ensures
            match self.state {
                SessionState::LoggedIn { .. } => r == SessionCheck::Ready,
                SessionState::Backoff { until_ms, .. } => if now_ms < until_ms {
                    r == SessionCheck::InBackoff(until_ms)
                } else {
                    r == SessionCheck::Login
                },
                _ => r == SessionCheck::Login,
            },
    {
        match &self.state {
            SessionState::LoggedIn { .. } => SessionCheck::Ready,
            SessionState::Backoff { until_ms, .. } => {
                if now_ms < *until_ms {
                    SessionCheck::InBackoff(*until_ms)
                } else {
                    SessionCheck::Login
                }
            },
            _ => SessionCheck::Login,
        }
    }

    /// A login attempt starts.
    pub fn begin_login(&mut self)
        ensures
            final(self).state == SessionState::Connecting,
            final(self).backoff_secs == old(self).backoff_secs,
    {
        self.state = SessionState::Connecting;
    }

    /// The login succeeded at `now_ms`; the backoff is reset.
    pub fn login_succeeded(&mut self, now_ms: u64)
        ensures
            final(self).state == (SessionState::LoggedIn { since_ms: now_ms }),
            final(self).backoff_secs == 1,
            final(self).wf(),
    {
        self.state = SessionState::LoggedIn { since_ms: now_ms };
        self.backoff_secs = 1;
    }

    /// The login failed at `now_ms`: back off for the current backoff (at
    /// most a minute), and double the next one up to a minute.
    pub fn login_failed(&mut self, now_ms: u64, error: String)
        requires
            old(self).wf(),
            now_ms + old(self).backoff_secs * 1000 <= u64::MAX,
        ensures
            final(self).state == (SessionState::Backoff {
                until_ms: (now_ms + old(self).backoff_secs * 1000) as u64,
                last_error: error,
            }),
            final(self).backoff_secs == if old(self).backoff_secs * 2 <= 60 {
                old(self).backoff_secs * 2
            } else {
                60
            },
            final(self).wf(),
    {
        let wait_ms = self.backoff_secs * 1000;
        let until_ms = now_ms + wait_ms;
        self.backoff_secs = if self.backoff_secs * 2 <= 60 {
            self.backoff_secs * 2
        } else {
            60
        };
        self.state = SessionState::Backoff { until_ms, last_error: error };
    }

    /// Drops the session after an error.
    pub fn invalidate(&mut self, error: String)
        ensures
            final(self).state == (SessionState::Disconnected { last_error: Some(error) }),
            final(self).backoff_secs == old(self).backoff_secs,
    {
        self.state = SessionState::Disconnected { last_error: Some(error) };
    }

    /// A consumer saw a terminal failure: a logged-in session is dropped
    /// (returns true); any other state is left alone.
    pub fn report_session_error(&mut self, reason: String) -> (dropped: bool)
        ensures
            dropped == (old(self).state is LoggedIn),
            dropped ==> final(self).state == (SessionState::Disconnected { last_error: Some(reason) }),
            !dropped ==> final(self).state == old(self).state,
            final(self).backoff_secs == old(self).backoff_secs,
    {
        let logged_in = match &self.state {
            SessionState::LoggedIn { .. } => true,
            _ => false,
        };
        if logged_in {
            self.invalidate(reason);
        }
        logged_in
    }
}

} // verus!
