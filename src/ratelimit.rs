use vstd::prelude::*;

verus! {

/// The least time between two requests to a rate-limited backend: 60 s / 6.5 s
/// stays under ten requests a minute.
pub const MIN_REQUEST_INTERVAL_MS: u64 = 6500;

/// How long a provider holds back after the backend reported its quota used up.
pub const PENALTY_MS: u64 = 60_000;

/// The shared request clock of one provider. Times are milliseconds on a
/// monotonic clock.
#[derive(Debug, Clone, Copy, PartialEq, Eq, Structural)]
pub struct RateLimiter {
    /// When the last request was let through.
    pub last_request_ms: u64,
    /// The least spacing between two requests.
    pub min_interval_ms: u64,
    /// No request goes out before this time (the end of a penalty).
    pub resume_at_ms: u64,
}

pub open spec fn max_int(a: int, b: int) -> int {
    if a >= b {
        a
    } else {
        b
    }
}

/// When a request asked for at `now` may go out: not before `now`, not before
/// `min` after the last one, and not inside a penalty.
pub open spec fn issue_time(last: int, min: int, resume: int, now: int) -> int {
    max_int(max_int(now, last + min), resume)
}

/// The times at which requests asked for at `nows`, one after the other, go out.
pub open spec fn issue_times(last: int, min: int, resume: int, nows: Seq<int>) -> Seq<int>
    decreases nows.len(),
{
    if nows.len() == 0 {
        Seq::empty()
    } else {
        let t = issue_time(last, min, resume, nows[0]);
        seq![t] + issue_times(t, min, resume, nows.drop_first())
    }
}

impl RateLimiter {
    /// A limiter whose clock starts at `now_ms`, as if a request went out then.
    pub fn new(now_ms: u64, min_interval_ms: u64) -> (r: RateLimiter)
        ensures
            r == (RateLimiter { last_request_ms: now_ms, min_interval_ms, resume_at_ms: 0 }),
    {
        RateLimiter { last_request_ms: now_ms, min_interval_ms, resume_at_ms: 0 }
    }

    /// Takes the next slot for a request asked for at `now_ms`: returns how long
    /// the caller waits before sending, and stamps the slot as the last request.
    pub fn acquire(&mut self, now_ms: u64) -> (wait_ms: u64)
        requires
            old(self).last_request_ms + old(self).min_interval_ms <= u64::MAX,
        ensures
            final(self).last_request_ms == issue_time(
                old(self).last_request_ms as int,
                old(self).min_interval_ms as int,
                old(self).resume_at_ms as int,
                now_ms as int,
            ),
            final(self).min_interval_ms == old(self).min_interval_ms,
            final(self).resume_at_ms == old(self).resume_at_ms,
            wait_ms == final(self).last_request_ms - now_ms,
    {
        let earliest = self.last_request_ms + self.min_interval_ms;
        let mut t = if now_ms >= earliest {
            now_ms
        } else {
            earliest
        };
        if self.resume_at_ms > t {
            t = self.resume_at_ms;
        }
        self.last_request_ms = t;
        t - now_ms
    }

    /// Holds the provider back for `PENALTY_MS` from `now_ms`, after the backend
    /// reported its quota used up. Returns how long the reporting call waits.
    pub fn penalize(&mut self, now_ms: u64) -> (wait_ms: u64)
        requires
            now_ms + PENALTY_MS <= u64::MAX,
        ensures
            final(self).resume_at_ms == max_int(old(self).resume_at_ms as int, now_ms + PENALTY_MS),
            final(self).last_request_ms == old(self).last_request_ms,
            final(self).min_interval_ms == old(self).min_interval_ms,
            wait_ms == final(self).resume_at_ms - now_ms,
            wait_ms >= PENALTY_MS,
    {
        let until = now_ms + PENALTY_MS;
        if until > self.resume_at_ms {
            self.resume_at_ms = until;
        }
        self.resume_at_ms - now_ms
    }
}

/// Requests that go through one limiter one after the other are spaced by at
/// least the minimum interval, so the last of `n` goes out at least
/// `(n - 1) * min` after the first, whenever each was asked for.
pub proof fn lemma_requests_spaced(last: int, min: int, resume: int, nows: Seq<int>)
    requires
        min >= 0,
    ensures
        issue_times(last, min, resume, nows).len() == nows.len(),
        forall|i: int|
            0 <= i < nows.len() - 1 ==> #[trigger] issue_times(last, min, resume, nows)[i + 1]
                >= issue_times(last, min, resume, nows)[i] + min,
        nows.len() > 0 ==> issue_times(last, min, resume, nows)[nows.len() - 1]
            >= issue_times(last, min, resume, nows)[0] + (nows.len() - 1) * min,
    decreases nows.len(),
{
    if nows.len() > 0 {
        let t = issue_time(last, min, resume, nows[0]);
        let rest = nows.drop_first();
        lemma_requests_spaced(t, min, resume, rest);
        let ts = issue_times(last, min, resume, nows);
        let tr = issue_times(t, min, resume, rest);
        assert(ts =~= seq![t] + tr);
        assert forall|i: int| 0 <= i < nows.len() - 1 implies #[trigger] ts[i + 1] >= ts[i] + min by {
            if i > 0 {
                assert(ts[i + 1] == tr[i]);
                assert(ts[i] == tr[i - 1]);
                assert(tr[(i - 1) + 1] >= tr[i - 1] + min);
            } else {
                assert(ts[1] == tr[0]);
                assert(rest.len() > 0);
                assert(tr =~= seq![issue_time(t, min, resume, rest[0])] + issue_times(
                    issue_time(t, min, resume, rest[0]), min, resume, rest.drop_first()));
                assert(tr[0] >= t + min);
            }
        }
        if rest.len() > 0 {
            assert(tr[rest.len() - 1] >= tr[0] + (rest.len() - 1) * min);
            assert(ts[nows.len() - 1] == tr[rest.len() - 1]);
            assert(tr =~= seq![issue_time(t, min, resume, rest[0])] + issue_times(
                issue_time(t, min, resume, rest[0]), min, resume, rest.drop_first()));
            assert(tr[0] >= t + min);
            assert((nows.len() - 1) * min == (rest.len() - 1) * min + min) by (nonlinear_arith)
                requires rest.len() == nows.len() - 1;
            assert(ts[0] == t);
        } else {
            assert((nows.len() - 1) * min == 0) by (nonlinear_arith)
                requires nows.len() == 1;
        }
    }
}

/// After a penalty at `t`, the next request, whenever asked for, goes out no
/// earlier than `PENALTY_MS` after `t`.
pub proof fn lemma_penalty_delays_next(before: RateLimiter, after: RateLimiter, t: u64, now: u64)
    requires
        after.resume_at_ms == max_int(before.resume_at_ms as int, t + PENALTY_MS),
    ensures
        issue_time(
            after.last_request_ms as int,
            after.min_interval_ms as int,
            after.resume_at_ms as int,
            now as int,
        ) >= t + PENALTY_MS,
{
}

} // verus!
