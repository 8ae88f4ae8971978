//! Spacing of the requests sent to the geocoding service.
use vstd::prelude::*;

verus! {

/// Milliseconds to wait before each request, the first included.
pub const REQUEST_PAUSE_MS: u64 = 2000;

/// Keeps each request at least `REQUEST_PAUSE_MS` after the previous one,
/// and the first at least that long after the run started, measured at the
/// moment each request is issued.
#[derive(Clone, Copy, Debug)]
pub struct RequestPacer {
    /// When the run started or the last request was issued, whichever came
    /// later, in milliseconds of a monotonic clock.
    pub last_mark_ms: u64,
}

impl RequestPacer {
    /// The pacer whose last mark is `mark_ms`.
    pub open spec fn new_spec(mark_ms: u64) -> RequestPacer {
        RequestPacer { last_mark_ms: mark_ms }
    }

    /// A request may be issued at `now_ms`.
    pub open spec fn allows(self, now_ms: u64) -> bool {
        now_ms >= self.last_mark_ms + REQUEST_PAUSE_MS
    }

    /// The pacer once a request has been issued at `now_ms`.
    pub open spec fn after_issue(self, now_ms: u64) -> RequestPacer {
        RequestPacer { last_mark_ms: now_ms }
    }

    /// A pacer for a run that starts at `start_ms`.
    pub fn new(start_ms: u64) -> (r: RequestPacer)
        ensures
            r.last_mark_ms == start_ms,
    {
        RequestPacer { last_mark_ms: start_ms }
    }

    /// How long to sleep before each request: a fixed pause that does not
    /// adapt to anything.
    pub fn pause_ms(&self) -> (r: u64)
        ensures
            r == REQUEST_PAUSE_MS,
    {
        REQUEST_PAUSE_MS
    }

    /// How much longer to wait at `now_ms` before a request may go out. A
    /// clock that reads earlier than the last mark asks for a full pause.
    pub fn wait_left(&self, now_ms: u64) -> (r: u64)
        ensures
            self.allows(now_ms) <==> r == 0,
            !self.allows(now_ms) && now_ms >= self.last_mark_ms ==> now_ms + r
                == self.last_mark_ms + REQUEST_PAUSE_MS,
            now_ms < self.last_mark_ms ==> r == REQUEST_PAUSE_MS,
    {
        let t = self.last_mark_ms;
        if now_ms < t {
            REQUEST_PAUSE_MS
        } else if now_ms - t < REQUEST_PAUSE_MS {
            REQUEST_PAUSE_MS - (now_ms - t)
        } else {
            0
        }
    }

    /// Records a request issued at `now_ms` where the pause since the last
    /// mark has passed, and tells whether it has.
    pub fn try_issue(&mut self, now_ms: u64) -> (r: bool)
        ensures
            r == old(self).allows(now_ms),
            r ==> *final(self) == old(self).after_issue(now_ms),
            !r ==> *final(self) == *old(self),
    {
        let ok = now_ms as u128 >= self.last_mark_ms as u128 + REQUEST_PAUSE_MS as u128;
        if ok {
            self.last_mark_ms = now_ms;
        }
        ok
    }
}

/// The time the `k`-th request of a run is measured from: the start for the
/// first, the request before it for each later one.
pub open spec fn previous_mark(start_ms: u64, times: Seq<u64>, k: int) -> u64 {
    if k == 0 {
        start_ms
    } else {
        times[k - 1]
    }
}

/// The requests of a run, issued at `times`, each let through by the pacer
/// as it stood after the request before.
pub open spec fn paced_run(start_ms: u64, times: Seq<u64>) -> bool {
    forall|k: int|
        0 <= k < times.len() ==> RequestPacer::new_spec(previous_mark(start_ms, times, k)).allows(
            #[trigger] times[k],
        )
}

/// In a run whose requests the pacer let through, the first request comes
/// at least `REQUEST_PAUSE_MS` after the start, each later one at least that
/// long after the one before, and so the `k`-th (from zero) at least `k + 1`
/// pauses after the start.
pub proof fn lemma_paced_run_spacing(start_ms: u64, times: Seq<u64>)
    requires
        paced_run(start_ms, times),
    ensures
        forall|k: int|
            0 <= k < times.len() ==> #[trigger] times[k] >= previous_mark(start_ms, times, k)
                + REQUEST_PAUSE_MS,
        forall|k: int|
            0 <= k < times.len() ==> #[trigger] times[k] >= start_ms + (k + 1) * REQUEST_PAUSE_MS,
{
    assert forall|k: int| 0 <= k < times.len() implies #[trigger] times[k] >= start_ms + (k + 1)
        * REQUEST_PAUSE_MS by {
        lemma_paced_prefix(start_ms, times, k);
    }
}

proof fn lemma_paced_prefix(start_ms: u64, times: Seq<u64>, k: int)
    requires
        paced_run(start_ms, times),
        0 <= k < times.len(),
    ensures
        times[k] >= start_ms + (k + 1) * REQUEST_PAUSE_MS,
    decreases k,
{
    assert(RequestPacer::new_spec(previous_mark(start_ms, times, k)).allows(times[k]));
    if k > 0 {
        lemma_paced_prefix(start_ms, times, k - 1);
    }
}

} // verus!
