use vstd::prelude::*;

verus! {

/// The request limits per endpoint: path, most requests, window in seconds.
pub fn configure_rate_limits() -> (r: Vec<(&'static str, usize, u64)>)
    ensures
        r@ == seq![
            ("/api/v1/health", 1000usize, 60u64),
            ("/api/v1/zcash/balance", 60usize, 60u64),
            ("/api/v1/zcash/permissions", 10usize, 60u64),
            ("/api/v1/sessions", 30usize, 60u64),
            ("default", 100usize, 60u64),
        ],
{
    let mut r: Vec<(&'static str, usize, u64)> = Vec::new();
    r.push(("/api/v1/health", 1000, 60));
    r.push(("/api/v1/zcash/balance", 60, 60));
    r.push(("/api/v1/zcash/permissions", 10, 60));
    r.push(("/api/v1/sessions", 30, 60));
    r.push(("default", 100, 60));
    assert(r@ =~= seq![
        ("/api/v1/health", 1000usize, 60u64),
        ("/api/v1/zcash/balance", 60usize, 60u64),
        ("/api/v1/zcash/permissions", 10usize, 60u64),
        ("/api/v1/sessions", 30usize, 60u64),
        ("default", 100usize, 60u64),
    ]);
    r
}

/// A request at `t` still counts at `now` when it lies at most `window`
/// before it (a request stamped after `now` counts too).
pub open spec fn within_window(t: u64, now: u64, window: u64) -> bool {
    t >= now || now - t <= window
}

/// The stamps of `ts` that still count at `now`, in order.
pub open spec fn recent(ts: Seq<u64>, now: u64, window: u64) -> Seq<u64>
    decreases ts.len(),
{
    if ts.len() == 0 {
        Seq::empty()
    } else if within_window(ts.last(), now, window) {
        recent(ts.drop_last(), now, window).push(ts.last())
    } else {
        recent(ts.drop_last(), now, window)
    }
}

pub open spec fn has_key(entries: Seq<(String, Vec<u64>)>, key: Seq<char>) -> bool {
    exists|i: int| 0 <= i < entries.len() && #[trigger] entries[i].0@ == key
}

/// A sliding-window limiter kept in memory: for each key, the instants
/// (milliseconds of a monotonic clock) of its recent admitted requests.
pub struct InMemoryRateLimiter {
    pub requests: Vec<(String, Vec<u64>)>,
    pub max_requests: usize,
    pub window_millis: u64,
}

impl InMemoryRateLimiter {
    /// Keys are unique.
    pub open spec fn wf(&self) -> bool {
        forall|i: int, j: int|
            0 <= i < self.requests@.len() && 0 <= j < self.requests@.len() && i != j
                ==> #[trigger] self.requests@[i].0@ != #[trigger] self.requests@[j].0@
    }

    /// A limiter that admits `max_requests` per key in any `window_millis`.
    pub fn new(max_requests: usize, window_millis: u64) -> (r: InMemoryRateLimiter)
        ensures
            r.wf(),
            r.requests@.len() == 0,
            r.max_requests == max_requests,
            r.window_millis == window_millis,
    {
        InMemoryRateLimiter { requests: Vec::new(), max_requests, window_millis }
    }

    fn prune(stamps: &Vec<u64>, now: u64, window: u64) -> (r: Vec<u64>)
        ensures
            r@ == recent(stamps@, now, window),
    {
        let mut kept: Vec<u64> = Vec::new();
        let mut k: usize = 0;
        while k < stamps.len()
            invariant
                k <= stamps@.len(),
                kept@ == recent(stamps@.subrange(0, k as int), now, window),
            decreases stamps@.len() - k,
        {
            assert(stamps@.subrange(0, k as int + 1).drop_last() =~= stamps@.subrange(0, k as int));
            let t = stamps[k];
            if t >= now || now - t <= window {
                kept.push(t);
            }
            k = k + 1;
        }
        assert(stamps@.subrange(0, k as int) =~= stamps@);
        kept
    }

    /// The position of the entry of `key`.
    pub fn find_key(&self, key: &String) -> (r: Option<usize>)
        ensures
            r matches Some(i) ==> i < self.requests@.len() && self.requests@[i as int].0@ == key@,
            r is None <==> !has_key(self.requests@, key@),
    {
        let mut i: usize = 0;
        while i < self.requests.len()
            invariant
                i <= self.requests@.len(),
                forall|j: int| 0 <= j < i ==> #[trigger] self.requests@[j].0@ != key@,
            decreases self.requests@.len() - i,
        {
            if self.requests[i].0 == *key {
                return Some(i);
            }
            i = i + 1;
        }
        None
    }

    /// Whether a request for `key` at `now` is admitted.
    ///
    /// The key's stamps are first pruned to those that still count; the request
    /// is admitted, and its stamp kept, when fewer than `max_requests` remain.
    pub fn is_allowed(&mut self, key: &String, now: u64) -> (r: bool)
        requires
            old(self).wf(),
        ensures
            final(self).wf(),
            final(self).max_requests == old(self).max_requests,
            final(self).window_millis == old(self).window_millis,
            forall|i: int|
                0 <= i < old(self).requests@.len() && old(self).requests@[i].0@ != key@
                    ==> #[trigger] final(self).requests@[i] == old(self).requests@[i],
            forall|i: int|
                0 <= i < old(self).requests@.len() && #[trigger] old(self).requests@[i].0@ == key@ ==> {
                    let kept = recent(old(self).requests@[i].1@, now, old(self).window_millis);
                    &&& final(self).requests@.len() == old(self).requests@.len()
                    &&& final(self).requests@[i].0@ == key@
                    &&& r == (kept.len() < old(self).max_requests)
                    &&& final(self).requests@[i].1@ == if r { kept.push(now) } else { kept }
                },
            !has_key(old(self).requests@, key@) ==> {
                &&& final(self).requests@.len() == old(self).requests@.len() + 1
                &&& final(self).requests@.last().0@ == key@
                &&& r == (0 < old(self).max_requests)
                &&& final(self).requests@.last().1@ == if r { seq![now] } else { Seq::<u64>::empty() }
            },
    {
        let found = self.find_key(key);
        if found.is_none() {
            let mut stamps: Vec<u64> = Vec::new();
            let allowed = 0 < self.max_requests;
            if allowed {
                stamps.push(now);
            }
            let ghost before = self.requests@;
            self.requests.push((key.clone(), stamps));
            proof {
                assert forall|a: int, b: int|
                    0 <= a < self.requests@.len() && 0 <= b < self.requests@.len() && a != b
                        implies #[trigger] self.requests@[a].0@ != #[trigger] self.requests@[b].0@ by {
                    if a < before.len() && b < before.len() {
                        assert(before[a] == self.requests@[a] && before[b] == self.requests@[b]);
                    }
                }
                assert(seq![now] =~= Seq::<u64>::empty().push(now));
            }
            return allowed;
        }
        let i = found.unwrap();
        proof {
            assert forall|k: int| 0 <= k < self.requests@.len() && #[trigger] self.requests@[k].0@ == key@
                implies k == i as int by {
                if k != i as int {
                    assert(self.requests@[k].0@ != self.requests@[i as int].0@);
                }
            }
        }
        let mut kept = Self::prune(&self.requests[i].1, now, self.window_millis);
        let allowed = kept.len() < self.max_requests;
        if allowed {
            kept.push(now);
        }
        let name = self.requests[i].0.clone();
        let ghost before = self.requests@;
        self.requests.set(i, (name, kept));
        proof {
            assert forall|a: int, b: int|
                0 <= a < self.requests@.len() && 0 <= b < self.requests@.len() && a != b
                    implies #[trigger] self.requests@[a].0@ != #[trigger] self.requests@[b].0@ by {
                assert(before[a].0@ == self.requests@[a].0@ && before[b].0@ == self.requests@[b].0@);
            }
        }
        allowed
    }
}

} // verus!
