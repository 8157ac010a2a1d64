use vstd::prelude::*;
use crate::bytes::bytes_eq;
use crate::bytes::copy_bytes;

verus! {

/// `c` raised by one, stopping at the largest representable count.
pub open spec fn saturating_inc(c: int) -> int {
    if c >= usize::MAX {
        c
    } else {
        c + 1
    }
}

/// Whether the limiter admits a request arriving at `now` from a client
/// whose standing is `e`: nothing recorded yet, or a count and the second
/// its window began. A limit of zero disables limiting altogether; a
/// window sixty seconds old has rolled over and the quota starts afresh.
pub open spec fn request_allowed(max: int, e: Option<(int, int)>, now: int) -> bool {
    if max == 0 {
        true
    } else {
        match e {
            Option::None => true,
            Option::Some((c, ws)) => now >= ws + 60 || saturating_inc(c) <= max,
        }
    }
}

/// The client's standing after the limiter has seen a request at `now`:
/// a first request opens a window of one, a rolled-over window starts
/// afresh, and otherwise the count rises by one (denied requests count
/// too, so a client over quota stays over quota until the window rolls).
pub open spec fn state_after(max: int, e: Option<(int, int)>, now: int) -> Option<(int, int)> {
    if max == 0 {
        e
    } else {
        match e {
            Option::None => Option::Some((1, now)),
            Option::Some((c, ws)) => if now >= ws + 60 {
                Option::Some((1, now))
            } else {
                Option::Some((saturating_inc(c), ws))
            },
        }
    }
}

/// How many of the requests at the given times the limiter admits for one
/// client whose standing starts as `e`.
pub open spec fn allowed_count(max: int, e: Option<(int, int)>, times: Seq<int>) -> int
    decreases times.len(),
{
    if times.len() == 0 {
        0
    } else {
        (if request_allowed(max, e, times[0]) {
            1int
        } else {
            0int
        }) + allowed_count(max, state_after(max, e, times[0]), times.drop_first())
    }
}

/// Within one window, a client already counted `c` times is admitted at
/// most `max - c` more times, however many requests it sends.
pub proof fn lemma_window_quota_entry(max: int, c: int, w: int, times: Seq<int>)
    requires
        1 <= max,
        1 <= c,
        c + times.len() <= usize::MAX,
        forall|i: int| 0 <= i < times.len() ==> w <= #[trigger] times[i] < w + 60,
    ensures
        allowed_count(max, Option::Some((c, w)), times) <= if c <= max {
            max - c
        } else {
            0
        },
    decreases times.len(),
{
    if times.len() > 0 {
        let t = times[0];
        assert(w <= t < w + 60);
        let rest = times.drop_first();
        assert(forall|i: int| 0 <= i < rest.len() ==> w <= #[trigger] rest[i] < w + 60) by {
            assert(forall|i: int| 0 <= i < rest.len() ==> rest[i] == times[i + 1]);
        }
        lemma_window_quota_entry(max, c + 1, w, rest);
    }
}

/// At most `max` of a client's requests inside one sixty-second window
/// are admitted, counted from the client's first observed request, when
/// limiting is enabled.
pub proof fn lemma_window_quota(max: int, times: Seq<int>)
    requires
        1 <= max,
        1 <= times.len() <= usize::MAX,
        forall|i: int| 0 <= i < times.len() ==> times[0] <= #[trigger] times[i] < times[0] + 60,
    ensures
        allowed_count(max, Option::None, times) <= max,
{
    let t0 = times[0];
    let rest = times.drop_first();
    assert(forall|i: int| 0 <= i < rest.len() ==> t0 <= #[trigger] rest[i] < t0 + 60) by {
        assert(forall|i: int| 0 <= i < rest.len() ==> rest[i] == times[i + 1]);
    }
    if rest.len() > 0 {
        lemma_window_quota_entry(max, 1, t0, rest);
    }
}

/// Whether some stored key reads as `ip`.
pub open spec fn has_ip(ips: Seq<Vec<u8>>, ip: Seq<u8>) -> bool {
    exists|i: int| 0 <= i < ips.len() && ips[i]@ == ip
}

/// The slot whose stored key reads as `ip`.
pub open spec fn ip_slot(ips: Seq<Vec<u8>>, ip: Seq<u8>) -> int {
    choose|i: int| 0 <= i < ips.len() && ips[i]@ == ip
}

/// No two slots store the same key.
pub open spec fn unique_ips(ips: Seq<Vec<u8>>) -> bool {
    forall|i: int, j: int| 0 <= i < j < ips.len() ==> ips[i]@ != ips[j]@
}

proof fn lemma_slot_of(ips: Seq<Vec<u8>>, ip: Seq<u8>, i: int)
    requires
        unique_ips(ips),
        0 <= i < ips.len(),
        ips[i]@ == ip,
    ensures
        has_ip(ips, ip),
        ip_slot(ips, ip) == i,
{
    let j = ip_slot(ips, ip);
    if j != i {
        if j < i {
            assert(ips[j]@ != ips[i]@);
        } else {
            assert(ips[i]@ != ips[j]@);
        }
    }
}

/// Tracks, per client, how many requests arrived in the client's current
/// sixty-second window. Entries are never pruned; a stale window is reset
/// the next time its client shows up.
pub struct RateLimiter {
    max_per_minute: usize,
    ips: Vec<Vec<u8>>,
    counts: Vec<usize>,
    starts: Vec<u64>,
}

impl RateLimiter {
    /// One slot per client, no client twice.
    pub closed spec fn wf(self) -> bool {
        &&& self.counts@.len() == self.ips@.len()
        &&& self.starts@.len() == self.ips@.len()
        &&& unique_ips(self.ips@)
    }

    /// The configured limit; zero disables limiting.
    pub closed spec fn max_spec(self) -> int {
        self.max_per_minute as int
    }

    /// The standing of client `ip`: nothing, or its count and the second
    /// its current window began.
    pub closed spec fn client_state(self, ip: Seq<u8>) -> Option<(int, int)> {
        if has_ip(self.ips@, ip) {
            let i = ip_slot(self.ips@, ip);
            Option::Some((self.counts@[i] as int, self.starts@[i] as int))
        } else {
            Option::None
        }
    }

    /// A limiter that has seen nobody yet.
    pub fn new(max_per_minute: usize) -> (r: Self)
        ensures
            r.wf(),
            r.max_spec() == max_per_minute,
            forall|ip: Seq<u8>| r.client_state(ip) == Option::<(int, int)>::None,
    {
        RateLimiter { max_per_minute, ips: Vec::new(), counts: Vec::new(), starts: Vec::new() }
    }

    /// The configured limit.
    pub fn max_per_minute(&self) -> (r: usize)
        ensures
            r == self.max_spec(),
    {
        self.max_per_minute
    }

    /// Decides whether the request arriving at `now` (in seconds) from
    /// client `ip` is admitted, and records it. A denied request is
    /// counted as well, so it pushes the window's quota no further away.
    pub fn allow_request(&mut self, ip: &Vec<u8>, now: u64) -> (allow: bool)
        requires
            old(self).wf(),
        ensures
            final(self).wf(),
            final(self).max_spec() == old(self).max_spec(),
            allow == request_allowed(old(self).max_spec(), old(self).client_state(ip@), now as int),
            final(self).client_state(ip@) == state_after(
                old(self).max_spec(),
                old(self).client_state(ip@),
                now as int,
            ),
            forall|other: Seq<u8>|
                other != ip@ ==> final(self).client_state(other) == old(self).client_state(other),
    {
        if self.max_per_minute == 0 {
            return true;
        }
        let n = self.ips.len();
        let mut k: usize = 0;
        while k < n
            invariant
                0 <= k <= n,
                n == self.ips@.len(),
                self == old(self),
                self.wf(),
                self.max_spec() != 0,
                forall|i: int| 0 <= i < k ==> self.ips@[i]@ != ip@,
            decreases n - k,
        {
            if bytes_eq(&self.ips[k], ip) {
                proof {
                    lemma_slot_of(self.ips@, ip@, k as int);
                }
                let c = self.counts[k];
                let ws = self.starts[k];
                let rolled = now >= ws && now - ws >= 60;
                if rolled {
                    self.counts.set(k, 1);
                    self.starts.set(k, now);
                    proof {
                        self.lemma_same_keys_states(*old(self), ip@, k as int);
                    }
                    return true;
                } else {
                    let c2 = if c == usize::MAX {
                        c
                    } else {
                        c + 1
                    };
                    self.counts.set(k, c2);
                    proof {
                        self.lemma_same_keys_states(*old(self), ip@, k as int);
                    }
                    return c2 <= self.max_per_minute;
                }
            }
            k = k + 1;
        }
        let stored = copy_bytes(ip);
        self.ips.push(stored);
        self.counts.push(1);
        self.starts.push(now);
        proof {
            assert(unique_ips(self.ips@)) by {
                assert(forall|i: int|
                    0 <= i < old(self).ips@.len() ==> self.ips@[i] == old(self).ips@[i]);
                assert(self.ips@[old(self).ips@.len() as int]@ == ip@);
            }
            lemma_slot_of(self.ips@, ip@, old(self).ips@.len() as int);
            assert forall|other: Seq<u8>| other != ip@ implies self.client_state(other) == old(
                self,
            ).client_state(other) by {
                self.lemma_pushed_other(*old(self), ip@, other);
            }
        }
        true
    }

    /// After an in-place update of slot `i` (which stores `ip`), the
    /// updated limiter reports the stored values for `ip` and the old
    /// values for everyone else.
    proof fn lemma_same_keys_states(self, prev: Self, ip: Seq<u8>, i: int)
        requires
            prev.wf(),
            self.wf(),
            self.ips@ == prev.ips@,
            self.counts@.len() == prev.counts@.len(),
            self.starts@.len() == prev.starts@.len(),
            0 <= i < prev.ips@.len(),
            prev.ips@[i]@ == ip,
            forall|j: int| 0 <= j < prev.counts@.len() && j != i ==> self.counts@[j] == prev.counts@[j],
            forall|j: int| 0 <= j < prev.starts@.len() && j != i ==> self.starts@[j] == prev.starts@[j],
        ensures
            self.client_state(ip) == Option::Some(
                (self.counts@[i] as int, self.starts@[i] as int),
            ),
            forall|other: Seq<u8>|
                other != ip ==> self.client_state(other) == prev.client_state(other),
    {
        lemma_slot_of(self.ips@, ip, i);
        assert forall|other: Seq<u8>| other != ip implies self.client_state(other)
            == prev.client_state(other) by {
            if has_ip(prev.ips@, other) {
                let j = ip_slot(prev.ips@, other);
                lemma_slot_of(self.ips@, other, j);
                assert(j != i);
            }
        }
    }

    /// Pushing a new client leaves every other client's standing alone.
    proof fn lemma_pushed_other(self, prev: Self, ip: Seq<u8>, other: Seq<u8>)
        requires
            prev.wf(),
            self.wf(),
            other != ip,
            self.ips@.len() == prev.ips@.len() + 1,
            forall|i: int| 0 <= i < prev.ips@.len() ==> self.ips@[i] == prev.ips@[i],
            self.ips@[prev.ips@.len() as int]@ == ip,
            forall|i: int| 0 <= i < prev.counts@.len() ==> self.counts@[i] == prev.counts@[i],
            forall|i: int| 0 <= i < prev.starts@.len() ==> self.starts@[i] == prev.starts@[i],
            prev.counts@.len() == prev.ips@.len(),
            prev.starts@.len() == prev.ips@.len(),
        ensures
            self.client_state(other) == prev.client_state(other),
    {
        if has_ip(prev.ips@, other) {
            let j = ip_slot(prev.ips@, other);
            lemma_slot_of(self.ips@, other, j);
        } else {
            if has_ip(self.ips@, other) {
                let j = ip_slot(self.ips@, other);
                assert(j < prev.ips@.len() ==> prev.ips@[j]@ == other);
                assert(j == prev.ips@.len() ==> self.ips@[j]@ == ip);
            }
        }
    }
}

} // verus!
