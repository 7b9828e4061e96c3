use vstd::prelude::*;
use crate::middleware::MiddlewareError;
use crate::text;

verus! {

// ---------------------------------------------------------------------------
// Sliding-window model
// ---------------------------------------------------------------------------

/// How long ago `t` was, seen from `now`; a timestamp in the future counts
/// as age zero (the saturating behaviour of the clock arithmetic).
pub open spec fn age_of(now: u64, t: u64) -> int {
    if t >= now {
        0
    } else {
        now - t
    }
}

pub open spec fn in_window(now: u64, t: u64, window_ms: u64) -> bool {
    age_of(now, t) < window_ms
}

/// The timestamps of `times[i..]` still inside the trailing window, in order.
pub open spec fn kept_from(times: Seq<u64>, now: u64, window_ms: u64, i: int) -> Seq<u64>
    decreases times.len() - i,
    when 0 <= i <= times.len()
{
    if i >= times.len() {
        Seq::empty()
    } else if in_window(now, times[i], window_ms) {
        seq![times[i]] + kept_from(times, now, window_ms, i + 1)
    } else {
        kept_from(times, now, window_ms, i + 1)
    }
}

/// The timestamps still inside the trailing window, in order.
pub open spec fn kept(times: Seq<u64>, now: u64, window_ms: u64) -> Seq<u64> {
    kept_from(times, now, window_ms, 0)
}

pub proof fn lemma_kept_in_window(times: Seq<u64>, now: u64, window_ms: u64, i: int)
    requires
        0 <= i <= times.len(),
    ensures
        forall|k: int|
            0 <= k < kept_from(times, now, window_ms, i).len() ==> in_window(
                now,
                kept_from(times, now, window_ms, i)[k],
                window_ms,
            ),
    decreases times.len() - i,
{
    if i >= times.len() {
    } else {
        lemma_kept_in_window(times, now, window_ms, i + 1);
        let cur = kept_from(times, now, window_ms, i);
        let rest = kept_from(times, now, window_ms, i + 1);
        assert forall|k: int| 0 <= k < cur.len() implies in_window(now, cur[k], window_ms) by {
            if in_window(now, times[i], window_ms) {
                if k > 0 {
                    assert(cur[k] == rest[k - 1]);
                }
            } else {
                assert(cur[k] == rest[k]);
            }
        }
    }
}

proof fn lemma_kept_of_all_in_window(times: Seq<u64>, now: u64, window_ms: u64, i: int)
    requires
        0 <= i <= times.len(),
        forall|k: int| 0 <= k < times.len() ==> in_window(now, times[k], window_ms),
    ensures
        kept_from(times, now, window_ms, i) == times.subrange(i, times.len() as int),
    decreases times.len() - i,
{
    if i >= times.len() {
        assert(times.subrange(i, times.len() as int) =~= Seq::<u64>::empty());
    } else {
        lemma_kept_of_all_in_window(times, now, window_ms, i + 1);
        assert(seq![times[i]] + times.subrange(i + 1, times.len() as int) =~= times.subrange(
            i,
            times.len() as int,
        ));
    }
}

// ---------------------------------------------------------------------------
// Keyed table of request timestamps
// ---------------------------------------------------------------------------

/// One actor's recorded request timestamps.
pub struct RateEntry {
    pub key: String,
    pub times: Vec<u64>,
}

/// The table seen abstractly: `(key, timestamps)` pairs, one per actor.
pub open spec fn entry_views(s: Seq<RateEntry>) -> Seq<(Seq<char>, Seq<u64>)> {
    s.map_values(|e: RateEntry| (e.key@, e.times@))
}

pub open spec fn unique_keys(t: Seq<(Seq<char>, Seq<u64>)>) -> bool {
    forall|i: int, j: int| 0 <= i < j < t.len() ==> t[i].0 != t[j].0
}

/// The timestamps stored for `key`, empty when the key is unknown.
pub open spec fn times_of(t: Seq<(Seq<char>, Seq<u64>)>, key: Seq<char>) -> Seq<u64>
    decreases t.len(),
{
    if t.len() == 0 {
        Seq::empty()
    } else if t[0].0 == key {
        t[0].1
    } else {
        times_of(t.drop_first(), key)
    }
}

/// Storing under a key: replaces the entry with that key in place, else
/// appends at the end.
pub open spec fn store_spec(
    t: Seq<(Seq<char>, Seq<u64>)>,
    key: Seq<char>,
    times: Seq<u64>,
) -> Seq<(Seq<char>, Seq<u64>)>
    decreases t.len(),
{
    if t.len() == 0 {
        seq![(key, times)]
    } else if t[0].0 == key {
        seq![(key, times)] + t.drop_first()
    } else {
        seq![t[0]] + store_spec(t.drop_first(), key, times)
    }
}

pub(crate) proof fn lemma_store_replaces(t: Seq<(Seq<char>, Seq<u64>)>, key: Seq<char>, times: Seq<u64>, i: int)
    requires
        0 <= i < t.len(),
        t[i].0 == key,
        forall|m: int| 0 <= m < i ==> t[m].0 != key,
    ensures
        store_spec(t, key, times) == t.update(i, (key, times)),
    decreases t.len(),
{
    if i == 0 {
        assert(seq![(key, times)] + t.drop_first() =~= t.update(0, (key, times)));
    } else {
        let u = t.drop_first();
        assert(forall|m: int| 0 <= m < i - 1 ==> u[m] == t[m + 1]);
        assert(u[i - 1] == t[i]);
        lemma_store_replaces(u, key, times, i - 1);
        assert(seq![t[0]] + u.update(i - 1, (key, times)) =~= t.update(i, (key, times)));
    }
}

pub(crate) proof fn lemma_store_appends(t: Seq<(Seq<char>, Seq<u64>)>, key: Seq<char>, times: Seq<u64>)
    requires
        forall|m: int| 0 <= m < t.len() ==> t[m].0 != key,
    ensures
        store_spec(t, key, times) == t.push((key, times)),
    decreases t.len(),
{
    if t.len() == 0 {
        assert(seq![(key, times)] =~= t.push((key, times)));
    } else {
        let u = t.drop_first();
        assert(forall|m: int| 0 <= m < u.len() ==> u[m] == t[m + 1]);
        lemma_store_appends(u, key, times);
        assert(seq![t[0]] + u.push((key, times)) =~= t.push((key, times)));
    }
}

pub(crate) proof fn lemma_store_unique(t: Seq<(Seq<char>, Seq<u64>)>, key: Seq<char>, times: Seq<u64>)
    requires
        unique_keys(t),
    ensures
        unique_keys(store_spec(t, key, times)),
    decreases t.len(),
{
    if t.len() == 0 {
    } else if t[0].0 == key {
        let t2 = seq![(key, times)] + t.drop_first();
        assert(forall|j: int| 1 <= j < t2.len() ==> t2[j] == t[j]);
    } else {
        let u = t.drop_first();
        assert(forall|m: int, j: int| 0 <= m < j < u.len() ==> u[m].0 != u[j].0);
        lemma_store_unique(u, key, times);
        let u2 = store_spec(u, key, times);
        let t2 = seq![t[0]] + u2;
        assert(forall|j: int| 1 <= j < t2.len() ==> t2[j] == u2[j - 1]);
        assert forall|m: int, j: int| 0 <= m < j < t2.len() implies t2[m].0 != t2[j].0 by {
            if m == 0 {
                lemma_store_keeps_keys(u, key, times, j - 1);
            }
        }
    }
}

proof fn lemma_store_keeps_keys(
    t: Seq<(Seq<char>, Seq<u64>)>,
    key: Seq<char>,
    times: Seq<u64>,
    j: int,
)
    requires
        0 <= j < store_spec(t, key, times).len(),
    ensures
        store_spec(t, key, times)[j].0 == key || exists|m: int|
            0 <= m < t.len() && t[m].0 == store_spec(t, key, times)[j].0,
    decreases t.len(),
{
    if t.len() == 0 {
    } else if t[0].0 == key {
        if j > 0 {
            assert(store_spec(t, key, times)[j] == t[j]);
        }
    } else {
        if j == 0 {
            assert(store_spec(t, key, times)[0] == t[0]);
        } else {
            let u = t.drop_first();
            lemma_store_keeps_keys(u, key, times, j - 1);
            assert(store_spec(t, key, times)[j] == store_spec(u, key, times)[j - 1]);
            if exists|m: int|
                0 <= m < u.len() && u[m].0 == store_spec(u, key, times)[j - 1].0 {
                let m = choose|m: int|
                    0 <= m < u.len() && u[m].0 == store_spec(u, key, times)[j - 1].0;
                assert(t[m + 1].0 == store_spec(t, key, times)[j].0);
            }
        }
    }
}

// ---------------------------------------------------------------------------
// The middleware
// ---------------------------------------------------------------------------

/// Sliding-window rate limiter: at most `max_requests` requests per actor
/// key within any trailing window of `window_ms` milliseconds. The caller
/// serializes access (one `&mut` borrow at a time).
pub struct RateLimitMiddleware {
    entries: Vec<RateEntry>,
    max_requests: u32,
    window_ms: u64,
}

impl RateLimitMiddleware {
    pub closed spec fn table(&self) -> Seq<(Seq<char>, Seq<u64>)> {
        entry_views(self.entries@)
    }

    pub closed spec fn max_spec(&self) -> u32 {
        self.max_requests
    }

    pub closed spec fn window_spec(&self) -> u64 {
        self.window_ms
    }

    pub open spec fn wf(&self) -> bool {
        unique_keys(self.table())
    }

    /// The timestamps currently stored for `key`.
    pub open spec fn times_spec(&self, key: Seq<char>) -> Seq<u64> {
        times_of(self.table(), key)
    }

    /// Would a check for `key` at `now` be allowed?
    pub open spec fn would_allow(&self, key: Seq<char>, now: u64) -> bool {
        kept(self.times_spec(key), now, self.window_spec()).len() < self.max_spec()
    }

    /// The wait announced on rejection: the window minus the age of the
    /// oldest surviving timestamp, or the full window if none survives.
    pub open spec fn retry_spec(&self, key: Seq<char>, now: u64) -> u64 {
        let p = kept(self.times_spec(key), now, self.window_spec());
        if p.len() == 0 {
            self.window_spec()
        } else {
            (self.window_spec() - age_of(now, p[0])) as u64
        }
    }

    pub fn new(max_requests: u32, window_secs: u64) -> (r: RateLimitMiddleware)
        requires
            window_secs <= 0xffff_ffff,
        ensures
            r.table() == Seq::<(Seq<char>, Seq<u64>)>::empty(),
            r.max_spec() == max_requests,
            r.window_spec() == window_secs * 1000,
            r.wf(),
    {
        let r = RateLimitMiddleware {
            entries: Vec::new(),
            max_requests,
            window_ms: window_secs * 1000,
        };
        proof {
            assert(r.table() =~= Seq::<(Seq<char>, Seq<u64>)>::empty());
        }
        r
    }

    /// Prune `key`'s timestamps to the trailing window; allow and record
    /// `now` when fewer than `max_requests` survive, else reject with the
    /// time to wait. A rejected request records nothing.
    pub fn check_rate_limit(&mut self, key: &str, now: u64) -> (r: Result<(), MiddlewareError>)
        requires
            old(self).wf(),
        ensures
            final(self).wf(),
            final(self).max_spec() == old(self).max_spec(),
            final(self).window_spec() == old(self).window_spec(),
            old(self).would_allow(key@, now) ==> r is Ok && final(self).table() == store_spec(
                old(self).table(),
                key@,
                kept(old(self).times_spec(key@), now, old(self).window_spec()).push(now),
            ),
            !old(self).would_allow(key@, now) ==> (r matches Err(
                MiddlewareError::RateLimited { retry_after_ms },
            ) && retry_after_ms == old(self).retry_spec(key@, now)) && final(self).table()
                == store_spec(
                old(self).table(),
                key@,
                kept(old(self).times_spec(key@), now, old(self).window_spec()),
            ),
            r is Ok ==> kept(
                final(self).times_spec(key@),
                now,
                final(self).window_spec(),
            ).len() <= final(self).max_spec(),
    {
        let idx_opt = self.find_key(key);
        let found = match idx_opt {
            Some(_) => true,
            None => false,
        };
        let idx: usize = match idx_opt {
            Some(i) => i,
            None => 0,
        };
        let ghost t0 = self.table();
        let ghost old_times = old(self).times_spec(key@);
        proof {
            if found {
                lemma_times_at(t0, key@, idx as int);
            } else {
                lemma_times_missing(t0, key@);
            }
        }
        let stored: Vec<u64> = if found {
            self.prune(idx, now)
        } else {
            Vec::new()
        };
        proof {
            if !found {
                assert(old_times =~= Seq::<u64>::empty());
                assert(kept(old_times, now, self.window_ms) =~= stored@);
            }
        }
        let pruned_len: usize = stored.len();
        if pruned_len < self.max_requests as usize {
            let mut new_times = stored;
            new_times.push(now);
            let ghost final_times = new_times@;
            self.write_entry(found, idx, key, new_times);
            proof {
                lemma_times_stored(old(self).table(), key@, final_times);
                if self.window_ms == 0 {
                    lemma_kept_empty_window(final_times, now, 0);
                } else {
                    lemma_kept_in_window(old_times, now, self.window_ms, 0);
                    let pruned = kept(old_times, now, self.window_ms);
                    assert(forall|k: int|
                        0 <= k < final_times.len() ==> in_window(
                            now,
                            final_times[k],
                            self.window_ms,
                        )) by {
                        assert(forall|k: int|
                            0 <= k < pruned.len() ==> final_times[k] == pruned[k]);
                        assert(final_times[final_times.len() - 1] == now);
                        assert(in_window(now, now, self.window_ms));
                    }
                    lemma_kept_of_all_in_window(final_times, now, self.window_ms, 0);
                    assert(final_times.subrange(0, final_times.len() as int) =~= final_times);
                }
            }
            Ok(())
        } else {
            let retry: u64 = if pruned_len > 0 {
                let oldest: u64 = stored[0];
                proof {
                    lemma_kept_in_window(old_times, now, self.window_ms, 0);
                }
                let age: u64 = if oldest >= now {
                    0
                } else {
                    now - oldest
                };
                self.window_ms - age
            } else {
                self.window_ms
            };
            self.write_entry(found, idx, key, stored);
            Err(MiddlewareError::RateLimited { retry_after_ms: retry })
        }
    }

    /// Index of `key`'s entry, if present.
    fn find_key(&self, key: &str) -> (r: Option<usize>)
        ensures
            match r {
                Some(i) => i < self.table().len() && self.table()[i as int].0 == key@ && forall|
                    m: int,
                |
                    0 <= m < i ==> self.table()[m].0 != key@,
                None => forall|m: int| 0 <= m < self.table().len() ==> self.table()[m].0 != key@,
            },
    {
        let n: usize = self.entries.len();
        let kv = text::chars_of(key);
        let mut idx: usize = 0;
        while idx < n
            invariant
                idx <= n,
                n == self.entries@.len(),
                kv@ == key@,
                forall|m: int| 0 <= m < idx ==> entry_views(self.entries@)[m].0 != key@,
            decreases n - idx,
        {
            let ev = text::chars_of(self.entries[idx].key.as_str());
            if text::eq_chars(&ev, &kv) {
                return Some(idx);
            }
            idx = idx + 1;
        }
        None
    }

    /// Prune entry `idx`'s timestamps to the window and return them.
    fn prune(&self, idx: usize, now: u64) -> (r: Vec<u64>)
        requires
            idx < self.entries@.len(),
        ensures
            r@ == kept(self.entries@[idx as int].times@, now, self.window_spec()),
    {
        let times = &self.entries[idx].times;
        let n: usize = times.len();
        let mut acc: Vec<u64> = Vec::new();
        let mut i: usize = 0;
        while i < n
            invariant
                i <= n,
                n == times@.len(),
                kept(times@, now, self.window_ms) == acc@ + kept_from(
                    times@,
                    now,
                    self.window_ms,
                    i as int,
                ),
            decreases n - i,
        {
            let t = times[i];
            let age: u64 = if t >= now {
                0
            } else {
                now - t
            };
            if age < self.window_ms {
                let ghost prev = acc@;
                acc.push(t);
                proof {
                    assert(prev + (seq![times@[i as int]] + kept_from(
                        times@,
                        now,
                        self.window_ms,
                        i + 1,
                    )) =~= acc@ + kept_from(times@, now, self.window_ms, i + 1));
                }
            }
            i = i + 1;
        }
        proof {
            assert(acc@ + kept_from(times@, now, self.window_ms, n as int) =~= acc@);
        }
        acc
    }

    /// Write `times` back under `key`: in place at `idx` when the key was
    /// found there, else as a new entry at the end.
    fn write_entry(&mut self, found: bool, idx: usize, key: &str, times: Vec<u64>)
        requires
            old(self).wf(),
            found ==> idx < old(self).entries@.len() && old(self).table()[idx as int].0 == key@
                && forall|m: int| 0 <= m < idx ==> old(self).table()[m].0 != key@,
            !found ==> forall|m: int| 0 <= m < old(self).table().len() ==> old(self).table()[m].0
                != key@,
        ensures
            final(self).wf(),
            final(self).table() == store_spec(old(self).table(), key@, times@),
            final(self).max_spec() == old(self).max_spec(),
            final(self).window_spec() == old(self).window_spec(),
    {
        proof {
            lemma_store_unique(self.table(), key@, times@);
        }
        if found {
            proof {
                lemma_store_replaces(self.table(), key@, times@, idx as int);
            }
            self.entries[idx] = RateEntry { key: String::from_str(key), times };
            proof {
                assert(self.table() =~= store_spec(old(self).table(), key@, times@));
            }
        } else {
            proof {
                lemma_store_appends(self.table(), key@, times@);
            }
            self.entries.push(RateEntry { key: String::from_str(key), times });
            proof {
                assert(self.table() =~= store_spec(old(self).table(), key@, times@));
            }
        }
    }
}

/// With a zero-length window nothing survives pruning.
proof fn lemma_kept_empty_window(times: Seq<u64>, now: u64, i: int)
    requires
        0 <= i <= times.len(),
    ensures
        kept_from(times, now, 0, i) == Seq::<u64>::empty(),
    decreases times.len() - i,
{
    if i >= times.len() {
    } else {
        lemma_kept_empty_window(times, now, i + 1);
    }
}

/// After storing, the stored times are what lookup finds for the key.
proof fn lemma_times_stored(t: Seq<(Seq<char>, Seq<u64>)>, key: Seq<char>, times: Seq<u64>)
    ensures
        times_of(store_spec(t, key, times), key) == times,
    decreases t.len(),
{
    if t.len() == 0 {
        let t2 = store_spec(t, key, times);
        assert(t2[0] == (key, times));
    } else if t[0].0 == key {
        let t2 = store_spec(t, key, times);
        assert(t2[0] == (key, times));
    } else {
        lemma_times_stored(t.drop_first(), key, times);
        let t2 = store_spec(t, key, times);
        assert(t2[0] == t[0]);
        assert(t2.drop_first() =~= store_spec(t.drop_first(), key, times));
    }
}

/// At index `idx` with no earlier match, the stored times are `times_of`.
pub(crate) proof fn lemma_times_at(t: Seq<(Seq<char>, Seq<u64>)>, key: Seq<char>, idx: int)
    requires
        0 <= idx < t.len(),
        t[idx].0 == key,
        forall|m: int| 0 <= m < idx ==> t[m].0 != key,
    ensures
        times_of(t, key) == t[idx].1,
    decreases t.len(),
{
    if idx == 0 {
    } else {
        let u = t.drop_first();
        assert(forall|m: int| 0 <= m < idx - 1 ==> u[m] == t[m + 1]);
        assert(u[idx - 1] == t[idx]);
        lemma_times_at(u, key, idx - 1);
    }
}

/// A key matching no entry has no stored times.
pub(crate) proof fn lemma_times_missing(t: Seq<(Seq<char>, Seq<u64>)>, key: Seq<char>)
    requires
        forall|m: int| 0 <= m < t.len() ==> t[m].0 != key,
    ensures
        times_of(t, key) == Seq::<u64>::empty(),
    decreases t.len(),
{
    if t.len() == 0 {
    } else {
        let u = t.drop_first();
        assert(forall|m: int| 0 <= m < u.len() ==> u[m] == t[m + 1]);
        lemma_times_missing(u, key);
    }
}

} // verus!
