//! Message routing engine: deduplication of inbound messages and the
//! counters behind the router's health report.

use vstd::prelude::*;
use dashmap::DashMap;
use std::time::Instant;
use crate::slack::SlackIdentity;
use crate::telegram::TelegramIdentity;

verus! {

/// Router configuration.
#[derive(Debug, Clone)]
pub struct RouterConfig {
    /// Telegram identities to connect.
    pub telegram: Vec<TelegramIdentity>,
    /// Slack identities to connect.
    pub slack: Vec<SlackIdentity>,
    /// Opencode server URL.
    pub opencode_url: String,
    /// Opencode auth token.
    pub opencode_token: Option<String>,
    /// Deduplication window in seconds.
    pub dedup_window_secs: u64,
}

impl Default for RouterConfig {
    fn default() -> (r: Self)
        ensures
            r.telegram@.len() == 0,
            r.slack@.len() == 0,
            r.opencode_url@ == "http://localhost:3000"@,
            r.opencode_token is None,
            r.dedup_window_secs == 30,
    {
        Self {
            telegram: Vec::new(),
            slack: Vec::new(),
            opencode_url: "http://localhost:3000".to_string(),
            opencode_token: None,
            dedup_window_secs: 30,
        }
    }
}

/// The message ids a seen-map holds, with the time each was first seen
/// (nanoseconds since the store was created).
pub uninterp spec fn seen_entries(m: DashMap<String, u128>) -> Map<Seq<char>, u128>;

/// Nanoseconds in a window of `secs` seconds.
pub open spec fn window_nanos(secs: u64) -> int {
    secs * 1_000_000_000
}

/// A message first seen at `seen` is still within the window at `now`;
/// the clock reading never runs backwards, so a later `seen` counts as age 0.
pub open spec fn is_recent(now: u128, seen: u128, window_secs: u64) -> bool {
    let age: int = if now >= seen { now - seen } else { 0 };
    age < window_nanos(window_secs)
}

/// The entries still within the window at `now`.
pub open spec fn recent_part(m: Map<Seq<char>, u128>, now: u128, window_secs: u64) -> Map<
    Seq<char>,
    u128,
> {
    Map::new(|k: Seq<char>| m.contains_key(k) && is_recent(now, m[k], window_secs), |k: Seq<char>| m[k])
}

/// What a duplicate check at `now` decides, and the entries it leaves:
/// expired entries are dropped; an id still present is a duplicate; any
/// other id is recorded as seen at `now`.
pub open spec fn dedup_check(m: Map<Seq<char>, u128>, id: Seq<char>, now: u128, window_secs: u64) -> (
    bool,
    Map<Seq<char>, u128>,
) {
    let kept = recent_part(m, now, window_secs);
    if kept.contains_key(id) {
        (true, kept)
    } else {
        (false, kept.insert(id, now))
    }
}

/// A message is not a duplicate the first time it is checked, and a
/// repeat within the window after it was let through is a duplicate.
pub proof fn law_repeat_within_window_is_duplicate(
    m: Map<Seq<char>, u128>,
    id: Seq<char>,
    t1: u128,
    t2: u128,
    window_secs: u64,
)
    requires
        !m.contains_key(id),
        t1 <= t2,
        t2 - t1 < window_nanos(window_secs),
    ensures
        !dedup_check(m, id, t1, window_secs).0,
        dedup_check(dedup_check(m, id, t1, window_secs).1, id, t2, window_secs).0,
{
    let after = dedup_check(m, id, t1, window_secs).1;
    assert(after.contains_key(id) && after[id] == t1);
    assert(recent_part(after, t2, window_secs).contains_key(id));
}

/// Once the window has passed since a message was let through, the same
/// message is let through again.
pub proof fn law_repeat_after_window_is_fresh(
    m: Map<Seq<char>, u128>,
    id: Seq<char>,
    t1: u128,
    t2: u128,
    window_secs: u64,
)
    requires
        !dedup_check(m, id, t1, window_secs).0,
        t1 <= t2,
        t2 - t1 >= window_nanos(window_secs),
    ensures
        !dedup_check(dedup_check(m, id, t1, window_secs).1, id, t2, window_secs).0,
{
    let after = dedup_check(m, id, t1, window_secs).1;
    assert(after[id] == t1);
    assert(!recent_part(after, t2, window_secs).contains_key(id));
}

/// Whether an entry seen at `seen` is still within the window at `now`.
pub fn is_fresh(now: u128, seen: u128, window_secs: u64) -> (r: bool)
    ensures
        r == is_recent(now, seen, window_secs),
{
    let age: u128 = if now >= seen { now - seen } else { 0 };
    age < (window_secs as u128) * 1_000_000_000
}

/// `DashMap::new` for the seen-map: an empty map.
#[verifier::external_body]
fn new_seen_map() -> (r: DashMap<String, u128>)
    ensures
        seen_entries(r).is_empty(),
{
    DashMap::new()
}

/// `DashMap::retain` on the seen-map, keeping the entries still within
/// the window.
#[verifier::external_body]
fn retain_recent(m: &mut DashMap<String, u128>, now: u128, window_secs: u64)
    ensures
        seen_entries(*final(m)) == recent_part(seen_entries(*old(m)), now, window_secs),
{
    m.retain(|_, seen| is_fresh(now, *seen, window_secs));
}

/// `DashMap::contains_key` on the seen-map.
#[verifier::external_body]
fn seen_contains(m: &DashMap<String, u128>, id: &str) -> (r: bool)
    ensures
        r == seen_entries(*m).contains_key(id@),
{
    m.contains_key(id)
}

/// `DashMap::insert` on the seen-map.
#[verifier::external_body]
fn record_seen(m: &mut DashMap<String, u128>, id: String, now: u128)
    ensures
        seen_entries(*final(m)) == seen_entries(*old(m)).insert(id@, now),
{
    m.insert(id, now);
}

/// `DashMap::len` on the seen-map.
#[verifier::external_body]
fn seen_len(m: &DashMap<String, u128>) -> (r: usize)
    ensures
        r == seen_entries(*m).len(),
{
    m.len()
}

/// `Instant::now`: a reading of the monotonic clock.
#[verifier::external_body]
fn instant_now() -> (r: Instant) {
    Instant::now()
}

/// `Instant::elapsed`, in nanoseconds.
#[verifier::external_body]
fn nanos_since(start: &Instant) -> (r: u128) {
    start.elapsed().as_nanos()
}

/// `Instant::elapsed`, in whole seconds.
#[verifier::external_body]
fn secs_since(start: &Instant) -> (r: u64) {
    start.elapsed().as_secs()
}

/// What one clock-reading duplicate check does: it reads the clock no
/// earlier than the last reading, decides at that reading as
/// [`dedup_check`] says, and keeps its window.
pub open spec fn dedup_call(before: DedupStore, after: DedupStore, id: Seq<char>, r: bool) -> bool {
    &&& after.last_reading() >= before.last_reading()
    &&& (r, after.entries()) == dedup_check(before.entries(), id, after.last_reading(), before.window())
    &&& after.window() == before.window()
}

/// Message deduplication store.
pub struct DedupStore {
    seen: DashMap<String, u128>,
    window_secs: u64,
    started: Instant,
    last: u128,
}

impl DedupStore {
    /// The ids held, with the time each was seen.
    pub closed spec fn entries(&self) -> Map<Seq<char>, u128> {
        seen_entries(self.seen)
    }

    /// The deduplication window, in seconds.
    pub closed spec fn window(&self) -> u64 {
        self.window_secs
    }

    /// The latest clock reading a check used (0 before any check).
    pub closed spec fn last_reading(&self) -> u128 {
        self.last
    }

    pub fn new(window_secs: u64) -> (r: Self)
        ensures
            r.entries().is_empty(),
            r.window() == window_secs,
            r.last_reading() == 0,
    {
        Self { seen: new_seen_map(), window_secs, started: instant_now(), last: 0 }
    }

    /// Check if a message ID has been seen within the window, at clock
    /// reading `now` (nanoseconds since the store was created). Returns true
    /// if this is a duplicate; otherwise the ID is recorded as seen at `now`.
    pub fn is_duplicate_at(&mut self, message_id: &str, now: u128) -> (r: bool)
        ensures
            (r, final(self).entries()) == dedup_check(
                old(self).entries(),
                message_id@,
                now,
                old(self).window(),
            ),
            final(self).window() == old(self).window(),
            final(self).last_reading() == (if now > old(self).last_reading() {
                now
            } else {
                old(self).last_reading()
            }),
    {
        if now > self.last {
            self.last = now;
        }
        retain_recent(&mut self.seen, now, self.window_secs);
        if seen_contains(&self.seen, message_id) {
            return true;
        }
        record_seen(&mut self.seen, message_id.to_string(), now);
        false
    }

    /// Check if a message ID has been seen recently, reading the clock.
    /// Returns true if this is a duplicate. The clock is monotonic, so a
    /// reading is never below the last one used; it is held to that.
    pub fn is_duplicate(&mut self, message_id: &str) -> (r: bool)
        ensures
            dedup_call(*old(self), *final(self), message_id@, r),
    {
        let reading = nanos_since(&self.started);
        let now = if reading < self.last {
            self.last
        } else {
            reading
        };
        self.is_duplicate_at(message_id, now)
    }

    /// The number of ids held.
    pub fn len(&self) -> (r: usize)
        ensures
            r == self.entries().len(),
    {
        seen_len(&self.seen)
    }
}

/// Router health snapshot.
#[derive(Debug, Clone)]
pub struct RouterHealth {
    pub uptime_secs: u64,
    pub messages_routed: u64,
    pub messages_dropped: u64,
    pub active_adapters: usize,
    pub dedup_store_size: usize,
}

/// A counter step: one more, wrapping at the top like an atomic counter.
pub open spec fn bump(n: u64) -> u64 {
    if n == u64::MAX { 0 } else { (n + 1) as u64 }
}

/// How one routing call moves the counters: a routed message bumps the
/// routed count, a dropped one the dropped count; the configuration stays.
pub open spec fn routing_step(before: RouterCore, after: RouterCore, routed: bool) -> bool {
    &&& routed ==> after.routed() == bump(before.routed()) && after.dropped() == before.dropped()
    &&& !routed ==> after.dropped() == bump(before.dropped()) && after.routed() == before.routed()
    &&& after.config() == before.config()
}

/// How many of `rs` hold.
pub open spec fn count_true(rs: Seq<bool>) -> nat
    decreases rs.len(),
{
    if rs.len() == 0 {
        0
    } else {
        count_true(rs.drop_last()) + if rs.last() {
            1nat
        } else {
            0nat
        }
    }
}

/// Core router engine.
pub struct RouterCore {
    config: RouterConfig,
    dedup: DedupStore,
    messages_routed: u64,
    messages_dropped: u64,
    started_at: Instant,
}

impl RouterCore {
    pub closed spec fn config(&self) -> RouterConfig {
        self.config
    }

    pub closed spec fn seen(&self) -> Map<Seq<char>, u128> {
        self.dedup.entries()
    }

    pub closed spec fn window(&self) -> u64 {
        self.dedup.window()
    }

    /// The latest clock reading a duplicate check used.
    pub closed spec fn last_reading(&self) -> u128 {
        self.dedup.last_reading()
    }

    pub closed spec fn routed(&self) -> u64 {
        self.messages_routed
    }

    pub closed spec fn dropped(&self) -> u64 {
        self.messages_dropped
    }

    /// The configured adapters can be counted in a `usize`.
    pub open spec fn adapters_countable(&self) -> bool {
        self.config().telegram@.len() + self.config().slack@.len() <= usize::MAX
    }

    pub fn new(config: RouterConfig) -> (r: Self)
        requires
            config.telegram@.len() + config.slack@.len() <= usize::MAX,
        ensures
            r.config() == config,
            r.seen().is_empty(),
            r.window() == config.dedup_window_secs,
            r.routed() == 0,
            r.dropped() == 0,
            r.adapters_countable(),
    {
        let dedup = DedupStore::new(config.dedup_window_secs);
        Self { config, dedup, messages_routed: 0, messages_dropped: 0, started_at: instant_now() }
    }

    /// Process an inbound message. Returns true if routed; a duplicate
    /// within the window is dropped. Exactly one of the two counters moves.
    pub fn route_message(&mut self, message_id: &str) -> (r: bool)
        ensures
            final(self).last_reading() >= old(self).last_reading(),
            (!r, final(self).seen()) == dedup_check(
                old(self).seen(),
                message_id@,
                final(self).last_reading(),
                old(self).window(),
            ),
            routing_step(*old(self), *final(self), r),
            final(self).window() == old(self).window(),
    {
        let dup = self.dedup.is_duplicate(message_id);
        if dup {
            self.messages_dropped = self.messages_dropped.wrapping_add(1);
            return false;
        }
        self.messages_routed = self.messages_routed.wrapping_add(1);
        true
    }

    /// Get router health.
    pub fn health(&self) -> (r: RouterHealth)
        requires
            self.adapters_countable(),
        ensures
            r.messages_routed == self.routed(),
            r.messages_dropped == self.dropped(),
            r.active_adapters == self.config().telegram@.len() + self.config().slack@.len(),
            r.dedup_store_size == self.seen().len(),
    {
        RouterHealth {
            uptime_secs: secs_since(&self.started_at),
            messages_routed: self.messages_routed,
            messages_dropped: self.messages_dropped,
            active_adapters: self.config.telegram.len() + self.config.slack.len(),
            dedup_store_size: self.dedup.len(),
        }
    }
}

proof fn lemma_count_true_bound(rs: Seq<bool>)
    ensures
        count_true(rs) <= rs.len(),
    decreases rs.len(),
{
    if rs.len() > 0 {
        lemma_count_true_bound(rs.drop_last());
    }
}

proof fn lemma_counters_prefix(cores: Seq<RouterCore>, results: Seq<bool>, k: int)
    requires
        cores.len() == results.len() + 1,
        results.len() < u64::MAX,
        cores[0].routed() == 0,
        cores[0].dropped() == 0,
        forall|i: int| 0 <= i < results.len() ==> routing_step(cores[i], cores[i + 1], #[trigger] results[i]),
        0 <= k <= results.len(),
    ensures
        cores[k].routed() == count_true(results.take(k)),
        cores[k].dropped() == k - count_true(results.take(k)),
        cores[k].config() == cores[0].config(),
    decreases k,
{
    if k > 0 {
        lemma_counters_prefix(cores, results, k - 1);
        assert(results.take(k).drop_last() =~= results.take(k - 1));
        assert(results.take(k).last() == results[k - 1]);
        lemma_count_true_bound(results.take(k - 1));
        assert(routing_step(cores[k - 1], cores[k], results[k - 1]));
    } else {
        assert(results.take(0) =~= Seq::<bool>::empty());
    }
}

/// Over a run of routing calls from a fresh router, the routed count is the
/// number of calls that routed and the dropped count the number that did
/// not (while neither count can wrap), and the configuration never changes.
pub proof fn law_counters_count_calls(cores: Seq<RouterCore>, results: Seq<bool>)
    requires
        cores.len() == results.len() + 1,
        results.len() < u64::MAX,
        cores[0].routed() == 0,
        cores[0].dropped() == 0,
        forall|i: int| 0 <= i < results.len() ==> routing_step(cores[i], cores[i + 1], #[trigger] results[i]),
    ensures
        cores.last().routed() == count_true(results),
        cores.last().dropped() == results.len() - count_true(results),
        cores.last().config() == cores[0].config(),
{
    lemma_counters_prefix(cores, results, results.len() as int);
    assert(results.take(results.len() as int) =~= results);
}

/// A history of duplicate checks on one store: `ms[i]` holds the entries
/// before check `i` (none before the first), check `i` asks about `ids[i]`
/// at clock reading `ts[i]` and answers `rs[i]`; readings never go back.
pub open spec fn dedup_history(
    ms: Seq<Map<Seq<char>, u128>>,
    ids: Seq<Seq<char>>,
    ts: Seq<u128>,
    rs: Seq<bool>,
    w: u64,
) -> bool {
    &&& ids.len() == ts.len()
    &&& ids.len() == rs.len()
    &&& ms.len() == ids.len() + 1
    &&& ms[0] == Map::<Seq<char>, u128>::empty()
    &&& forall|i: int|
        0 <= i < ids.len() ==> #[trigger] dedup_check(ms[i], ids[i], ts[i], w) == (rs[i], ms[i + 1])
    &&& forall|i: int, j: int| 0 <= i <= j < ts.len() ==> ts[i] <= ts[j]
}

/// What the entries before check `k` hold: each id held was let through by
/// an earlier check, at the time held, the latest such time; every id let
/// through earlier is held or had passed the window by the last check.
spec fn history_inv(
    ms: Seq<Map<Seq<char>, u128>>,
    ids: Seq<Seq<char>>,
    ts: Seq<u128>,
    rs: Seq<bool>,
    w: u64,
    k: int,
) -> bool {
    &&& forall|id: Seq<char>|
        #[trigger] ms[k].contains_key(id) ==> exists|kp: int|
            0 <= kp < k && !rs[kp] && #[trigger] ids[kp] == id && ms[k][id] == ts[kp]
    &&& forall|id: Seq<char>, kq: int|
        #![trigger ms[k].contains_key(id), ids[kq]]
        0 <= kq < k && !rs[kq] && ids[kq] == id && ms[k].contains_key(id) ==> ts[kq] <= ms[k][id]
    &&& forall|kp: int|
        0 <= kp < k && !rs[kp] ==> ms[k].contains_key(#[trigger] ids[kp]) || ts[k - 1] - ts[kp]
            >= window_nanos(w)
}

proof fn lemma_history_step(
    ms: Seq<Map<Seq<char>, u128>>,
    ids: Seq<Seq<char>>,
    ts: Seq<u128>,
    rs: Seq<bool>,
    w: u64,
    k: int,
)
    requires
        dedup_history(ms, ids, ts, rs, w),
        0 <= k < ids.len(),
        history_inv(ms, ids, ts, rs, w, k),
    ensures
        history_inv(ms, ids, ts, rs, w, k + 1),
        rs[k] <==> exists|kp: int|
            0 <= kp < k && #[trigger] ids[kp] == ids[k] && !rs[kp] && ts[k] - ts[kp] < window_nanos(w),
{
    let m = ms[k];
    let kept = recent_part(m, ts[k], w);
    assert(dedup_check(ms[k], ids[k], ts[k], w) == (rs[k], ms[k + 1]));
    let id0 = ids[k];
    assert(rs[k] == kept.contains_key(id0));
    assert(ms[k + 1] == if rs[k] { kept } else { kept.insert(id0, ts[k]) });
    let next = ms[k + 1];
    // the decision at k
    if rs[k] {
        assert(m.contains_key(id0));
        let kp = choose|kp: int| 0 <= kp < k && !rs[kp] && #[trigger] ids[kp] == id0 && m[id0] == ts[kp];
        assert(ts[kp] <= ts[k]);
        assert(0 <= kp < k && ids[kp] == ids[k] && !rs[kp] && ts[k] - ts[kp] < window_nanos(w));
    } else {
        assert forall|kp: int|
            0 <= kp < k && #[trigger] ids[kp] == ids[k] && !rs[kp] implies !(ts[k] - ts[kp] < window_nanos(
                w,
            )) by {
            if ts[k] - ts[kp] < window_nanos(w) {
                assert(ts[k - 1] <= ts[k]);
                assert(m.contains_key(ids[kp]));
                assert(ts[kp] <= m[id0]);
                assert(m.contains_key(id0));
                let kr = choose|kr: int| 0 <= kr < k && !rs[kr] && #[trigger] ids[kr] == id0 && m[id0] == ts[kr];
                assert(ts[kr] <= ts[k]);
                assert(kept.contains_key(id0));
            }
        }
    }
    // the invariant after k
    assert forall|id: Seq<char>| #[trigger] next.contains_key(id) implies exists|kp: int|
        0 <= kp < k + 1 && !rs[kp] && #[trigger] ids[kp] == id && next[id] == ts[kp] by {
        if !rs[k] && id == id0 {
            assert(ids[k] == id && next[id] == ts[k]);
        } else {
            assert(kept.contains_key(id));
            assert(m.contains_key(id));
            let kp = choose|kp: int| 0 <= kp < k && !rs[kp] && #[trigger] ids[kp] == id && m[id] == ts[kp];
            assert(ids[kp] == id && next[id] == ts[kp]);
        }
    }
    assert forall|id: Seq<char>, kq: int|
        #![trigger next.contains_key(id), ids[kq]]
        0 <= kq < k + 1 && !rs[kq] && ids[kq] == id && next.contains_key(id) implies ts[kq] <= next[id] by {
        if !rs[k] && id == id0 {
            assert(ts[kq] <= ts[k]);
        } else {
            assert(kq != k);
            assert(kept.contains_key(id));
            assert(m.contains_key(id));
        }
    }
    assert forall|kp: int| 0 <= kp < k + 1 && !rs[kp] implies next.contains_key(#[trigger] ids[kp])
        || ts[k] - ts[kp] >= window_nanos(w) by {
        if kp == k {
        } else {
            let id = ids[kp];
            if m.contains_key(id) {
                assert(ts[kp] <= m[id]);
                if !kept.contains_key(id) {
                    let kr = choose|kr: int| 0 <= kr < k && !rs[kr] && #[trigger] ids[kr] == id && m[id] == ts[kr];
                    assert(ts[kr] <= ts[k]);
                }
            } else {
                assert(ts[k - 1] <= ts[k]);
            }
        }
    }
}

proof fn lemma_history_prefix(
    ms: Seq<Map<Seq<char>, u128>>,
    ids: Seq<Seq<char>>,
    ts: Seq<u128>,
    rs: Seq<bool>,
    w: u64,
    k: int,
)
    requires
        dedup_history(ms, ids, ts, rs, w),
        0 <= k <= ids.len(),
    ensures
        history_inv(ms, ids, ts, rs, w, k),
    decreases k,
{
    if k > 0 {
        lemma_history_prefix(ms, ids, ts, rs, w, k - 1);
        lemma_history_step(ms, ids, ts, rs, w, k - 1);
    }
}

/// Over any history of checks at readings that never go back, a check
/// reports a duplicate exactly when an earlier check of the same id let it
/// through less than the window before; a duplicate does not restart the
/// window.
pub proof fn law_dedup_over_history(
    ms: Seq<Map<Seq<char>, u128>>,
    ids: Seq<Seq<char>>,
    ts: Seq<u128>,
    rs: Seq<bool>,
    w: u64,
)
    requires
        dedup_history(ms, ids, ts, rs, w),
    ensures
        forall|k: int|
            0 <= k < rs.len() ==> (#[trigger] rs[k] <==> exists|kp: int|
                0 <= kp < k && #[trigger] ids[kp] == ids[k] && !rs[kp] && ts[k] - ts[kp] < window_nanos(w)),
{
    assert forall|k: int| 0 <= k < rs.len() implies (#[trigger] rs[k] <==> exists|kp: int|
        0 <= kp < k && #[trigger] ids[kp] == ids[k] && !rs[kp] && ts[k] - ts[kp] < window_nanos(w)) by {
        lemma_history_prefix(ms, ids, ts, rs, w, k);
        lemma_history_step(ms, ids, ts, rs, w, k);
    }
}

/// Successive clock-reading checks on a fresh store: check `k` asks about
/// `ids[k]` and answers `rs[k]`, taking the store from `stores[k]` to
/// `stores[k + 1]`.
pub open spec fn dedup_calls(stores: Seq<DedupStore>, ids: Seq<Seq<char>>, rs: Seq<bool>) -> bool {
    &&& stores.len() == ids.len() + 1
    &&& rs.len() == ids.len()
    &&& stores[0].entries() == Map::<Seq<char>, u128>::empty()
    &&& forall|i: int| 0 <= i < ids.len() ==> dedup_call(stores[i], stores[i + 1], #[trigger] ids[i], rs[i])
}

proof fn lemma_dedup_calls_steady(stores: Seq<DedupStore>, ids: Seq<Seq<char>>, rs: Seq<bool>, k: int)
    requires
        dedup_calls(stores, ids, rs),
        0 <= k <= ids.len(),
    ensures
        stores[k].window() == stores[0].window(),
        forall|i: int| 0 <= i <= k ==> stores[i].last_reading() <= stores[k].last_reading(),
    decreases k,
{
    if k > 0 {
        lemma_dedup_calls_steady(stores, ids, rs, k - 1);
        assert(dedup_call(stores[k - 1], stores[k], ids[k - 1], rs[k - 1]));
    }
}

/// Over successive clock-reading checks on a fresh store, a check reports a
/// duplicate exactly when an earlier check of the same id let it through
/// less than the window before (by the readings the checks used); a
/// duplicate does not restart the window, and with a window of zero nothing
/// is a duplicate.
pub proof fn law_dedup_successive_calls(stores: Seq<DedupStore>, ids: Seq<Seq<char>>, rs: Seq<bool>)
    requires
        dedup_calls(stores, ids, rs),
    ensures
        forall|k: int|
            0 <= k < rs.len() ==> (#[trigger] rs[k] <==> exists|kp: int|
                0 <= kp < k && #[trigger] ids[kp] == ids[k] && !rs[kp] && stores[k + 1].last_reading()
                    - stores[kp + 1].last_reading() < window_nanos(stores[0].window())),
{
    let n = ids.len() as int;
    let w = stores[0].window();
    let ms = Seq::new((n + 1) as nat, |i: int| stores[i].entries());
    let ts = Seq::new(n as nat, |i: int| stores[i + 1].last_reading());
    assert forall|i: int| 0 <= i < n implies #[trigger] dedup_check(ms[i], ids[i], ts[i], w) == (
    rs[i], ms[i + 1]) by {
        lemma_dedup_calls_steady(stores, ids, rs, i);
        assert(dedup_call(stores[i], stores[i + 1], ids[i], rs[i]));
    }
    assert forall|i: int, j: int| 0 <= i <= j < ts.len() implies ts[i] <= ts[j] by {
        lemma_dedup_calls_steady(stores, ids, rs, j + 1);
    }
    assert(ms[0] == Map::<Seq<char>, u128>::empty());
    assert(dedup_history(ms, ids, ts, rs, w));
    law_dedup_over_history(ms, ids, ts, rs, w);
    assert forall|k: int| 0 <= k < rs.len() implies (#[trigger] rs[k] <==> exists|kp: int|
        0 <= kp < k && #[trigger] ids[kp] == ids[k] && !rs[kp] && stores[k + 1].last_reading()
            - stores[kp + 1].last_reading() < window_nanos(stores[0].window())) by {
        if rs[k] {
            let kp = choose|kp: int|
                0 <= kp < k && #[trigger] ids[kp] == ids[k] && !rs[kp] && ts[k] - ts[kp] < window_nanos(w);
            assert(ts[kp] == stores[kp + 1].last_reading());
        } else {
            assert forall|kp: int|
                0 <= kp < k && #[trigger] ids[kp] == ids[k] && !rs[kp] implies !(stores[k + 1].last_reading()
                - stores[kp + 1].last_reading() < window_nanos(stores[0].window())) by {
                assert(ts[kp] == stores[kp + 1].last_reading());
            }
        }
    }
}

} // verus!
