//! A limit on failed logins per source address, with bounded memory.
//!
//! Times are milliseconds of a monotonic clock.

use vstd::prelude::*;

use crate::assoc::{
    as_map, empty_is_empty, has_key, lookup, position, push_is_insert, same_size,
    swap_remove_is_remove, unique, update_is_insert,
};
use crate::net::IpAddr;

verus! {

/// When a source is locked out, and how many are remembered.
#[derive(Debug, Clone, Copy, PartialEq, Eq, Structural)]
pub struct RateLimitPolicy {
    /// How many failures within the window lead to a lockout.
    pub max_failures: u32,
    /// How long a failure counts.
    pub window: u64,
    /// How long a lockout lasts.
    pub lockout: u64,
    /// How many sources are remembered. Beyond that the ones that would be
    /// forgotten first are forgotten at once.
    pub max_tracked: usize,
}

impl Default for RateLimitPolicy {
    fn default() -> (r: RateLimitPolicy)
        ensures
            r == (RateLimitPolicy {
                max_failures: 5,
                window: 60_000,
                lockout: 60_000,
                max_tracked: 100_000,
            }),
    {
        RateLimitPolicy { max_failures: 5, window: 60_000, lockout: 60_000, max_tracked: 100_000 }
    }
}

/// What is remembered of a source.
#[derive(Debug)]
pub struct Bucket {
    /// When it failed, within the window.
    pub failures: Vec<u64>,
    /// Until when it is locked out.
    pub locked_until: Option<u64>,
}

/// What a [`Bucket`] holds.
pub struct BucketView {
    pub failures: Seq<u64>,
    pub locked_until: Option<u64>,
}

impl View for Bucket {
    type V = BucketView;

    open spec fn view(&self) -> BucketView {
        BucketView { failures: self.failures@, locked_until: self.locked_until }
    }
}

/// Whether a failure still counts.
pub open spec fn recent(t: u64, now: u64, window: u64) -> bool {
    now - t < window && (now >= t || window > 0)
}

/// The latest of some times.
pub open spec fn latest(times: Seq<u64>) -> Option<u64>
    decreases times.len(),
{
    if times.len() == 0 {
        None
    } else {
        match latest(times.drop_last()) {
            None => Some(times.last()),
            Some(t) => Some(if t > times.last() {
                t
            } else {
                times.last()
            }),
        }
    }
}

/// The sum of two times, at most the largest that there is.
pub open spec fn later(t: u64, by: u64) -> u64 {
    if t + by > u64::MAX {
        u64::MAX
    } else {
        (t + by) as u64
    }
}

impl BucketView {
    /// Whether the source is neither locked out nor has a failure that counts,
    /// so that it may be forgotten.
    pub open spec fn is_dead(self, now: u64, window: u64) -> bool {
        &&& !(self.locked_until matches Some(until) && now < until)
        &&& forall|i: int|
            0 <= i < self.failures.len() ==> !recent(#[trigger] self.failures[i], now, window)
    }

    /// When the source may be forgotten.
    pub open spec fn expires_at(self, now: u64, window: u64) -> int {
        match (self.locked_until, latest(self.failures)) {
            (Some(a), Some(b)) => if a > b + window {
                a as int
            } else {
                b + window
            },
            (Some(a), None) => a as int,
            (None, Some(b)) => b + window,
            (None, None) => now as int,
        }
    }

    /// What is remembered after one more failure: the failures that still count
    /// and this one, and a lockout where they are too many.
    pub open spec fn failed(self, now: u64, policy: RateLimitPolicy) -> BucketView {
        let failures = self.failures.filter(|t: u64| recent(t, now, policy.window)).push(now);
        BucketView {
            failures,
            locked_until: if failures.len() >= policy.max_failures {
                Some(later(now, policy.lockout))
            } else {
                self.locked_until
            },
        }
    }
}

/// A source of which nothing is remembered.
pub open spec fn blank() -> BucketView {
    BucketView { failures: Seq::empty(), locked_until: None }
}

fn is_recent(t: u64, now: u64, window: u64) -> (r: bool)
    ensures
        r == recent(t, now, window),
{
    now.saturating_sub(t) < window
}

impl Bucket {
    /// Whether nothing in the bucket is worth keeping.
    pub fn is_dead(&self, now: u64, window: u64) -> (r: bool)
        ensures
            r == self@.is_dead(now, window),
    {
        if let Some(until) = self.locked_until {
            if now < until {
                return false;
            }
        }
        let mut i: usize = 0;
        while i < self.failures.len()
            invariant
                i <= self.failures.len(),
                forall|k: int|
                    0 <= k < i ==> !recent(#[trigger] self.failures@[k], now, window),
            decreases self.failures.len() - i,
        {
            if is_recent(self.failures[i], now, window) {
                assert(recent(self@.failures[i as int], now, window));
                return false;
            }
            i = i + 1;
        }
        true
    }

    /// When the bucket may be forgotten.
    pub fn expires_at(&self, now: u64, window: u64) -> (r: u128)
        ensures
            r == self@.expires_at(now, window),
    {
        let mut last: Option<u64> = None;
        let mut i: usize = 0;
        assert(self.failures@.take(0) =~= Seq::empty());
        while i < self.failures.len()
            invariant
                i <= self.failures.len(),
                last == latest(self.failures@.take(i as int)),
            decreases self.failures.len() - i,
        {
            let t: u64 = self.failures[i];
            assert(self.failures@.take(i + 1).drop_last() =~= self.failures@.take(i as int));
            last = match last {
                None => Some(t),
                Some(u) => Some(
                    if u > t {
                        u
                    } else {
                        t
                    },
                ),
            };
            i = i + 1;
        }
        assert(self.failures@.take(i as int) =~= self.failures@);
        match (self.locked_until, last) {
            (Some(a), Some(b)) => {
                let deadline: u128 = b as u128 + window as u128;
                if a as u128 > deadline {
                    a as u128
                } else {
                    deadline
                }
            },
            (Some(a), None) => a as u128,
            (None, Some(b)) => b as u128 + window as u128,
            (None, None) => now as u128,
        }
    }
}

proof fn latest_is_largest(times: Seq<u64>)
    requires
        times.len() > 0,
    ensures
        latest(times) matches Some(m) && times.contains(m) && forall|i: int|
            0 <= i < times.len() ==> #[trigger] times[i] <= m,
    decreases times.len(),
{
    let rest = times.drop_last();
    if rest.len() > 0 {
        latest_is_largest(rest);
        let m = latest(rest)->0;
        let k = choose|k: int| 0 <= k < rest.len() && rest[k] == m;
        assert(times[k] == m);
        assert forall|i: int| 0 <= i < times.len() implies #[trigger] times[i] <= latest(times)->0 by {
            if i < rest.len() {
                assert(rest[i] <= m);
            }
        }
    }
    assert(times[times.len() - 1] == times.last());
}

/// A source may be forgotten exactly from the time at which it expires on: before
/// that it is locked out or has a failure that counts, and from then on neither.
/// One without failures and lockout expires at once.
pub proof fn buckets_die_when_they_expire(b: BucketView, now: u64, t: u64, window: u64)
    requires
        forall|i: int| 0 <= i < b.failures.len() ==> #[trigger] b.failures[i] <= now,
        now <= t,
    ensures
        b.is_dead(t, window) <==> t >= b.expires_at(now, window),
        b == blank() ==> b.expires_at(now, window) == now,
{
    if b.failures.len() > 0 {
        latest_is_largest(b.failures);
        let last = latest(b.failures)->0;
        let k = choose|k: int| 0 <= k < b.failures.len() && b.failures[k] == last;
        assert(recent(b.failures[k], t, window) == (t - last < window));
        assert forall|i: int| 0 <= i < b.failures.len() && t - last >= window implies !recent(
            #[trigger] b.failures[i],
            t,
            window,
        ) by {
            assert(b.failures[i] <= last);
        }
    }
}

proof fn submap_at(part: Map<IpAddr, BucketView>, all: Map<IpAddr, BucketView>, ip: IpAddr)
    requires
        part.submap_of(all),
        part.dom().contains(ip),
    ensures
        all.dom().contains(ip),
        part[ip] == all[ip],
{
    assert(all.dom().contains(ip));
}

/// Entries as what they hold.
pub open spec fn entry_views(entries: Seq<(IpAddr, Bucket)>) -> Seq<(IpAddr, BucketView)> {
    Seq::new(entries.len(), |i: int| (entries[i].0, entries[i].1@))
}

/// Remembers failures per source address.
pub struct RateLimiter {
    policy: RateLimitPolicy,
    entries: Vec<(IpAddr, Bucket)>,
    last_sweep: Option<u64>,
}

/// What a [`RateLimiter`] holds.
pub struct LimiterView {
    pub policy: RateLimitPolicy,
    pub sources: Map<IpAddr, BucketView>,
    pub last_sweep: Option<u64>,
}

/// What is remembered of a source.
pub open spec fn remembered(sources: Map<IpAddr, BucketView>, ip: IpAddr) -> BucketView {
    if sources.dom().contains(ip) {
        sources[ip]
    } else {
        blank()
    }
}

/// The sources that are still worth remembering.
pub open spec fn live(sources: Map<IpAddr, BucketView>, now: u64, window: u64) -> Map<
    IpAddr,
    BucketView,
> {
    sources.restrict(
        Set::new(
            |ip: IpAddr| sources.dom().contains(ip) && !sources[ip].is_dead(now, window),
        ),
    )
}

/// Whether `kept` is what eviction may leave of `all`: the most that is
/// allowed, and nothing that would be forgotten before something that left.
pub open spec fn evicted(
    all: Map<IpAddr, BucketView>,
    kept: Map<IpAddr, BucketView>,
    now: u64,
    policy: RateLimitPolicy,
) -> bool {
    if all.len() <= policy.max_tracked {
        kept == all
    } else {
        &&& kept.submap_of(all)
        &&& kept.len() == policy.max_tracked
        &&& forall|gone: IpAddr, stays: IpAddr|
            #![trigger all.dom().contains(gone), kept.dom().contains(stays)]
            all.dom().contains(gone) && !kept.dom().contains(gone) && kept.dom().contains(stays)
                ==> all[gone].expires_at(now, policy.window) <= all[stays].expires_at(
                now,
                policy.window,
            )
    }
}

impl LimiterView {
    /// Whether a sweep is due: none has been for a window, or too many sources
    /// are remembered.
    pub open spec fn sweep_due(self, sources: Map<IpAddr, BucketView>, now: u64) -> bool {
        ||| self.last_sweep is None
        ||| (self.last_sweep matches Some(t) && !recent(t, now, self.policy.window))
        ||| sources.len() > self.policy.max_tracked
    }

    /// Whether `after` is what may be remembered once a source has failed.
    pub open spec fn failure_recorded(self, after: LimiterView, ip: IpAddr, now: u64) -> bool {
        let sources = self.sources.insert(ip, remembered(self.sources, ip).failed(now, self.policy));
        let due = self.sweep_due(sources, now);
        &&& after.policy == self.policy
        &&& after.last_sweep == if due {
            Some(now)
        } else {
            self.last_sweep
        }
        &&& evicted(
            if due {
                live(sources, now, self.policy.window)
            } else {
                sources
            },
            after.sources,
            now,
            self.policy,
        )
    }

    /// Whether a source may attempt to log in.
    pub open spec fn allows(self, ip: IpAddr, now: u64) -> bool {
        !(remembered(self.sources, ip).locked_until matches Some(until) && now < until)
    }

    /// What is remembered once a source was asked about: a lockout that is over
    /// is forgotten, with the failures that led to it.
    pub open spec fn checked(self, ip: IpAddr, now: u64) -> LimiterView {
        if self.sources.dom().contains(ip) && self.sources[ip].locked_until is Some && self.allows(
            ip,
            now,
        ) {
            LimiterView { sources: self.sources.insert(ip, blank()), ..self }
        } else {
            self
        }
    }
}

impl View for RateLimiter {
    type V = LimiterView;

    closed spec fn view(&self) -> LimiterView {
        LimiterView {
            policy: self.policy,
            sources: as_map(entry_views(self.entries@)),
            last_sweep: self.last_sweep,
        }
    }
}

impl RateLimiter {
    /// Whether no source is remembered twice.
    pub closed spec fn wf(&self) -> bool {
        unique(entry_views(self.entries@))
    }

    /// A limiter that remembers nothing.
    pub fn new(policy: RateLimitPolicy) -> (r: RateLimiter)
        ensures
            r.wf(),
            r@ == (LimiterView { policy, sources: Map::empty(), last_sweep: None }),
    {
        let r = RateLimiter { policy, entries: Vec::new(), last_sweep: None };
        proof {
            empty_is_empty(entry_views(r.entries@));
        }
        r
    }

    /// Where a source is remembered.
    fn find(&self, ip: IpAddr) -> (r: Option<usize>)
        ensures
            r matches Some(i) ==> i < self.entries@.len() && self.entries@[i as int].0 == ip,
            r is None ==> !has_key(entry_views(self.entries@), ip),
    {
        let mut i: usize = 0;
        while i < self.entries.len()
            invariant
                i <= self.entries.len(),
                forall|k: int| 0 <= k < i ==> (#[trigger] self.entries@[k]).0 != ip,
            decreases self.entries.len() - i,
        {
            if self.entries[i].0 == ip {
                return Some(i);
            }
            i = i + 1;
        }
        assert forall|k: int| 0 <= k < entry_views(self.entries@).len() implies (
        #[trigger] entry_views(self.entries@)[k]).0 != ip by {
            assert(self.entries@[k].0 != ip);
        }
        None
    }

    /// Whether a source may attempt to log in now. A lockout that is over is
    /// forgotten.
    pub fn check(&mut self, ip: IpAddr, now: u64) -> (r: bool)
        requires
            old(self).wf(),
        ensures
            final(self).wf(),
            r == old(self)@.allows(ip, now),
            final(self)@ == old(self)@.checked(ip, now),
    {
        let ghost before = entry_views(self.entries@);
        match self.find(ip) {
            None => true,
            Some(i) => {
                proof {
                    lookup(before, i as int);
                }
                match self.entries[i].1.locked_until {
                    Some(until) => {
                        if now < until {
                            return false;
                        }
                        self.entries.set(i, (ip, Bucket { failures: Vec::new(), locked_until: None }));
                        proof {
                            assert(entry_views(self.entries@) =~= before.update(
                                i as int,
                                (ip, blank()),
                            ));
                            update_is_insert(before, i as int, blank());
                        }
                        true
                    },
                    None => true,
                }
            },
        }
    }

    /// Remembers a failure, which may lock the source out, and forgets what is
    /// no longer worth its place.
    pub fn record_failure(&mut self, ip: IpAddr, now: u64)
        requires
            old(self).wf(),
        ensures
            final(self).wf(),
            old(self)@.failure_recorded(final(self)@, ip, now),
    {
        let ghost before = entry_views(self.entries@);
        let found: Option<usize> = self.find(ip);
        let mut failures: Vec<u64> = Vec::new();
        let mut locked_until: Option<u64> = None;
        let ghost known = remembered(self@.sources, ip);
        let window: u64 = self.policy.window;
        let ghost counts = |t: u64| recent(t, now, window);
        if let Some(i) = found {
            proof {
                lookup(before, i as int);
            }
            locked_until = self.entries[i].1.locked_until;
            let mut k: usize = 0;
            let ghost all = self.entries@[i as int].1.failures@;
            assert(all.take(0) =~= Seq::empty());
            assert(failures@ =~= all.take(0).filter(counts)) by {
                reveal(Seq::filter);
            }
            while k < self.entries[i].1.failures.len()
                invariant
                    i < self.entries@.len(),
                    all == self.entries@[i as int].1.failures@,
                    k <= all.len(),
                    counts == (|t: u64| recent(t, now, window)),
                    failures@ == all.take(k as int).filter(counts),
                decreases all.len() - k,
            {
                let t: u64 = self.entries[i].1.failures[k];
                proof {
                    reveal(Seq::filter);
                    assert(all.take(k + 1).drop_last() =~= all.take(k as int));
                }
                if is_recent(t, now, window) {
                    failures.push(t);
                }
                k = k + 1;
            }
            assert(all.take(k as int) =~= all);
        } else {
            assert(failures@ =~= Seq::<u64>::empty().filter(counts)) by {
                reveal(Seq::filter);
            }
        }
        failures.push(now);
        if failures.len() as u64 >= self.policy.max_failures as u64 {
            locked_until = Some(now.saturating_add(self.policy.lockout));
        }
        let bucket = Bucket { failures, locked_until };
        let ghost failed = bucket@;
        assert(failed.failures =~= known.failed(now, self.policy).failures);
        assert(failed == known.failed(now, self.policy));
        match found {
            Some(i) => {
                self.entries.set(i, (ip, bucket));
                proof {
                    assert(entry_views(self.entries@) =~= before.update(i as int, (ip, failed)));
                    update_is_insert(before, i as int, failed);
                }
            },
            None => {
                self.entries.push((ip, bucket));
                proof {
                    assert(entry_views(self.entries@) =~= before.push((ip, failed)));
                    push_is_insert(before, ip, failed);
                }
            },
        }
        self.prune(now);
    }

    /// Forgets a source that logged in.
    pub fn record_success(&mut self, ip: IpAddr)
        requires
            old(self).wf(),
        ensures
            final(self).wf(),
            final(self)@ == (LimiterView {
                sources: old(self)@.sources.remove(ip),
                ..old(self)@
            }),
    {
        let ghost before = entry_views(self.entries@);
        match self.find(ip) {
            Some(i) => {
                self.drop_entry(i);
            },
            None => {
                assert(as_map(before).remove(ip) =~= as_map(before));
            },
        }
    }

    /// Drops the entry at `i`.
    fn drop_entry(&mut self, i: usize)
        requires
            old(self).wf(),
            i < old(self).entries@.len(),
        ensures
            final(self).wf(),
            final(self)@ == (LimiterView {
                sources: old(self)@.sources.remove(old(self).entries@[i as int].0),
                ..old(self)@
            }),
            final(self).entries@ == old(self).entries@.update(
                i as int,
                old(self).entries@.last(),
            ).drop_last(),
            old(self)@.sources.dom().contains(old(self).entries@[i as int].0),
            old(self)@.sources[old(self).entries@[i as int].0] == old(self).entries@[i as int].1@,
    {
        let ghost before = entry_views(self.entries@);
        proof {
            lookup(before, i as int);
            swap_remove_is_remove(before, i as int);
        }
        self.entries.swap_remove(i);
        assert(entry_views(self.entries@) =~= before.update(i as int, before.last()).drop_last());
    }

    /// Sweeps out what is dead where that is due, then makes room where too
    /// much is left.
    fn prune(&mut self, now: u64)
        requires
            old(self).wf(),
        ensures
            final(self).wf(),
            final(self)@.policy == old(self)@.policy,
            ({
                let due = old(self)@.sweep_due(old(self)@.sources, now);
                &&& final(self)@.last_sweep == if due {
                    Some(now)
                } else {
                    old(self)@.last_sweep
                }
                &&& evicted(
                    if due {
                        live(old(self)@.sources, now, old(self)@.policy.window)
                    } else {
                        old(self)@.sources
                    },
                    final(self)@.sources,
                    now,
                    old(self)@.policy,
                )
            }),
    {
        proof {
            same_size(entry_views(self.entries@));
        }
        let due: bool = match self.last_sweep {
            None => true,
            Some(t) => !is_recent(t, now, self.policy.window),
        };
        if due || self.entries.len() > self.policy.max_tracked {
            self.sweep(now);
            self.last_sweep = Some(now);
        }
        self.evict(now);
    }

    /// Drops every entry that is dead.
    fn sweep(&mut self, now: u64)
        requires
            old(self).wf(),
        ensures
            final(self).wf(),
            final(self)@ == (LimiterView {
                sources: live(old(self)@.sources, now, old(self)@.policy.window),
                ..old(self)@
            }),
    {
        let ghost all = self@.sources;
        let window: u64 = self.policy.window;
        let mut i: usize = 0;
        while i < self.entries.len()
            invariant
                i <= self.entries.len(),
                self.wf(),
                self.policy == old(self).policy,
                self.last_sweep == old(self).last_sweep,
                window == self.policy.window,
                all == old(self)@.sources,
                self@.sources.submap_of(all),
                forall|ip: IpAddr|
                    all.dom().contains(ip) && !self@.sources.dom().contains(ip)
                        ==> #[trigger] all[ip].is_dead(now, window),
                forall|k: int|
                    0 <= k < i ==> !(#[trigger] self.entries@[k]).1@.is_dead(now, window),
            decreases self.entries.len() - i,
        {
            if self.entries[i].1.is_dead(now, window) {
                let ghost gone = self.entries@[i as int].0;
                let ghost previous = self@.sources;
                let ghost entries_before = self.entries@;
                proof {
                    lookup(entry_views(self.entries@), i as int);
                    submap_at(previous, all, gone);
                }
                self.drop_entry(i);
                assert forall|ip: IpAddr| #[trigger] self@.sources.dom().contains(
                    ip,
                ) implies all.dom().contains(ip) && self@.sources[ip] == all[ip] by {
                    submap_at(previous, all, ip);
                }
                assert forall|k: int| 0 <= k < i implies !(#[trigger] self.entries@[k]).1@.is_dead(
                    now,
                    window,
                ) by {
                    assert(self.entries@[k] == entries_before[k]);
                }
                assert forall|ip: IpAddr|
                    all.dom().contains(ip) && !self@.sources.dom().contains(
                        ip,
                    ) implies #[trigger] all[ip].is_dead(now, window) by {
                    if ip != gone {
                        assert(!previous.dom().contains(ip));
                    }
                }
            } else {
                i = i + 1;
            }
        }
        proof {
            let views = entry_views(self.entries@);
            let kept = live(all, now, window);
            assert forall|ip: IpAddr| self@.sources.dom().contains(ip) == kept.dom().contains(
                ip,
            ) by {
                if self@.sources.dom().contains(ip) {
                    let k = position(views, ip);
                    assert(has_key(views, ip));
                    lookup(views, k);
                    assert(!self.entries@[k].1@.is_dead(now, window));
                    submap_at(self@.sources, all, ip);
                }
            }
            assert forall|ip: IpAddr| kept.dom().contains(ip) implies self@.sources[ip] == kept[ip] by {
                submap_at(self@.sources, all, ip);
            }
            assert(self@.sources =~= kept);
        }
    }

    /// Drops the entries that would be forgotten first until no more are left
    /// than are allowed.
    fn evict(&mut self, now: u64)
        requires
            old(self).wf(),
        ensures
            final(self).wf(),
            final(self)@.policy == old(self)@.policy,
            final(self)@.last_sweep == old(self)@.last_sweep,
            evicted(old(self)@.sources, final(self)@.sources, now, old(self)@.policy),
    {
        let ghost all = self@.sources;
        let window: u64 = self.policy.window;
        let most: usize = self.policy.max_tracked;
        proof {
            same_size(entry_views(self.entries@));
        }
        while self.entries.len() > most
            invariant
                self.wf(),
                self.policy == old(self).policy,
                self.last_sweep == old(self).last_sweep,
                window == self.policy.window,
                most == self.policy.max_tracked,
                all == old(self)@.sources,
                all.len() == old(self).entries@.len(),
                self@.sources.submap_of(all),
                self.entries@.len() == old(self).entries@.len() || self.entries@.len() >= most,
                self.entries@.len() == old(self).entries@.len() ==> self@.sources == all,
                self.entries@.len() <= old(self).entries@.len(),
                forall|gone: IpAddr, stays: IpAddr|
                    #![trigger all.dom().contains(gone), self@.sources.dom().contains(stays)]
                    all.dom().contains(gone) && !self@.sources.dom().contains(gone)
                        && self@.sources.dom().contains(stays) ==> all[gone].expires_at(now, window)
                        <= all[stays].expires_at(now, window),
            decreases self.entries.len(),
        {
            let first: usize = self.soonest(now);
            let ghost entries_before = self.entries@;
            let ghost previous = self@.sources;
            let ghost out = self.entries@[first as int].0;
            proof {
                assert(previous.submap_of(all));
                assert forall|stays: IpAddr| #[trigger] previous.dom().contains(
                    stays,
                ) implies all[out].expires_at(now, window) <= all[stays].expires_at(now, window) by {
                    assert(previous.dom().contains(stays));
                    submap_at(previous, all, stays);
                    let views = entry_views(entries_before);
                    assert(has_key(views, stays));
                    let k = position(views, stays);
                    lookup(views, k);
                    lookup(views, first as int);
                    submap_at(previous, all, out);
                }
            }
            self.drop_entry(first);
            assert(self@.sources == previous.remove(out));
            assert forall|ip: IpAddr| #[trigger] self@.sources.dom().contains(ip) implies all.dom().contains(
                ip,
            ) && self@.sources[ip] == all[ip] by {
                submap_at(previous, all, ip);
            }
            assert forall|gone: IpAddr, stays: IpAddr|
                #![trigger all.dom().contains(gone), self@.sources.dom().contains(stays)]
                all.dom().contains(gone) && !self@.sources.dom().contains(gone)
                    && self@.sources.dom().contains(stays) implies all[gone].expires_at(now, window)
                <= all[stays].expires_at(now, window) by {
                assert(previous.dom().contains(stays));
                if gone != out {
                    assert(!previous.dom().contains(gone));
                }
            }
        }
        proof {
            same_size(entry_views(self.entries@));
        }
    }

    /// The entry that would be forgotten first.
    fn soonest(&self, now: u64) -> (r: usize)
        requires
            self.entries@.len() > 0,
        ensures
            r < self.entries@.len(),
            forall|k: int|
                0 <= k < self.entries@.len() ==> self.entries@[r as int].1@.expires_at(
                    now,
                    self.policy.window,
                ) <= (#[trigger] self.entries@[k]).1@.expires_at(now, self.policy.window),
    {
        let window: u64 = self.policy.window;
        let mut best: usize = 0;
        let mut least: u128 = self.entries[0].1.expires_at(now, window);
        let mut i: usize = 1;
        while i < self.entries.len()
            invariant
                window == self.policy.window,
                best < i <= self.entries@.len(),
                least == self.entries@[best as int].1@.expires_at(now, window),
                forall|k: int|
                    0 <= k < i ==> least <= (#[trigger] self.entries@[k]).1@.expires_at(now, window),
            decreases self.entries.len() - i,
        {
            let at: u128 = self.entries[i].1.expires_at(now, window);
            if at < least {
                best = i;
                least = at;
            }
            i = i + 1;
        }
        best
    }

    /// How many sources are remembered.
    pub fn tracked_sources(&self) -> (r: usize)
        requires
            self.wf(),
        ensures
            r == self@.sources.len(),
    {
        proof {
            same_size(entry_views(self.entries@));
        }
        self.entries.len()
    }
}

/// However many sources fail, no more are remembered than the policy allows.
pub proof fn memory_is_bounded(before: LimiterView, after: LimiterView, ip: IpAddr, now: u64)
    requires
        before.failure_recorded(after, ip, now),
    ensures
        after.sources.len() <= before.policy.max_tracked,
{
}

/// A source that is locked out stays so until the lockout is over, whatever is
/// asked about it meanwhile.
pub proof fn lockout_lasts(limiter: LimiterView, ip: IpAddr, until: u64, now: u64)
    requires
        remembered(limiter.sources, ip).locked_until == Some(until),
    ensures
        limiter.allows(ip, now) <==> until <= now,
        now < until ==> limiter.checked(ip, now) == limiter,
        until <= now ==> limiter.checked(ip, now).allows(ip, now),
{
}

/// A login clears the record of its source, and of no other.
pub proof fn success_clears(limiter: LimiterView, ip: IpAddr, other: IpAddr, now: u64)
    ensures
        (LimiterView { sources: limiter.sources.remove(ip), ..limiter }).allows(ip, now),
        remembered(limiter.sources.remove(ip), ip) == blank(),
        other != ip ==> remembered(limiter.sources.remove(ip), other) == remembered(
            limiter.sources,
            other,
        ),
{
}

/// A failure that leads to a lockout locks its source out at once, unless there
/// is no room to remember it.
pub proof fn too_many_failures_lock_out(
    before: LimiterView,
    after: LimiterView,
    ip: IpAddr,
    now: u64,
)
    requires
        before.failure_recorded(after, ip, now),
        after.sources.dom().contains(ip),
        remembered(before.sources, ip).failed(now, before.policy).failures.len()
            >= before.policy.max_failures,
        before.policy.lockout > 0,
        now < u64::MAX,
    ensures
        !after.allows(ip, now),
{
    let failed = remembered(before.sources, ip).failed(now, before.policy);
    let sources = before.sources.insert(ip, failed);
    assert(sources[ip] == failed);
    let all = if before.sweep_due(sources, now) {
        live(sources, now, before.policy.window)
    } else {
        sources
    };
    assert(all.dom().contains(ip) && after.sources[ip] == failed);
}

} // verus!
