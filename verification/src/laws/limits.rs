//! Laws of the limit on failed logins.

use vstd::prelude::*;

use crate::net::IpAddr;
use crate::rate_limit::{Bucket, LimiterView, RateLimitPolicy, RateLimiter};

verus! {

/// A limiter starts with nothing remembered. By itself it locks a source out for a
/// minute after five failures within a minute, and remembers a hundred thousand sources.
pub proof fn limiters_start_empty(
    policy: RateLimitPolicy,
    usual: RateLimitPolicy,
    r: RateLimiter,
    ip: IpAddr,
)
    requires
        call_ensures(RateLimiter::new, (policy,), r),
        call_ensures(RateLimitPolicy::default, (), usual),
    ensures
        !r@.sources.dom().contains(ip),
        r@.policy == policy,
        usual.max_failures == 5,
        usual.window == 60_000,
        usual.lockout == 60_000,
        usual.max_tracked == 100_000,
{
}

/// A source may try exactly while it is not locked out. A lockout that is over is
/// forgotten together with its failures; asking changes nothing else.
pub proof fn lockouts_end_on_time(limiter: &mut RateLimiter, ip: IpAddr, now: u64, r: bool)
    requires
        call_ensures(RateLimiter::check, (limiter, ip, now), r),
    ensures
        r <==> !(old(limiter)@.sources.dom().contains(ip) && (
        old(limiter)@.sources[ip].locked_until matches Some(until) && now < until)),
        forall|other: IpAddr|
            other != ip ==> (final(limiter)@.sources.dom().contains(other)
                <==> #[trigger] old(limiter)@.sources.dom().contains(other)),
        forall|other: IpAddr|
            other != ip && #[trigger] old(limiter)@.sources.dom().contains(other) ==> final(
            limiter)@.sources[other] == old(limiter)@.sources[other],
        !r ==> final(limiter)@ == old(limiter)@,
        r && old(limiter)@.sources.dom().contains(ip)
            && old(limiter)@.sources[ip].locked_until is Some
            ==> final(limiter)@.sources[ip].failures.len() == 0 && final(
            limiter)@.sources[ip].locked_until is None,
        r && old(limiter)@.sources.dom().contains(ip)
            && old(limiter)@.sources[ip].locked_until is None
            ==> final(limiter)@ == old(limiter)@,
{
}

/// A login clears the record of its source, and of no other.
pub proof fn logins_clear_the_record(limiter: &mut RateLimiter, ip: IpAddr)
    requires
        call_ensures(RateLimiter::record_success, (limiter, ip), ()),
    ensures
        !final(limiter)@.sources.dom().contains(ip),
        forall|other: IpAddr|
            other != ip ==> (final(limiter)@.sources.dom().contains(other)
                <==> #[trigger] old(limiter)@.sources.dom().contains(other)),
        forall|other: IpAddr|
            other != ip && #[trigger] old(limiter)@.sources.dom().contains(other) ==> final(
            limiter)@.sources[other] == old(limiter)@.sources[other],
        final(limiter)@.policy == old(limiter)@.policy,
{
}

/// The failures of a source that count at a time.
pub open spec fn counting(failures: Seq<u64>, now: u64, window: u64) -> Seq<u64>
    decreases failures.len(),
{
    if failures.len() == 0 {
        Seq::empty()
    } else {
        let before = counting(failures.drop_last(), now, window);
        if now - failures.last() < window {
            before.push(failures.last())
        } else {
            before
        }
    }
}

proof fn counting_is_filtering(failures: Seq<u64>, now: u64, window: u64)
    requires
        window > 0,
    ensures
        failures.filter(|t: u64| crate::rate_limit::recent(t, now, window)) == counting(
            failures,
            now,
            window,
        ),
    decreases failures.len(),
{
    reveal(Seq::filter);
    if failures.len() > 0 {
        counting_is_filtering(failures.drop_last(), now, window);
    }
}

/// A failure counts against its source together with those of the last window, and the
/// one that makes them too many locks the source out from then on, for as long as a
/// lockout takes. Where there is room, nobody who still counts is forgotten for it.
pub proof fn failures_add_up(limiter: &mut RateLimiter, ip: IpAddr, now: u64, earlier: Seq<u64>)
    requires
        call_ensures(RateLimiter::record_failure, (limiter, ip, now), ()),
        old(limiter)@.policy.window > 0,
        old(limiter)@.sources.dom().finite(),
        old(limiter)@.sources.dom().len() < old(limiter)@.policy.max_tracked,
        old(limiter)@.sources.dom().contains(ip) ==> earlier == old(limiter)@.sources[ip].failures,
        !old(limiter)@.sources.dom().contains(ip) ==> earlier.len() == 0,
    ensures
        final(limiter)@.policy == old(limiter)@.policy,
        final(limiter)@.sources.dom().contains(ip),
        ({
            let policy = old(limiter)@.policy;
            let bucket = final(limiter)@.sources[ip];
            let count = counting(earlier, now, policy.window).len() + 1;
            &&& bucket.failures == counting(earlier, now, policy.window).push(now)
            &&& count >= policy.max_failures && now + policy.lockout <= u64::MAX
                ==> bucket.locked_until == Some((now + policy.lockout) as u64)
            &&& count < policy.max_failures
                ==> (bucket.locked_until is Some <==> old(limiter)@.sources.dom().contains(ip)
                && old(limiter)@.sources[ip].locked_until is Some)
        }),
        final(limiter)@.sources.dom().finite(),
        final(limiter)@.sources.dom().len() <= old(limiter)@.sources.dom().len() + 1,
{
    let before = old(limiter)@;
    let after = final(limiter)@;
    counting_is_filtering(earlier, now, before.policy.window);
    let bucket = crate::rate_limit::remembered(before.sources, ip).failed(now, before.policy);
    let sources = before.sources.insert(ip, bucket);
    assert(bucket.failures.last() == now);
    assert(!bucket.is_dead(now, before.policy.window)) by {
        assert(crate::rate_limit::recent(bucket.failures[bucket.failures.len() - 1], now, before.policy.window));
    }
    let kept = crate::rate_limit::live(sources, now, before.policy.window);
    assert(kept.dom().subset_of(sources.dom()));
    vstd::set_lib::lemma_len_subset(kept.dom(), sources.dom());
    assert(kept.dom().contains(ip));
    assert(sources.dom() =~= before.sources.dom().insert(ip));
    assert(sources.dom().len() <= before.sources.dom().len() + 1);
}

/// Five failures of a source within a minute lock it out: it is turned away for a minute
/// from the fifth on, and may try again after that.
pub proof fn five_failures_lock_out(
    first: &mut RateLimiter,
    second: &mut RateLimiter,
    third: &mut RateLimiter,
    fourth: &mut RateLimiter,
    fifth: &mut RateLimiter,
    asked: &mut RateLimiter,
    ip: IpAddr,
    t1: u64,
    t2: u64,
    t3: u64,
    t4: u64,
    t5: u64,
    now: u64,
    r: bool,
)
    requires
        call_ensures(RateLimiter::record_failure, (first, ip, t1), ()),
        call_ensures(RateLimiter::record_failure, (second, ip, t2), ()),
        call_ensures(RateLimiter::record_failure, (third, ip, t3), ()),
        call_ensures(RateLimiter::record_failure, (fourth, ip, t4), ()),
        call_ensures(RateLimiter::record_failure, (fifth, ip, t5), ()),
        call_ensures(RateLimiter::check, (asked, ip, now), r),
        call_ensures(RateLimitPolicy::default, (), old(first)@.policy),
        old(second)@ == final(first)@,
        old(third)@ == final(second)@,
        old(fourth)@ == final(third)@,
        old(fifth)@ == final(fourth)@,
        old(asked)@ == final(fifth)@,
        t1 <= t2 <= t3 <= t4 <= t5 <= now,
        t5 - t1 < 60_000,
        t5 + 60_000 <= u64::MAX,
        !old(first)@.sources.dom().contains(ip),
        old(first)@.sources.dom().finite(),
        old(first)@.sources.dom().len() < 99_990,
    ensures
        r <==> now >= t5 + 60_000,
{
    let none = Seq::<u64>::empty();
    reveal_with_fuel(counting, 6);
    failures_add_up(first, ip, t1, none);
    let one = final(first)@.sources[ip].failures;
    assert(one =~= seq![t1]);
    assert(one.drop_last() =~= none);
    failures_add_up(second, ip, t2, one);
    let two = final(second)@.sources[ip].failures;
    assert(two =~= seq![t1, t2]);
    assert(two.drop_last() =~= one);
    failures_add_up(third, ip, t3, two);
    let three = final(third)@.sources[ip].failures;
    assert(three =~= seq![t1, t2, t3]);
    assert(three.drop_last() =~= two);
    failures_add_up(fourth, ip, t4, three);
    let four = final(fourth)@.sources[ip].failures;
    assert(four =~= seq![t1, t2, t3, t4]);
    assert(four.drop_last() =~= three);
    failures_add_up(fifth, ip, t5, four);
    assert(final(fifth)@.sources[ip].locked_until == Some((t5 + 60_000) as u64));
    lockouts_end_on_time(asked, ip, now, r);
}

/// No more sources are remembered than the policy allows, whoever fails.
pub proof fn memory_has_a_limit(limiter: &mut RateLimiter, ip: IpAddr, now: u64)
    requires
        call_ensures(RateLimiter::record_failure, (limiter, ip, now), ()),
    ensures
        final(limiter)@.sources.len() <= old(limiter)@.policy.max_tracked,
{
}

/// A bucket is dead exactly where it is neither locked out nor holds a failure that
/// counts.
pub proof fn dead_buckets_hold_nothing(bucket: &Bucket, now: u64, window: u64, r: bool)
    requires
        call_ensures(Bucket::is_dead, (bucket, now, window), r),
        window > 0,
    ensures
        r <==> !(bucket.locked_until matches Some(until) && now < until) && forall|i: int|
            0 <= i < bucket.failures@.len() ==> now - #[trigger] bucket.failures@[i] >= window,
{
    let failures = bucket.failures@;
    if r {
        assert forall|i: int| 0 <= i < failures.len() implies now - #[trigger] failures[i]
            >= window by {
            assert(!crate::rate_limit::recent(bucket@.failures[i], now, window));
        }
    } else if !(bucket.locked_until matches Some(until) && now < until) {
        let i = choose|i: int|
            0 <= i < failures.len() && crate::rate_limit::recent(
                #[trigger] bucket@.failures[i],
                now,
                window,
            );
        assert(now - failures[i] < window);
    }
}

/// A record is of no use once its lockout has passed and its latest failure no longer
/// counts.
pub proof fn records_are_kept_while_they_count(
    bucket: &Bucket,
    now: u64,
    window: u64,
    r: u128,
    i: int,
)
    requires
        call_ensures(Bucket::expires_at, (bucket, now, window), r),
    ensures
        bucket@.locked_until matches Some(until) ==> r >= until,
        0 <= i < bucket@.failures.len() ==> r >= bucket@.failures[i] + window,
        bucket@.locked_until is None && bucket@.failures.len() == 0 ==> r == now,
        bucket@.locked_until is None && bucket@.failures.len() == 1 ==> r == bucket@.failures[0]
            + window,
{
    if 0 <= i < bucket@.failures.len() {
        latest_is_latest(bucket@.failures, i);
    }
    reveal_with_fuel(crate::rate_limit::latest, 2);
    if bucket@.failures.len() == 1 {
        assert(bucket@.failures.drop_last().len() == 0);
    }
}

proof fn latest_is_latest(times: Seq<u64>, i: int)
    requires
        0 <= i < times.len(),
    ensures
        crate::rate_limit::latest(times) is Some,
        crate::rate_limit::latest(times)->0 >= times[i],
    decreases times.len(),
{
    if i < times.len() - 1 {
        latest_is_latest(times.drop_last(), i);
        assert(times.drop_last()[i] == times[i]);
    }
}

/// As many sources are tracked as are remembered.
pub proof fn tracked_sources_are_counted(limiter: &RateLimiter, r: usize)
    requires
        call_ensures(RateLimiter::tracked_sources, (limiter,), r),
    ensures
        r == limiter@.sources.len(),
{
}

} // verus!
