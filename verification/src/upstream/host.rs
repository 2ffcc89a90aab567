//! A backend host: its static configuration and its sliding window of recent
//! failures.
//!
//! Time is counted in nanoseconds on a clock that starts when the host is
//! built. The window is modelled as a multiset of failure times; the host
//! keeps it oldest first, so that stale entries are evicted from the front.

use std::collections::VecDeque;
use std::time::Instant;
use vstd::multiset::Multiset;
use vstd::prelude::*;
use vstd::seq_lib::{
    to_multiset_build, to_multiset_contains, to_multiset_insert, to_multiset_remove,
};
use vstd::std_specs::cmp::{PartialEqSpec, PartialEqSpecImpl};

verus! {

/// `std::time::Instant`, a reading of the monotonic clock.
#[verifier::external_type_specification]
#[verifier::external_body]
pub struct ExInstant(Instant);

/// `Instant::now` reads the monotonic clock; nothing is known of what it returns.
pub assume_specification[ Instant::now ]() -> Instant;

/// `Instant` is `Copy`: its clone is the instant itself.
pub assume_specification[ <Instant as Clone>::clone ](instant: &Instant) -> (copy: Instant)
    ensures
        copy == *instant,
;

/// `Instant::elapsed` measures the time since the instant was taken; nothing
/// is known of the span it returns.
pub assume_specification[ Instant::elapsed ](origin: &Instant) -> core::time::Duration;

/// `Duration::as_nanos` gives a span as a whole number of nanoseconds.
pub assume_specification[ core::time::Duration::as_nanos ](span: &core::time::Duration) -> u128;

/// The failure timeout of a host that was given none: thirty seconds.
pub const DEFAULT_FAIL_TIMEOUT: u128 = 30_000_000_000;

/// Whether a failure recorded at `at` still counts at time `now`: it is not
/// older than `now - timeout`.
pub open spec fn is_fresh(at: u128, now: u128, timeout: u128) -> bool {
    at + timeout >= now
}

/// The test that a failure time passes when it still counts at `now`.
pub open spec fn fresh_at(now: u128, timeout: u128) -> spec_fn(u128) -> bool {
    |at: u128| is_fresh(at, now, timeout)
}

/// The failure window after a failure is reported at `now`: what was older
/// than `now - timeout` is gone, and `now` has joined the rest.
pub open spec fn window_after_failure(
    window: Multiset<u128>,
    now: u128,
    timeout: u128,
) -> Multiset<u128> {
    window.filter(fresh_at(now, timeout)).insert(now)
}

/// Whether a sequence of times never goes back.
pub open spec fn ascending(times: Seq<u128>) -> bool {
    forall|i: int, j: int| 0 <= i <= j < times.len() ==> times[i] <= times[j]
}

/// A window of which every entry passes `keep` is left whole by the filter.
proof fn lemma_filter_keeps_all(window: Multiset<u128>, keep: spec_fn(u128) -> bool)
    requires
        forall|at: u128| window.count(at) > 0 ==> keep(at),
    ensures
        window.filter(keep) == window,
{
    assert(window.filter(keep) =~= window);
}

/// A window of which no entry passes `keep` is emptied by the filter.
proof fn lemma_filter_drops_all(window: Multiset<u128>, keep: spec_fn(u128) -> bool)
    requires
        forall|at: u128| window.count(at) > 0 ==> !keep(at),
    ensures
        window.filter(keep) == Multiset::<u128>::empty(),
{
    assert(window.filter(keep) =~= Multiset::<u128>::empty());
}

/// Taking an entry that fails `keep` out of a window does not change what the
/// filter leaves.
proof fn lemma_filter_without_dropped(
    window: Multiset<u128>,
    gone: u128,
    keep: spec_fn(u128) -> bool,
)
    requires
        !keep(gone),
    ensures
        window.remove(gone).filter(keep) == window.filter(keep),
{
    assert(window.remove(gone).filter(keep) =~= window.filter(keep));
}

/// What a host is, as plain values.
pub struct HostView {
    pub hostname: Seq<char>,
    pub port: u16,
    pub ipv6: bool,
    pub weight: u8,
    pub max_fails: u8,
    pub max_conns: u16,
    /// The length of the failure window, in nanoseconds.
    pub fail_timeout: u128,
    /// The times of the failures that still count.
    pub failures: Multiset<u128>,
    /// The time of the latest failure report.
    pub last_fail: u128,
}

impl HostView {
    /// A host as `Host::new` builds it.
    pub open spec fn fresh(hostname: Seq<char>, port: u16) -> HostView {
        HostView {
            hostname,
            port,
            ipv6: false,
            weight: 1,
            max_fails: 1,
            max_conns: 1024,
            fail_timeout: DEFAULT_FAIL_TIMEOUT,
            failures: Multiset::empty(),
            last_fail: 0,
        }
    }

    /// Whether two hosts are the same for configuration purposes: the health
    /// state, the address family and the connection limit play no part.
    pub open spec fn same_identity(self, other: HostView) -> bool {
        &&& self.hostname == other.hostname
        &&& self.port == other.port
        &&& self.weight == other.weight
        &&& self.max_fails == other.max_fails
        &&& self.fail_timeout == other.fail_timeout
    }

    /// The host after a failure is reported at `now`.
    pub open spec fn after_failure(self, now: u128) -> HostView {
        HostView {
            failures: window_after_failure(self.failures, now, self.fail_timeout),
            last_fail: now,
            ..self
        }
    }

    /// The host after failures are reported at each of `times`, in their order.
    pub open spec fn after_failures(self, times: Seq<u128>) -> HostView
        decreases times.len(),
    {
        if times.len() == 0 {
            self
        } else {
            self.after_failures(times.drop_last()).after_failure(times.last())
        }
    }

    /// No failure in the window is older than the latest report less the timeout.
    pub open spec fn window_is_pruned(self) -> bool {
        forall|at: u128|
            self.failures.count(at) > 0 ==> is_fresh(at, self.last_fail, self.fail_timeout)
    }
}

/// Reporting a failure never touches what identifies the host, and leaves
/// the window pruned, with the failure in it.
pub proof fn lemma_failure_keeps_identity(host: HostView, now: u128)
    ensures
        host.after_failure(now).same_identity(host),
        host.after_failure(now).window_is_pruned(),
        host.after_failure(now).failures.count(now) > 0,
{
}

/// However many failures are reported, and whenever, what identifies the
/// host stays as it was.
pub proof fn lemma_failures_keep_identity(host: HostView, times: Seq<u128>)
    ensures
        host.after_failures(times).same_identity(host),
    decreases times.len(),
{
    if times.len() > 0 {
        lemma_failures_keep_identity(host, times.drop_last());
    }
}

/// Law of host equality: two hosts are equal exactly when hostname, port,
/// weight, failure limit and failure timeout agree, and whatever failures
/// either of them goes on to see, they stay as equal or unequal as they were.
pub proof fn lemma_equality_ignores_health(
    one: Host,
    other: Host,
    one_later: Host,
    other_later: Host,
    one_times: Seq<u128>,
    other_times: Seq<u128>,
)
    requires
        one_later@ == one@.after_failures(one_times),
        other_later@ == other@.after_failures(other_times),
    ensures
        PartialEqSpec::eq_spec(&one, &other) <==> one@.hostname == other@.hostname && one@.port
            == other@.port
            && one@.weight == other@.weight && one@.max_fails == other@.max_fails
            && one@.fail_timeout == other@.fail_timeout,
        PartialEqSpec::eq_spec(&one_later, &other_later) == PartialEqSpec::eq_spec(&one, &other),
{
    lemma_failures_keep_identity(one@, one_times);
    lemma_failures_keep_identity(other@, other_times);
}

/// Law of the failure window, first half: failures reported at times that
/// never go back and that all lie within one timeout of the first, on a host
/// whose earlier failures are all stale by then, leave exactly those failures
/// in the window: as many entries as there were reports.
pub proof fn lemma_burst_fills_window(host: HostView, times: Seq<u128>)
    requires
        times.len() > 0,
        ascending(times),
        times.last() - times[0] <= host.fail_timeout,
        forall|at: u128| host.failures.count(at) > 0 ==> !is_fresh(at, times[0], host.fail_timeout),
    ensures
        host.after_failures(times).failures == times.to_multiset(),
        host.after_failures(times).failures.len() == times.len(),
        host.after_failures(times).last_fail == times.last(),
        host.after_failures(times).fail_timeout == host.fail_timeout,
        host.after_failures(times).same_identity(host),
    decreases times.len(),
{
    let keep = fresh_at(times.last(), host.fail_timeout);
    let earlier = times.drop_last();
    let before = host.after_failures(earlier);
    to_multiset_build(earlier, times.last());
    assert(earlier.push(times.last()) =~= times);
    if earlier.len() == 0 {
        lemma_filter_drops_all(host.failures, keep);
        earlier.to_multiset_ensures();
        assert(earlier.to_multiset() =~= Multiset::<u128>::empty());
    } else {
        lemma_burst_fills_window(host, earlier);
        assert forall|at: u128| before.failures.count(at) > 0 implies keep(at) by {
            to_multiset_contains(earlier, at);
            let i = choose|i: int| 0 <= i < earlier.len() && earlier[i] == at;
            assert(times[i] == at);
        }
        lemma_filter_keeps_all(before.failures, keep);
    }
    times.to_multiset_ensures();
}

/// Law of the failure window, second half: a failure reported more than one
/// timeout after every failure in the window is left alone in it.
pub proof fn lemma_quiet_period_clears_window(host: HostView, now: u128)
    requires
        forall|at: u128| host.failures.count(at) > 0 ==> now - at > host.fail_timeout,
    ensures
        host.after_failure(now).failures == Multiset::singleton(now),
        host.after_failure(now).failures.len() == 1,
{
    lemma_filter_drops_all(host.failures, fresh_at(now, host.fail_timeout));
    assert(Multiset::<u128>::empty().insert(now) =~= Multiset::singleton(now));
}

/// Law of the failure window, both halves in a row: after a burst of
/// failures as in the first half the window holds one entry for each, and
/// one more failure, reported more than one timeout after the last of the
/// burst, then stands alone in the window.
pub proof fn lemma_burst_then_quiet_period(host: HostView, times: Seq<u128>, later: u128)
    requires
        times.len() > 0,
        ascending(times),
        times.last() - times[0] <= host.fail_timeout,
        forall|at: u128| host.failures.count(at) > 0 ==> !is_fresh(at, times[0], host.fail_timeout),
        later - times.last() > host.fail_timeout,
    ensures
        host.after_failures(times).failures.len() == times.len(),
        host.after_failures(times).after_failure(later).failures.len() == 1,
{
    lemma_burst_fills_window(host, times);
    let burst = host.after_failures(times);
    assert forall|at: u128| burst.failures.count(at) > 0 implies later - at
        > burst.fail_timeout by {
        to_multiset_contains(times, at);
        let i = choose|i: int| 0 <= i < times.len() && times[i] == at;
        assert(times[i] <= times[times.len() - 1]);
    }
    lemma_quiet_period_clears_window(burst, later);
}

/// One backend endpoint with its limits and its record of recent failures.
#[derive(Debug)]
pub struct Host {
    hostname: String,
    port: u16,
    ipv6: bool,
    weight: u8,
    max_fails: u8,
    max_conns: u16,
    fail_timeout: u128,
    clock: Instant,
    fails: VecDeque<u128>,
    last_fail: u128,
}

impl View for Host {
    type V = HostView;

    closed spec fn view(&self) -> HostView {
        HostView {
            hostname: self.hostname@,
            port: self.port,
            ipv6: self.ipv6,
            weight: self.weight,
            max_fails: self.max_fails,
            max_conns: self.max_conns,
            fail_timeout: self.fail_timeout,
            failures: self.fails@.to_multiset(),
            last_fail: self.last_fail,
        }
    }
}

/// Whether the failure at `at` still counts at `now`.
fn still_fresh(at: u128, now: u128, timeout: u128) -> (fresh: bool)
    ensures
        fresh == is_fresh(at, now, timeout),
{
    if now < timeout {
        true
    } else {
        at >= now - timeout
    }
}

/// Evicts from the front of `window` every failure that no longer counts at `now`.
fn evict_stale(window: &mut VecDeque<u128>, now: u128, timeout: u128)
    requires
        ascending(old(window)@),
    ensures
        ascending(final(window)@),
        final(window)@.to_multiset() == old(window)@.to_multiset().filter(fresh_at(now, timeout)),
{
    let ghost before = window@;
    while window.len() > 0 && !still_fresh(window[0], now, timeout)
        invariant
            ascending(window@),
            window@.to_multiset().filter(fresh_at(now, timeout)) == before.to_multiset().filter(
                fresh_at(now, timeout),
            ),
        decreases window.len(),
    {
        proof {
            let full = window@;
            to_multiset_remove(full, 0);
            assert(full.remove(0) =~= full.subrange(1, full.len() as int));
            lemma_filter_without_dropped(full.to_multiset(), full[0], fresh_at(now, timeout));
        }
        window.pop_front();
    }
    proof {
        let left = window@;
        let keep = fresh_at(now, timeout);
        assert forall|at: u128| left.to_multiset().count(at) > 0 implies keep(at) by {
            to_multiset_contains(left, at);
            let i = choose|i: int| 0 <= i < left.len() && left[i] == at;
            assert(left[0] <= left[i]);
        }
        lemma_filter_keeps_all(left.to_multiset(), keep);
    }
}

/// Puts `now` into `window` behind every failure that is not later than it.
fn insert_in_order(window: &mut VecDeque<u128>, now: u128)
    requires
        ascending(old(window)@),
    ensures
        ascending(final(window)@),
        final(window)@.to_multiset() == old(window)@.to_multiset().insert(now),
{
    let mut at: usize = window.len();
    while at > 0 && window[at - 1] > now
        invariant
            at <= window.len(),
            window@ == old(window)@,
            forall|j: int| at <= j < window.len() ==> window@[j] > now,
        decreases at,
    {
        at -= 1;
    }
    proof {
        to_multiset_insert(window@, at as int, now);
    }
    window.insert(at, now);
}

impl Host {
    #[verifier::type_invariant]
    spec fn well_formed(&self) -> bool {
        &&& ascending(self.fails@)
        &&& forall|i: int|
            0 <= i < self.fails@.len() ==> is_fresh(
                #[trigger] self.fails@[i],
                self.last_fail,
                self.fail_timeout,
            )
    }

    /// A host with the default limits: weight 1, one failure allowed, 1024
    /// connections, a failure window of thirty seconds, no failure recorded.
    pub fn new(hostname: &str, port: u16) -> (host: Host)
        ensures
            host@ == HostView::fresh(hostname@, port),
    {
        let host = Host {
            hostname: hostname.to_owned(),
            port,
            ipv6: false,
            weight: 1,
            max_fails: 1,
            max_conns: 1024,
            fail_timeout: DEFAULT_FAIL_TIMEOUT,
            clock: Instant::now(),
            fails: VecDeque::new(),
            last_fail: 0,
        };
        proof {
            host.fails@.to_multiset_ensures();
            assert(host.fails@.to_multiset() =~= Multiset::<u128>::empty());
        }
        host
    }

    /// A builder that starts from `Host::new(hostname, port)`.
    pub fn builder(hostname: &str, port: u16) -> (builder: HostBuilder)
        ensures
            builder@ == HostView::fresh(hostname@, port),
    {
        let host = Host::new(hostname, port);
        proof {
            host.fails@.to_multiset_ensures();
        }
        HostBuilder { host }
    }

    /// Reports a failure at the present time on the host's clock. Whatever
    /// the clock reads, the host changes as `failed_at` says for that reading.
    pub fn failed(&mut self)
        ensures
            exists|now: u128| final(self)@ == old(self)@.after_failure(now),
            final(self)@.window_is_pruned(),
    {
        let now = self.clock.elapsed().as_nanos();
        self.failed_at(now);
    }

    /// Reports a failure at time `now`: evicts the failures older than
    /// `now - fail_timeout`, then records `now` in the window and as the
    /// latest failure.
    pub fn failed_at(&mut self, now: u128)
        ensures
            final(self)@ == old(self)@.after_failure(now),
            final(self)@.window_is_pruned(),
    {
        proof {
            use_type_invariant(&*self);
        }
        let timeout = self.fail_timeout;
        let mut window: VecDeque<u128> = VecDeque::new();
        core::mem::swap(&mut self.fails, &mut window);
        evict_stale(&mut window, now, timeout);
        let ghost kept = window@;
        insert_in_order(&mut window, now);
        proof {
            assert forall|i: int| 0 <= i < window@.len() implies is_fresh(
                #[trigger] window@[i],
                now,
                timeout,
            ) by {
                to_multiset_contains(window@, window@[i]);
                to_multiset_contains(kept, window@[i]);
            }
        }
        self.last_fail = now;
        self.fails = window;
    }

    /// The name that is resolved to reach the host.
    pub fn hostname(&self) -> (hostname: &String)
        ensures
            hostname@ == self@.hostname,
    {
        &self.hostname
    }

    /// The port of the endpoint.
    pub fn port(&self) -> (port: u16)
        ensures
            port == self@.port,
    {
        self.port
    }

    /// Whether the host is to be reached over IPv6.
    pub fn ipv6(&self) -> (ipv6: bool)
        ensures
            ipv6 == self@.ipv6,
    {
        self.ipv6
    }

    /// The share of the load that the host takes, relative to its peers.
    pub fn weight(&self) -> (weight: u8)
        ensures
            weight == self@.weight,
    {
        self.weight
    }

    /// How many failures within the window the host is allowed.
    pub fn max_fails(&self) -> (max_fails: u8)
        ensures
            max_fails == self@.max_fails,
    {
        self.max_fails
    }

    /// How many connections the host may hold at once.
    pub fn max_conns(&self) -> (max_conns: u16)
        ensures
            max_conns == self@.max_conns,
    {
        self.max_conns
    }

    /// The length of the failure window, in nanoseconds.
    pub fn fail_timeout(&self) -> (fail_timeout: u128)
        ensures
            fail_timeout == self@.fail_timeout,
    {
        self.fail_timeout
    }

    /// The number of failures in the window.
    pub fn fail_count(&self) -> (count: usize)
        ensures
            count == self@.failures.len(),
    {
        proof {
            self.fails@.to_multiset_ensures();
        }
        self.fails.len()
    }

    /// The time of the latest failure report, zero where there was none.
    pub fn last_fail(&self) -> (last_fail: u128)
        ensures
            last_fail == self@.last_fail,
    {
        self.last_fail
    }
}

impl Clone for Host {
    /// A copy with the same configuration, the same clock and the same
    /// failure window.
    fn clone(&self) -> (copy: Self)
        ensures
            copy@ == self@,
    {
        proof {
            use_type_invariant(self);
        }
        Host {
            hostname: self.hostname.clone(),
            port: self.port,
            ipv6: self.ipv6,
            weight: self.weight,
            max_fails: self.max_fails,
            max_conns: self.max_conns,
            fail_timeout: self.fail_timeout,
            clock: self.clock.clone(),
            fails: self.fails.clone(),
            last_fail: self.last_fail,
        }
    }
}

impl PartialEq for Host {
    /// Two hosts are equal when hostname, port, weight, failure limit and
    /// failure timeout agree, whatever their health state.
    fn eq(&self, other: &Self) -> (equal: bool) {
        self.hostname == other.hostname && self.port == other.port && self.weight == other.weight
            && self.max_fails == other.max_fails && self.fail_timeout == other.fail_timeout
    }
}

impl PartialEqSpecImpl for Host {
    open spec fn obeys_eq_spec() -> bool {
        true
    }

    open spec fn eq_spec(&self, other: &Self) -> bool {
        self@.same_identity(other@)
    }
}

/// Builds a host field by field, starting from the defaults of `Host::new`.
pub struct HostBuilder {
    host: Host,
}

impl View for HostBuilder {
    type V = HostView;

    closed spec fn view(&self) -> HostView {
        self.host@
    }
}

impl HostBuilder {
    #[verifier::type_invariant]
    spec fn well_formed(&self) -> bool {
        self.host.fails@.len() == 0
    }

    /// The host as built so far.
    pub fn build(self) -> (host: Host)
        ensures
            host@ == self@,
    {
        self.host
    }

    pub fn with_ipv6(self, value: bool) -> (builder: Self)
        ensures
            builder@ == (HostView { ipv6: value, ..self@ }),
    {
        proof {
            use_type_invariant(&self);
            use_type_invariant(&self.host);
        }
        let mut builder = self;
        builder.host.ipv6 = value;
        builder
    }

    pub fn with_weight(self, weight: u8) -> (builder: Self)
        ensures
            builder@ == (HostView { weight, ..self@ }),
    {
        proof {
            use_type_invariant(&self);
            use_type_invariant(&self.host);
        }
        let mut builder = self;
        builder.host.weight = weight;
        builder
    }

    pub fn with_max_fails(self, max_fails: u8) -> (builder: Self)
        ensures
            builder@ == (HostView { max_fails, ..self@ }),
    {
        proof {
            use_type_invariant(&self);
            use_type_invariant(&self.host);
        }
        let mut builder = self;
        builder.host.max_fails = max_fails;
        builder
    }

    pub fn with_max_conns(self, max_conns: u16) -> (builder: Self)
        ensures
            builder@ == (HostView { max_conns, ..self@ }),
    {
        proof {
            use_type_invariant(&self);
            use_type_invariant(&self.host);
        }
        let mut builder = self;
        builder.host.max_conns = max_conns;
        builder
    }

    /// Sets the length of the failure window, in nanoseconds.
    pub fn with_fail_timeout(self, fail_timeout: u128) -> (builder: Self)
        ensures
            builder@ == (HostView { fail_timeout, ..self@ }),
    {
        proof {
            use_type_invariant(&self);
            use_type_invariant(&self.host);
        }
        let mut builder = self;
        builder.host.fail_timeout = fail_timeout;
        builder
    }
}

} // verus!
