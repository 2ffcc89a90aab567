use proximity::upstream::host::DEFAULT_FAIL_TIMEOUT;
use proximity::upstream::Host;

const SECOND: u128 = 1_000_000_000;

#[test]
fn new_host_has_the_defaults() {
    let host = Host::new("localhost", 8080);
    assert_eq!(host.hostname(), "localhost");
    assert_eq!(host.port(), 8080);
    assert!(!host.ipv6());
    assert_eq!(host.weight(), 1);
    assert_eq!(host.max_fails(), 1);
    assert_eq!(host.max_conns(), 1024);
    assert_eq!(host.fail_timeout(), 30 * SECOND);
    assert_eq!(DEFAULT_FAIL_TIMEOUT, 30 * SECOND);
    assert_eq!(host.fail_count(), 0);
    assert_eq!(host.last_fail(), 0);
}

#[test]
fn builder_sets_each_field() {
    let host = Host::builder("backend", 9000)
        .with_ipv6(true)
        .with_weight(7)
        .with_max_fails(3)
        .with_max_conns(55)
        .with_fail_timeout(10 * SECOND)
        .build();
    assert_eq!(host.hostname(), "backend");
    assert_eq!(host.port(), 9000);
    assert!(host.ipv6());
    assert_eq!(host.weight(), 7);
    assert_eq!(host.max_fails(), 3);
    assert_eq!(host.max_conns(), 55);
    assert_eq!(host.fail_timeout(), 10 * SECOND);
    assert_eq!(host.fail_count(), 0);
}

#[test]
fn builder_without_changes_builds_the_default_host() {
    let built = Host::builder("localhost", 80).build();
    assert_eq!(built.max_conns(), 1024);
    assert_eq!(built.fail_timeout(), 30 * SECOND);
    assert!(built == Host::new("localhost", 80));
}

#[test]
fn failures_within_the_timeout_all_count() {
    let mut host = Host::builder("localhost", 80).with_fail_timeout(10 * SECOND).build();
    let n = 5;
    for i in 0..n {
        host.failed_at(100 * SECOND + i as u128 * SECOND);
        assert_eq!(host.fail_count(), i + 1);
    }
    assert_eq!(host.fail_count(), n);
    assert_eq!(host.last_fail(), 104 * SECOND);
}

#[test]
fn failure_after_a_quiet_period_stands_alone() {
    let mut host = Host::builder("localhost", 80).with_fail_timeout(10 * SECOND).build();
    for i in 0..4u128 {
        host.failed_at(100 * SECOND + i * SECOND);
    }
    assert_eq!(host.fail_count(), 4);
    host.failed_at(103 * SECOND + 10 * SECOND + 1);
    assert_eq!(host.fail_count(), 1);
    assert_eq!(host.last_fail(), 113 * SECOND + 1);
}

#[test]
fn failure_exactly_one_timeout_old_still_counts() {
    let mut host = Host::builder("localhost", 80).with_fail_timeout(10).build();
    host.failed_at(100);
    host.failed_at(110);
    assert_eq!(host.fail_count(), 2);
    host.failed_at(111);
    assert_eq!(host.fail_count(), 2);
}

#[test]
fn only_the_stale_failures_are_evicted() {
    let mut host = Host::builder("localhost", 80).with_fail_timeout(10).build();
    host.failed_at(0);
    host.failed_at(6);
    host.failed_at(12);
    assert_eq!(host.fail_count(), 2);
    host.failed_at(17);
    assert_eq!(host.fail_count(), 2);
    host.failed_at(22);
    assert_eq!(host.fail_count(), 3);
}

#[test]
fn failure_before_the_timeout_has_passed_since_the_start_evicts_nothing() {
    let mut host = Host::new("localhost", 80);
    host.failed_at(1);
    host.failed_at(2);
    host.failed_at(3);
    assert_eq!(host.fail_count(), 3);
}

#[test]
fn a_time_that_goes_back_is_recorded_in_its_place() {
    let mut host = Host::builder("localhost", 80).with_fail_timeout(10).build();
    host.failed_at(50);
    host.failed_at(45);
    assert_eq!(host.fail_count(), 2);
    assert_eq!(host.last_fail(), 45);
    host.failed_at(56);
    assert_eq!(host.fail_count(), 2);
    host.failed_at(61);
    assert_eq!(host.fail_count(), 2);
}

#[test]
fn zero_timeout_keeps_only_failures_of_the_same_instant() {
    let mut host = Host::builder("localhost", 80).with_fail_timeout(0).build();
    host.failed_at(5);
    host.failed_at(5);
    assert_eq!(host.fail_count(), 2);
    host.failed_at(6);
    assert_eq!(host.fail_count(), 1);
}

#[test]
fn failed_reads_the_clock() {
    let mut host = Host::new("localhost", 80);
    host.failed();
    assert_eq!(host.fail_count(), 1);
    let first = host.last_fail();
    host.failed();
    assert_eq!(host.fail_count(), 2);
    assert!(host.last_fail() >= first);
}

#[test]
fn equality_goes_by_identity_not_by_health() {
    let mut failing = Host::builder("localhost", 8080).with_weight(2).build();
    let healthy = Host::builder("localhost", 8080).with_weight(2).build();
    failing.failed_at(7);
    failing.failed_at(9);
    assert!(failing == healthy);
    assert_eq!(failing.fail_count(), 2);
    assert_eq!(healthy.fail_count(), 0);
}

#[test]
fn equality_ignores_address_family_and_connection_limit() {
    let one = Host::builder("localhost", 8080).with_ipv6(true).with_max_conns(1).build();
    let other = Host::builder("localhost", 8080).with_ipv6(false).with_max_conns(2).build();
    assert!(one == other);
}

#[test]
fn equality_tells_each_identifying_field_apart() {
    let base = Host::builder("localhost", 8080).build();
    assert!(base != Host::builder("otherhost", 8080).build());
    assert!(base != Host::builder("localhost", 8081).build());
    assert!(base != Host::builder("localhost", 8080).with_weight(2).build());
    assert!(base != Host::builder("localhost", 8080).with_max_fails(2).build());
    assert!(base != Host::builder("localhost", 8080).with_fail_timeout(1).build());
}

#[test]
fn clone_keeps_configuration_and_window() {
    let mut host = Host::builder("localhost", 8080).with_max_conns(9).with_ipv6(true).build();
    host.failed_at(3);
    let copy = host.clone();
    assert!(copy == host);
    assert_eq!(copy.max_conns(), 9);
    assert!(copy.ipv6());
    assert_eq!(copy.fail_count(), 1);
    assert_eq!(copy.last_fail(), 3);
    host.failed_at(4);
    assert_eq!(host.fail_count(), 2);
    assert_eq!(copy.fail_count(), 1);
}
