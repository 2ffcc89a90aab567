use proximity::upstream::sampler::{RoundRobinSampler, WeightedSampler};
use proximity::upstream::{endpoint, Host, UpstreamError, UpstreamImpl};

const SECOND: u128 = 1_000_000_000;

#[test]
fn test_upstream() {
    let hosts = vec![
        Host::builder("localhost", 8080)
            .with_weight(2)
            .with_max_conns(1024)
            .with_fail_timeout(30 * SECOND)
            .build(),
        Host::builder("localhost", 8081)
            .with_weight(1)
            .with_max_conns(1024)
            .with_fail_timeout(10 * SECOND)
            .build(),
    ];

    let mut us = UpstreamImpl::new(hosts.clone(), RoundRobinSampler::new(hosts.len()).unwrap());

    let resolve = |_: &str| -> Result<[u8; 4], String> { Ok([127, 0, 0, 1]) };

    let port = us.next().port();
    assert_eq!(endpoint(port, resolve("localhost")).unwrap(), ([127, 0, 0, 1], 8080));
    let port = us.next().port();
    assert_eq!(endpoint(port, resolve("localhost")).unwrap(), ([127, 0, 0, 1], 8081));
    let port = us.next().port();
    assert_eq!(endpoint(port, resolve("localhost")).unwrap(), ([127, 0, 0, 1], 8080));
    let port = us.next().port();
    assert_eq!(endpoint(port, resolve("localhost")).unwrap(), ([127, 0, 0, 1], 8081));
}

#[test]
fn round_robin_upstream_visits_each_host_once_in_order() {
    let n = 5usize;
    let hosts: Vec<Host> = (0..n).map(|i| Host::new("backend", 9000 + i as u16)).collect();
    let mut upstream = UpstreamImpl::new(hosts, RoundRobinSampler::new(n).unwrap());
    let mut ports = vec![];
    for _ in 0..n {
        let host = upstream.next();
        let (address, port) = endpoint(host.port(), Ok::<_, String>("127.0.0.1")).unwrap();
        assert_eq!(address, "127.0.0.1");
        ports.push(port);
    }
    assert_eq!(ports, vec![9000, 9001, 9002, 9003, 9004]);
}

#[test]
fn next_hands_out_the_host_in_the_sampled_slot() {
    let hosts = vec![Host::new("first", 1), Host::new("second", 2), Host::new("third", 3)];
    let mut upstream = UpstreamImpl::new(hosts, WeightedSampler::new(vec![0, 0, 5]).unwrap());
    for _ in 0..10 {
        let host = upstream.next();
        assert_eq!(host.hostname(), "third");
        assert_eq!(host.port(), 3);
    }
}

#[test]
fn failed_resolution_is_handed_on() {
    let result = endpoint::<[u8; 4]>(8080, Err("no such host".to_string()));
    assert_eq!(result, Err(UpstreamError::Resolution("no such host".to_string())));
}

#[test]
fn resolved_address_is_paired_with_the_port() {
    assert_eq!(endpoint(443, Ok::<_, String>([10u8, 0, 0, 1])), Ok(([10u8, 0, 0, 1], 443)));
}
