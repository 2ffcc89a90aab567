use proximity::bootstrap::{
    assign_upstreams, build_upstream, find_last_named, host_from_config, init, init_upstreams,
    is_unweighted, InitializationError,
};
use proximity::config;
use proximity::upstream::sampler::{AnySampler, WeightedError};

const SECOND: u128 = 1_000_000_000;

fn host(name: &str, port: u16, weight: Option<u8>) -> config::Host {
    config::Host {
        host: name.to_string(),
        port,
        ipv6: false,
        weight,
        max_fails: 1,
        max_conns: u16::MAX,
        fail_timeout: 10 * SECOND,
    }
}

fn group(name: &str, hosts: Vec<config::Host>, resolver: &str) -> config::Upstream {
    config::Upstream { name: name.to_string(), hosts, resolver: resolver.to_string() }
}

fn names(list: &[&str]) -> Vec<String> {
    list.iter().map(|name| name.to_string()).collect()
}

#[test]
fn last_of_equal_names_is_found() {
    let list = names(&["a", "b", "a", "c"]);
    assert_eq!(find_last_named(&list, &"a".to_string()), Some(2));
    assert_eq!(find_last_named(&list, &"b".to_string()), Some(1));
    assert_eq!(find_last_named(&list, &"c".to_string()), Some(3));
    assert_eq!(find_last_named(&list, &"d".to_string()), None);
    assert_eq!(find_last_named(&vec![], &"a".to_string()), None);
}

#[test]
fn host_is_built_from_its_configuration() {
    let conf = config::Host {
        host: "backend".to_string(),
        port: 8443,
        ipv6: true,
        weight: Some(4),
        max_fails: 3,
        max_conns: 77,
        fail_timeout: 5 * SECOND,
    };
    let built = host_from_config(&conf);
    assert_eq!(built.hostname(), "backend");
    assert_eq!(built.port(), 8443);
    assert!(built.ipv6());
    assert_eq!(built.weight(), 4);
    assert_eq!(built.max_fails(), 3);
    assert_eq!(built.max_conns(), 77);
    assert_eq!(built.fail_timeout(), 5 * SECOND);
    assert_eq!(built.fail_count(), 0);
}

#[test]
fn host_without_weight_counts_as_one() {
    assert_eq!(host_from_config(&host("a", 1, None)).weight(), 1);
    assert_eq!(host_from_config(&host("a", 1, Some(0))).weight(), 0);
}

#[test]
fn hosts_are_unweighted_only_if_none_states_a_weight() {
    assert!(is_unweighted(&vec![]));
    assert!(is_unweighted(&vec![host("a", 1, None), host("b", 2, None)]));
    assert!(!is_unweighted(&vec![host("a", 1, None), host("b", 2, Some(1))]));
}

#[test]
fn group_without_weights_is_sampled_round_robin() {
    let conf = group("web", vec![host("a", 1, None), host("b", 2, None), host("c", 3, None)], "dns");
    let mut planned = build_upstream(&conf, &names(&["other", "dns"])).unwrap();
    assert_eq!(planned.resolver, 1);
    assert!(matches!(planned.upstream.next().port(), 1));
    assert!(matches!(planned.upstream.next().port(), 2));
    assert!(matches!(planned.upstream.next().port(), 3));
    assert!(matches!(planned.upstream.next().port(), 1));
}

#[test]
fn group_with_a_weight_is_sampled_by_weight() {
    let conf = group("web", vec![host("a", 1, Some(0)), host("b", 2, None)], "dns");
    let mut planned = build_upstream(&conf, &names(&["dns"])).unwrap();
    for _ in 0..20 {
        assert_eq!(planned.upstream.next().port(), 2);
    }
}

#[test]
fn group_with_unknown_resolver_is_rejected_first() {
    let conf = group("web", vec![], "missing");
    let error = build_upstream(&conf, &names(&["dns"])).unwrap_err();
    assert!(matches!(
        &error,
        InitializationError::ResolverNotFound { resolver } if resolver == "missing"
    ));
    assert_eq!(error.message(), "resolver [missing] not found");
}

#[test]
fn group_without_hosts_is_rejected() {
    let conf = group("web", vec![], "dns");
    let error = build_upstream(&conf, &names(&["dns"])).unwrap_err();
    assert!(matches!(
        &error,
        InitializationError::EmptyHostList { upstream } if upstream == "web"
    ));
    assert_eq!(error.message(), "upstream web host list is empty");
}

#[test]
fn group_whose_weights_are_all_zero_is_rejected() {
    let conf = group("web", vec![host("a", 1, Some(0)), host("b", 2, Some(0))], "dns");
    let error = build_upstream(&conf, &names(&["dns"])).unwrap_err();
    assert!(matches!(
        &error,
        InitializationError::IncorrectWeights { upstream, cause }
            if upstream == "web" && *cause == WeightedError::AllWeightsZero
    ));
    assert_eq!(
        error.message(),
        "upstream web host weights are incorrect: All weights are zero in distribution"
    );
}

#[test]
fn groups_are_set_up_in_order_until_one_fails() {
    let confs = vec![
        group("one", vec![host("a", 1, None)], "dns"),
        group("two", vec![], "dns"),
        group("three", vec![host("b", 2, None)], "missing"),
    ];
    let error = init_upstreams(&confs, &names(&["dns"])).err().unwrap();
    assert_eq!(error.message(), "upstream two host list is empty");

    let planned = init_upstreams(&confs[..1].iter().map(|c| group(&c.name, vec![host("a", 1, None)], "dns")).collect(), &names(&["dns"]))
        .ok()
        .unwrap();
    assert_eq!(planned.len(), 1);
}

#[test]
fn servers_are_given_the_last_group_of_their_name() {
    let assigned = assign_upstreams(&names(&["web", "db", "web"]), &names(&["web", "db", "web"]));
    assert_eq!(assigned.ok().unwrap(), vec![2, 1, 2]);
}

#[test]
fn server_with_unknown_group_is_rejected() {
    let error = assign_upstreams(&names(&["web", "cache", "nothing"]), &names(&["web"]))
        .err()
        .unwrap();
    assert!(matches!(
        &error,
        InitializationError::UpstreamNotFound { upstream } if upstream == "cache"
    ));
    assert_eq!(error.message(), "upstream [cache] not found");
}

#[test]
fn init_plans_groups_and_servers() {
    let confs = vec![
        group("web", vec![host("a", 80, None), host("b", 81, None)], "dns"),
        group("db", vec![host("c", 5432, Some(3))], "local"),
    ];
    let plan = init(&confs, &names(&["dns", "local"]), &names(&["db", "web", "db"])).ok().unwrap();
    assert_eq!(plan.servers, vec![1, 0, 1]);
    assert_eq!(plan.upstreams.len(), 2);
    assert_eq!(plan.upstreams[0].resolver, 0);
    assert_eq!(plan.upstreams[1].resolver, 1);
    let mut upstreams = plan.upstreams;
    assert_eq!(upstreams[0].upstream.next().port(), 80);
    assert_eq!(upstreams[0].upstream.next().port(), 81);
    assert_eq!(upstreams[1].upstream.next().port(), 5432);
}

#[test]
fn init_reports_a_group_before_a_server() {
    let confs = vec![group("web", vec![], "dns")];
    let error = init(&confs, &names(&["dns"]), &names(&["nothing"])).err().unwrap();
    assert_eq!(error.message(), "upstream web host list is empty");

    let confs = vec![group("web", vec![host("a", 80, None)], "dns")];
    let error = init(&confs, &names(&["dns"]), &names(&["nothing"])).err().unwrap();
    assert_eq!(error.message(), "upstream [nothing] not found");
}

#[test]
fn init_of_nothing_plans_nothing() {
    let plan = init(&vec![], &vec![], &vec![]).ok().unwrap();
    assert!(plan.upstreams.is_empty());
    assert!(plan.servers.is_empty());
}

#[test]
fn planned_sampler_is_of_the_configured_kind() {
    let conf = group("web", vec![host("a", 1, None)], "dns");
    let planned = build_upstream(&conf, &names(&["dns"])).unwrap();
    let _ = planned;
    let weighted = AnySampler::Weighted(
        proximity::upstream::sampler::WeightedSampler::new(vec![1]).unwrap(),
    );
    assert!(matches!(weighted, AnySampler::Weighted(_)));
}
