//! Setting the backend groups up from the configuration.
//!
//! Every group names its resolver, and every server names its group. Names
//! are looked up among the configured ones, the last of two equal names
//! standing for both. A group whose hosts state no weight is sampled round
//! robin; as soon as one host states a weight the group is sampled by weight,
//! a host without a weight counting as weight 1.

use crate::config;
use crate::upstream::sampler::{
    weighted_rejection, AnySampler, RoundRobinSampler, Sampler, WeightedError, WeightedSampler,
};
use crate::upstream::{Host, HostView, UpstreamImpl};
use vstd::prelude::*;

verus! {

/// Why the services could not be set up from the configuration.
#[derive(Debug)]
pub enum InitializationError {
    /// A group names a resolver that is not configured.
    ResolverNotFound { resolver: String },
    /// A group lists no host.
    EmptyHostList { upstream: String },
    /// The weights of a group's hosts cannot be sampled from.
    IncorrectWeights { upstream: String, cause: WeightedError },
    /// A server names a group that is not configured.
    UpstreamNotFound { upstream: String },
}

/// An initialization error as plain values.
pub enum InitializationErrorView {
    ResolverNotFound { resolver: Seq<char> },
    EmptyHostList { upstream: Seq<char> },
    IncorrectWeights { upstream: Seq<char>, cause: WeightedError },
    UpstreamNotFound { upstream: Seq<char> },
}

impl View for InitializationError {
    type V = InitializationErrorView;

    open spec fn view(&self) -> InitializationErrorView {
        match *self {
            InitializationError::ResolverNotFound { resolver } => {
                InitializationErrorView::ResolverNotFound { resolver: resolver@ }
            },
            InitializationError::EmptyHostList { upstream } => {
                InitializationErrorView::EmptyHostList { upstream: upstream@ }
            },
            InitializationError::IncorrectWeights { upstream, cause } => {
                InitializationErrorView::IncorrectWeights { upstream: upstream@, cause }
            },
            InitializationError::UpstreamNotFound { upstream } => {
                InitializationErrorView::UpstreamNotFound { upstream: upstream@ }
            },
        }
    }
}

impl InitializationErrorView {
    /// The text shown for the error.
    pub open spec fn message(self) -> Seq<char> {
        match self {
            InitializationErrorView::ResolverNotFound { resolver } => {
                "resolver ["@ + resolver + "] not found"@
            },
            InitializationErrorView::EmptyHostList { upstream } => {
                "upstream "@ + upstream + " host list is empty"@
            },
            InitializationErrorView::IncorrectWeights { upstream, cause } => {
                "upstream "@ + upstream + " host weights are incorrect: "@ + cause.text()
            },
            InitializationErrorView::UpstreamNotFound { upstream } => {
                "upstream ["@ + upstream + "] not found"@
            },
        }
    }
}

impl InitializationError {
    /// The text shown for the error.
    pub fn message(&self) -> (text: String)
        ensures
            text@ == self@.message(),
    {
        match self {
            InitializationError::ResolverNotFound { resolver } => {
                "resolver [".to_owned().concat(resolver.as_str()).concat("] not found")
            },
            InitializationError::EmptyHostList { upstream } => {
                "upstream ".to_owned().concat(upstream.as_str()).concat(" host list is empty")
            },
            InitializationError::IncorrectWeights { upstream, cause } => {
                "upstream ".to_owned().concat(upstream.as_str()).concat(
                    " host weights are incorrect: ",
                ).concat(cause.message().as_str())
            },
            InitializationError::UpstreamNotFound { upstream } => {
                "upstream [".to_owned().concat(upstream.as_str()).concat("] not found")
            },
        }
    }
}

/// The position of the last of `names` that equals `name`.
pub open spec fn last_named(names: Seq<String>, name: Seq<char>) -> Option<int>
    decreases names.len(),
{
    if names.len() == 0 {
        None
    } else if names.last()@ == name {
        Some(names.len() - 1)
    } else {
        last_named(names.drop_last(), name)
    }
}

/// Looks `name` up among `names`. Of two equal names the later one is found.
pub fn find_last_named(names: &Vec<String>, name: &String) -> (found: Option<usize>)
    ensures
        found is Some <==> last_named(names@, name@) is Some,
        found matches Some(at) ==> last_named(names@, name@) == Some(at as int) && at
            < names@.len(),
{
    let mut at: usize = names.len();
    proof {
        assert(names@.subrange(0, at as int) =~= names@);
    }
    while at > 0
        invariant
            at <= names.len(),
            last_named(names@, name@) == last_named(names@.subrange(0, at as int), name@),
        decreases at,
    {
        proof {
            assert(names@.subrange(0, at as int).drop_last() =~= names@.subrange(0, at - 1));
        }
        if names[at - 1] == *name {
            return Some(at - 1);
        }
        at -= 1;
    }
    None
}

/// The weight that a configured host counts with: its own, or 1 where it states none.
pub open spec fn weight_of(conf: config::Host) -> u8 {
    match conf.weight {
        Some(weight) => weight,
        None => 1,
    }
}

/// The host that is built from a configured one.
pub open spec fn host_of(conf: config::Host) -> HostView {
    HostView {
        ipv6: conf.ipv6,
        weight: weight_of(conf),
        max_fails: conf.max_fails,
        max_conns: conf.max_conns,
        fail_timeout: conf.fail_timeout,
        ..HostView::fresh(conf.host@, conf.port)
    }
}

/// Whether none of the configured hosts states a weight.
pub open spec fn unweighted(hosts: Seq<config::Host>) -> bool {
    forall|i: int| 0 <= i < hosts.len() ==> hosts[i].weight is None
}

/// The weights that the configured hosts count with, in their order.
pub open spec fn weights_of(hosts: Seq<config::Host>) -> Seq<usize> {
    hosts.map_values(|conf: config::Host| weight_of(conf) as usize)
}

/// Why a configured group cannot be set up, or `None` where it can. The
/// resolver is looked up first, then the hosts are counted, then their
/// weights are judged.
pub open spec fn upstream_rejection(
    conf: config::Upstream,
    resolvers: Seq<String>,
) -> Option<InitializationErrorView> {
    if last_named(resolvers, conf.resolver@) is None {
        Some(InitializationErrorView::ResolverNotFound { resolver: conf.resolver@ })
    } else if conf.hosts@.len() == 0 {
        Some(InitializationErrorView::EmptyHostList { upstream: conf.name@ })
    } else if !unweighted(conf.hosts@) && weighted_rejection(weights_of(conf.hosts@)) is Some {
        Some(
            InitializationErrorView::IncorrectWeights {
                upstream: conf.name@,
                cause: weighted_rejection(weights_of(conf.hosts@))->Some_0,
            },
        )
    } else {
        None
    }
}

/// A backend group that has been set up, and the position of its resolver
/// among the configured ones.
#[derive(Debug)]
pub struct PlannedUpstream {
    pub upstream: UpstreamImpl<AnySampler>,
    pub resolver: usize,
}

impl PlannedUpstream {
    /// Whether this is the group that `conf` describes: its hosts are the
    /// configured ones in their order, its sampler is a fresh round robin
    /// over them where none states a weight and a weighted one over their
    /// weights otherwise, and its resolver is the one that `conf` names.
    pub open spec fn realizes(self, conf: config::Upstream, resolvers: Seq<String>) -> bool {
        &&& self.upstream.well_formed()
        &&& self.upstream.hosts().len() == conf.hosts@.len()
        &&& forall|i: int|
            0 <= i < conf.hosts@.len() ==> (#[trigger] self.upstream.hosts()[i])@ == host_of(
                conf.hosts@[i],
            )
        &&& last_named(resolvers, conf.resolver@) == Some(self.resolver as int)
        &&& if unweighted(conf.hosts@) {
            self.upstream.sampler() matches AnySampler::RoundRobin(sampler) && sampler.cursor()
                == 0
        } else {
            self.upstream.sampler() matches AnySampler::Weighted(sampler) && sampler.weights()
                == weights_of(conf.hosts@)
        }
    }
}

/// The host that `conf` describes.
pub fn host_from_config(conf: &config::Host) -> (host: Host)
    ensures
        host@ == host_of(*conf),
{
    let weight = match conf.weight {
        Some(weight) => weight,
        None => 1,
    };
    Host::builder(conf.host.as_str(), conf.port).with_ipv6(conf.ipv6).with_fail_timeout(
        conf.fail_timeout,
    ).with_weight(weight).with_max_fails(conf.max_fails).with_max_conns(conf.max_conns).build()
}

/// Whether none of `hosts` states a weight.
pub fn is_unweighted(hosts: &Vec<config::Host>) -> (none: bool)
    ensures
        none == unweighted(hosts@),
{
    let mut i: usize = 0;
    while i < hosts.len()
        invariant
            i <= hosts.len(),
            forall|j: int| 0 <= j < i ==> hosts@[j].weight is None,
        decreases hosts.len() - i,
    {
        if hosts[i].weight.is_some() {
            return false;
        }
        i += 1;
    }
    true
}

/// Sets up the group that `conf` describes, with `resolvers` as the names of
/// the configured resolvers.
pub fn build_upstream(conf: &config::Upstream, resolvers: &Vec<String>) -> (result: Result<
    PlannedUpstream,
    InitializationError,
>)
    ensures
        match upstream_rejection(*conf, resolvers@) {
            Some(rejection) => result matches Err(error) && error@ == rejection,
            None => result matches Ok(planned) && planned.realizes(*conf, resolvers@),
        },
{
    let resolver = match find_last_named(resolvers, &conf.resolver) {
        Some(resolver) => resolver,
        None => {
            return Err(InitializationError::ResolverNotFound { resolver: conf.resolver.clone() });
        },
    };
    if conf.hosts.len() == 0 {
        return Err(InitializationError::EmptyHostList { upstream: conf.name.clone() });
    }
    let mut hosts: Vec<Host> = Vec::new();
    let mut weights: Vec<usize> = Vec::new();
    let mut i: usize = 0;
    while i < conf.hosts.len()
        invariant
            i <= conf.hosts.len(),
            hosts@.len() == i,
            weights@.len() == i,
            forall|j: int| 0 <= j < i ==> (#[trigger] hosts@[j])@ == host_of(conf.hosts@[j]),
            forall|j: int| 0 <= j < i ==> #[trigger] weights@[j] == weight_of(conf.hosts@[j]),
        decreases conf.hosts.len() - i,
    {
        let host = host_from_config(&conf.hosts[i]);
        weights.push(host.weight() as usize);
        hosts.push(host);
        i += 1;
    }
    proof {
        assert(weights@ =~= weights_of(conf.hosts@));
    }
    let sampler = if is_unweighted(&conf.hosts) {
        match RoundRobinSampler::new(conf.hosts.len()) {
            Ok(sampler) => AnySampler::RoundRobin(sampler),
            Err(_) => unreached(),
        }
    } else {
        match WeightedSampler::new(weights) {
            Ok(sampler) => AnySampler::Weighted(sampler),
            Err(cause) => {
                return Err(
                    InitializationError::IncorrectWeights { upstream: conf.name.clone(), cause },
                );
            },
        }
    };
    Ok(PlannedUpstream { upstream: UpstreamImpl::new(hosts, sampler), resolver })
}

/// The first reason, in the order of the groups, why the groups cannot all
/// be set up, or `None` where they can.
pub open spec fn first_upstream_rejection(
    confs: Seq<config::Upstream>,
    resolvers: Seq<String>,
) -> Option<InitializationErrorView>
    decreases confs.len(),
{
    if confs.len() == 0 {
        None
    } else {
        match first_upstream_rejection(confs.drop_last(), resolvers) {
            Some(rejection) => Some(rejection),
            None => upstream_rejection(confs.last(), resolvers),
        }
    }
}

/// The first reason, in the order of the servers, why a server cannot be
/// given its group, or `None` where every server can.
pub open spec fn first_server_rejection(
    servers: Seq<String>,
    upstreams: Seq<String>,
) -> Option<InitializationErrorView>
    decreases servers.len(),
{
    if servers.len() == 0 {
        None
    } else {
        match first_server_rejection(servers.drop_last(), upstreams) {
            Some(rejection) => Some(rejection),
            None => if last_named(upstreams, servers.last()@) is None {
                Some(InitializationErrorView::UpstreamNotFound { upstream: servers.last()@ })
            } else {
                None
            },
        }
    }
}

/// The names of the configured groups, in their order.
pub open spec fn names_of(confs: Seq<config::Upstream>) -> Seq<String> {
    confs.map_values(|conf: config::Upstream| conf.name)
}

/// What the proxy runs on: the groups, and for each server the position of
/// its group among them.
#[derive(Debug)]
pub struct Plan {
    pub upstreams: Vec<PlannedUpstream>,
    pub servers: Vec<usize>,
}

impl Plan {
    /// Whether this is the plan that the configuration describes.
    pub open spec fn realizes(
        self,
        confs: Seq<config::Upstream>,
        resolvers: Seq<String>,
        servers: Seq<String>,
    ) -> bool {
        &&& self.upstreams@.len() == confs.len()
        &&& forall|i: int|
            0 <= i < confs.len() ==> (#[trigger] self.upstreams@[i]).realizes(confs[i], resolvers)
        &&& self.servers@.len() == servers.len()
        &&& forall|i: int|
            0 <= i < servers.len() ==> last_named(names_of(confs), servers[i]@) == Some(
                #[trigger] self.servers@[i] as int,
            )
    }
}

/// Sets up every group of `confs`, in their order, and stops at the first
/// that cannot be set up.
pub fn init_upstreams(confs: &Vec<config::Upstream>, resolvers: &Vec<String>) -> (result: Result<
    Vec<PlannedUpstream>,
    InitializationError,
>)
    ensures
        match first_upstream_rejection(confs@, resolvers@) {
            Some(rejection) => result matches Err(error) && error@ == rejection,
            None => result matches Ok(planned) && planned@.len() == confs@.len() && forall|i: int|
                0 <= i < confs@.len() ==> (#[trigger] planned@[i]).realizes(confs@[i], resolvers@),
        },
{
    let mut planned: Vec<PlannedUpstream> = Vec::new();
    let mut i: usize = 0;
    while i < confs.len()
        invariant
            i <= confs.len(),
            planned@.len() == i,
            first_upstream_rejection(confs@.subrange(0, i as int), resolvers@) is None,
            forall|j: int|
                0 <= j < i ==> (#[trigger] planned@[j]).realizes(confs@[j], resolvers@),
        decreases confs.len() - i,
    {
        proof {
            assert(confs@.subrange(0, i + 1).drop_last() =~= confs@.subrange(0, i as int));
        }
        match build_upstream(&confs[i], resolvers) {
            Ok(upstream) => planned.push(upstream),
            Err(error) => {
                proof {
                    lemma_rejection_stays(confs@, resolvers@, i + 1);
                }
                return Err(error);
            },
        }
        i += 1;
    }
    proof {
        assert(confs@.subrange(0, i as int) =~= confs@);
    }
    Ok(planned)
}

/// A reason found among the first `upto` groups is the reason found among all.
proof fn lemma_rejection_stays(confs: Seq<config::Upstream>, resolvers: Seq<String>, upto: int)
    requires
        0 <= upto <= confs.len(),
        first_upstream_rejection(confs.subrange(0, upto), resolvers) is Some,
    ensures
        first_upstream_rejection(confs, resolvers) == first_upstream_rejection(
            confs.subrange(0, upto),
            resolvers,
        ),
    decreases confs.len() - upto,
{
    if upto == confs.len() {
        assert(confs.subrange(0, upto) =~= confs);
    } else {
        assert(confs.subrange(0, upto + 1).drop_last() =~= confs.subrange(0, upto));
        lemma_rejection_stays(confs, resolvers, upto + 1);
    }
}

/// A missing group found among the first `upto` servers is the one found among all.
proof fn lemma_server_rejection_stays(servers: Seq<String>, upstreams: Seq<String>, upto: int)
    requires
        0 <= upto <= servers.len(),
        first_server_rejection(servers.subrange(0, upto), upstreams) is Some,
    ensures
        first_server_rejection(servers, upstreams) == first_server_rejection(
            servers.subrange(0, upto),
            upstreams,
        ),
    decreases servers.len() - upto,
{
    if upto == servers.len() {
        assert(servers.subrange(0, upto) =~= servers);
    } else {
        assert(servers.subrange(0, upto + 1).drop_last() =~= servers.subrange(0, upto));
        lemma_server_rejection_stays(servers, upstreams, upto + 1);
    }
}

/// Gives every server the position of the group it names, in the order of
/// the servers, and stops at the first that names no configured group.
pub fn assign_upstreams(servers: &Vec<String>, upstreams: &Vec<String>) -> (result: Result<
    Vec<usize>,
    InitializationError,
>)
    ensures
        match first_server_rejection(servers@, upstreams@) {
            Some(rejection) => result matches Err(error) && error@ == rejection,
            None => result matches Ok(assigned) && assigned@.len() == servers@.len() && forall|
                i: int,
            |
                0 <= i < servers@.len() ==> last_named(upstreams@, servers@[i]@) == Some(
                    #[trigger] assigned@[i] as int,
                ),
        },
{
    let mut assigned: Vec<usize> = Vec::new();
    let mut i: usize = 0;
    while i < servers.len()
        invariant
            i <= servers.len(),
            assigned@.len() == i,
            first_server_rejection(servers@.subrange(0, i as int), upstreams@) is None,
            forall|j: int|
                0 <= j < i ==> last_named(upstreams@, servers@[j]@) == Some(
                    #[trigger] assigned@[j] as int,
                ),
        decreases servers.len() - i,
    {
        proof {
            assert(servers@.subrange(0, i + 1).drop_last() =~= servers@.subrange(0, i as int));
        }
        match find_last_named(upstreams, &servers[i]) {
            Some(at) => assigned.push(at),
            None => {
                proof {
                    lemma_server_rejection_stays(servers@, upstreams@, i + 1);
                }
                return Err(InitializationError::UpstreamNotFound { upstream: servers[i].clone() });
            },
        }
        i += 1;
    }
    proof {
        assert(servers@.subrange(0, i as int) =~= servers@);
    }
    Ok(assigned)
}

/// Why the configuration cannot be served, or `None` where it can: the first
/// group that cannot be set up, else the first server without its group.
pub open spec fn init_rejection(
    confs: Seq<config::Upstream>,
    resolvers: Seq<String>,
    servers: Seq<String>,
) -> Option<InitializationErrorView> {
    match first_upstream_rejection(confs, resolvers) {
        Some(rejection) => Some(rejection),
        None => first_server_rejection(servers, names_of(confs)),
    }
}

/// Sets up the groups of `confs` and gives each of `servers`, the names of
/// the groups that the servers route to, its group. `resolvers` are the
/// names of the configured resolvers.
pub fn init(confs: &Vec<config::Upstream>, resolvers: &Vec<String>, servers: &Vec<String>) -> (result:
    Result<Plan, InitializationError>)
    ensures
        match init_rejection(confs@, resolvers@, servers@) {
            Some(rejection) => result matches Err(error) && error@ == rejection,
            None => result matches Ok(plan) && plan.realizes(confs@, resolvers@, servers@),
        },
{
    let upstreams = match init_upstreams(confs, resolvers) {
        Ok(upstreams) => upstreams,
        Err(error) => {
            return Err(error);
        },
    };
    let mut names: Vec<String> = Vec::new();
    let mut i: usize = 0;
    while i < confs.len()
        invariant
            i <= confs.len(),
            names@.len() == i,
            forall|j: int| 0 <= j < i ==> names@[j] == confs@[j].name,
        decreases confs.len() - i,
    {
        names.push(confs[i].name.clone());
        i += 1;
    }
    proof {
        assert(names@ =~= names_of(confs@));
    }
    match assign_upstreams(servers, &names) {
        Ok(servers) => Ok(Plan { upstreams, servers }),
        Err(error) => Err(error),
    }
}

} // verus!
