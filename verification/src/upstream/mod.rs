//! Backend groups: hosts, their health, and the choice of the next host.

pub mod host;
pub mod sampler;

pub use host::{Host, HostBuilder, HostView};

use sampler::{round_robin_run, RoundRobinSampler, Sampler};
use vstd::prelude::*;

verus! {

/// Why no address could be given for the next connection.
#[derive(Debug, PartialEq, Eq)]
pub enum UpstreamError {
    /// The name of the chosen host did not resolve; the text is the
    /// resolver's account of it.
    Resolution(String),
}

/// A group of backend hosts behind one sampling strategy.
#[derive(Debug)]
pub struct UpstreamImpl<S: Sampler> {
    hosts: Vec<Host>,
    sampler: S,
}

/// The endpoint to connect to, given the port of the chosen host and what
/// resolving its name came to. A failed resolution is handed on as it is,
/// with no second attempt.
pub fn endpoint<A>(port: u16, resolved: Result<A, String>) -> (result: Result<
    (A, u16),
    UpstreamError,
>)
    ensures
        result == endpoint_of(port, resolved),
{
    match resolved {
        Ok(address) => Ok((address, port)),
        Err(reason) => Err(UpstreamError::Resolution(reason)),
    }
}

/// What `endpoint` returns.
pub open spec fn endpoint_of<A>(port: u16, resolved: Result<A, String>) -> Result<
    (A, u16),
    UpstreamError,
> {
    match resolved {
        Ok(address) => Ok((address, port)),
        Err(reason) => Err(UpstreamError::Resolution(reason)),
    }
}

impl<S: Sampler> UpstreamImpl<S> {
    /// The invariant of a group: the sampler has one slot for each host, so
    /// that every slot it hands out names a host.
    pub open spec fn well_formed(&self) -> bool {
        self.sampler().cardinality() == self.hosts().len()
    }

    /// The hosts of the group, in their order.
    pub closed spec fn hosts(&self) -> Seq<Host> {
        self.hosts@
    }

    /// The sampler that picks among the hosts.
    pub closed spec fn sampler(&self) -> S {
        self.sampler
    }

    /// A group of `hosts` among which `sampler` picks. The sampler must have
    /// one slot for each host, no more and no fewer.
    pub fn new(hosts: Vec<Host>, sampler: S) -> (upstream: Self)
        requires
            sampler.cardinality() == hosts@.len(),
        ensures
            upstream.well_formed(),
            upstream.hosts() == hosts@,
            upstream.sampler() == sampler,
    {
        UpstreamImpl { hosts, sampler }
    }

    /// Picks the host for the next connection: the one in the slot that the
    /// sampler hands out. The hosts stay as they are.
    pub fn next(&mut self) -> (host: &Host)
        requires
            old(self).well_formed(),
        ensures
            final(self).well_formed(),
            final(self).hosts() == old(self).hosts(),
            exists|index: usize|
                index < old(self).hosts().len() && *host == old(self).hosts()[index as int]
                    && old(self).sampler().hands_out(index, &final(self).sampler()),
    {
        let index = self.sampler.sample();
        &self.hosts[index]
    }
}

/// What `count` successive rounds of picking a host and resolving its name
/// come to on a round-robin group whose cursor stands at `cursor`, where
/// every name resolves to `address`.
pub open spec fn round_robin_endpoints<A>(
    hosts: Seq<HostView>,
    cursor: nat,
    count: nat,
    address: A,
) -> Seq<Result<(A, u16), UpstreamError>> {
    round_robin_run(hosts.len(), cursor, count).map_values(
        |slot: nat| endpoint_of(hosts[slot as int].port, Ok::<A, String>(address)),
    )
}

/// Law of a round-robin group: as many picks as there are hosts, from a
/// fresh sampler, come to every host exactly once, in the order in which the
/// hosts were given. Where every name resolves to the same address, the
/// endpoints handed out are that address with the port of each host in turn.
pub proof fn lemma_round_robin_visits_hosts_in_order<A>(hosts: Seq<HostView>, address: A)
    requires
        hosts.len() > 0,
    ensures
        round_robin_run(hosts.len(), 0, hosts.len()) == Seq::new(hosts.len(), |i: int| i as nat),
        round_robin_endpoints(hosts, 0, hosts.len(), address) == hosts.map_values(
            |host: HostView| Ok::<(A, u16), UpstreamError>((address, host.port)),
        ),
{
    let n = hosts.len();
    sampler::lemma_round_robin_run(n, 0, n);
    assert forall|i: int| 0 <= i < n implies round_robin_run(n, 0, n)[i] == i as nat by {
        vstd::arithmetic::div_mod::lemma_small_mod(i as nat, n);
    }
    assert(round_robin_run(n, 0, n) =~= Seq::new(n, |i: int| i as nat));
    assert(round_robin_endpoints(hosts, 0, n, address) =~= hosts.map_values(
        |host: HostView| Ok::<(A, u16), UpstreamError>((address, host.port)),
    ));
}

} // verus!
