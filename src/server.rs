use std::collections::HashMap;
use crate::ports::{sorted_keys, sorted_ports, strictly_increasing};
use crate::result::{verdict_of, FailureKind, TestFailure, TestResultKind};
use vstd::prelude::*;

verus! {

broadcast use vstd::std_specs::hash::group_hash_axioms;

/// A server of a role: either its name resolved to an address, or not.
pub enum ServerType {
    Unknown(UnknownServer),
    Known(Server),
}

/// A server whose name did not resolve; none of its ports is probed.
pub struct UnknownServer {
    pub name: String,
}

/// A resolved server with its port policy and, once collected, a verdict
/// for each policy port.
pub struct Server {
    pub address: String,
    pub name: String,
    pub tests: HashMap<u16, bool>,
    pub results: HashMap<u16, TestResultKind>,
}

/// Why the results handed back for a server do not match the probes that
/// were dispatched for it.
#[derive(Clone, Copy, Debug, PartialEq, Eq, Structural)]
pub enum CollectFault {
    /// A result for a port that is not in the policy, or a second result
    /// for one port.
    Unexpected(u16),
    /// A policy port for which no result came back.
    Missing(u16),
}

/// The ports of a list of (port, value) pairs, in the list's order.
pub open spec fn ports_of<T>(s: Seq<(u16, T)>) -> Seq<u16> {
    s.map_values(|e: (u16, T)| e.0)
}

/// `plan` holds one probe per policy port, in increasing port order, each
/// with the port's expectation.
pub open spec fn is_probe_plan(plan: Seq<(u16, bool)>, policy: Map<u16, bool>) -> bool {
    &&& strictly_increasing(ports_of(plan))
    &&& ports_of(plan).to_set() == policy.dom()
    &&& forall|i: int| 0 <= i < plan.len() ==> policy[plan[i].0] == plan[i].1
}

/// `received` holds exactly one outcome for each policy port and nothing else.
pub open spec fn collection_complete(received: Seq<(u16, bool)>, policy: Map<u16, bool>) -> bool {
    &&& forall|a: int, b: int| 0 <= a < b < received.len() ==> received[a].0 != received[b].0
    &&& forall|i: int| 0 <= i < received.len() ==> policy.contains_key(received[i].0)
    &&& forall|p: u16|
        policy.contains_key(p) ==> exists|i: int| 0 <= i < received.len() && received[i].0 == p
}

/// Whether `received` reports that `port` accepted a connection.
pub open spec fn outcome_of(received: Seq<(u16, bool)>, port: u16) -> bool {
    exists|i: int| 0 <= i < received.len() && received[i].0 == port && received[i].1
}

/// The verdict of each policy port, given the outcomes received.
pub open spec fn collected_verdicts(received: Seq<(u16, bool)>, policy: Map<u16, bool>) -> Map<
    u16,
    TestResultKind,
> {
    Map::new(|p: u16| policy.contains_key(p), |p: u16| verdict_of(policy[p], outcome_of(received, p)))
}

/// The violations among `results`, visiting `ports` in order.
pub open spec fn port_failures(
    address: String,
    name: String,
    ports: Seq<u16>,
    results: Map<u16, TestResultKind>,
) -> Seq<FailureKind>
    decreases ports.len(),
{
    if ports.len() == 0 {
        Seq::empty()
    } else {
        let earlier = port_failures(address, name, ports.drop_last(), results);
        let port = ports.last();
        match results[port] {
            TestResultKind::Failure(expected, actual) => earlier.push(
                FailureKind::BadPort(TestFailure { address, name, port, expected, actual }),
            ),
            _ => earlier,
        }
    }
}

/// Each port of a probe plan is probed once, so a policy of N ports gets N
/// probes: none for an empty policy.
pub proof fn lemma_plan_size(plan: Seq<(u16, bool)>, policy: Map<u16, bool>)
    requires
        is_probe_plan(plan, policy),
    ensures
        plan.len() == policy.dom().len(),
        ports_of(plan).no_duplicates(),
{
    let ports = ports_of(plan);
    assert forall|i: int, j: int| 0 <= i < ports.len() && 0 <= j < ports.len() && i != j implies ports[i]
        != ports[j] by {
        if i < j {
            assert(ports[i] < ports[j]);
        } else {
            assert(ports[j] < ports[i]);
        }
    }
    ports.unique_seq_to_set();
}

/// Whatever order the outcomes of a probe plan come back in, and whatever
/// each of them says, collecting them is complete and gives exactly one
/// verdict per policy port.
pub proof fn lemma_plan_outcomes_complete(
    plan: Seq<(u16, bool)>,
    policy: Map<u16, bool>,
    received: Seq<(u16, bool)>,
)
    requires
        is_probe_plan(plan, policy),
        ports_of(received).no_duplicates(),
        ports_of(received).to_set() == ports_of(plan).to_set(),
    ensures
        collection_complete(received, policy),
        collected_verdicts(received, policy).dom() == policy.dom(),
        collected_verdicts(received, policy).len() == plan.len(),
        received.len() == plan.len(),
{
    lemma_plan_size(plan, policy);
    let ports = ports_of(received);
    assert forall|a: int, b: int| 0 <= a < b < received.len() implies received[a].0 != received[b].0 by {
        assert(ports[a] != ports[b]);
    }
    assert forall|i: int| 0 <= i < received.len() implies policy.contains_key(received[i].0) by {
        assert(ports.to_set().contains(ports[i]));
    }
    assert forall|p: u16| policy.contains_key(p) implies exists|i: int|
        0 <= i < received.len() && received[i].0 == p by {
        assert(ports.to_set().contains(p));
        let i = choose|i: int| 0 <= i < ports.len() && ports[i] == p;
        assert(received[i].0 == p);
    }
    assert(collected_verdicts(received, policy).dom() =~= policy.dom());
    ports.unique_seq_to_set();
}

impl Server {
    /// The violations of this server, in increasing port order.
    pub open spec fn spec_failures(&self) -> Seq<FailureKind> {
        port_failures(self.address, self.name, sorted_ports(self.results@.dom()), self.results@)
    }

    pub fn new(address: String, name: String, tests: HashMap<u16, bool>) -> (r: Server)
        ensures
            r.address == address,
            r.name == name,
            r.tests@ == tests@,
            r.results@ == Map::<u16, TestResultKind>::empty(),
    {
        Server { address, name, tests, results: HashMap::new() }
    }

    /// The probes to dispatch: each policy port once, with its expectation.
    pub fn check_ports(&self) -> (r: Vec<(u16, bool)>)
        ensures
            is_probe_plan(r@, self.tests@),
    {
        let ports = sorted_keys(&self.tests);
        let mut plan: Vec<(u16, bool)> = Vec::new();
        for i in 0..ports.len()
            invariant
                strictly_increasing(ports@),
                ports@.to_set() == self.tests@.dom(),
                plan.len() == i,
                forall|k: int| 0 <= k < i ==> plan@[k].0 == ports@[k],
                forall|k: int| 0 <= k < i ==> self.tests@[plan@[k].0] == plan@[k].1,
        {
            let port = ports[i];
            assert(ports@.to_set().contains(port));
            let expected = *self.tests.get(&port).unwrap();
            plan.push((port, expected));
        }
        assert(ports_of(plan@) =~= ports@);
        plan
    }

    /// Records the outcome received for each dispatched probe: `(port,
    /// accepted)`. Succeeds exactly when every policy port has one outcome
    /// and no other port has any; then each policy port gets its verdict.
    /// Otherwise nothing is recorded.
    pub fn collect_results(&mut self, received: Vec<(u16, bool)>) -> (r: Result<(), CollectFault>)
        ensures
            final(self).address == old(self).address,
            final(self).name == old(self).name,
            final(self).tests@ == old(self).tests@,
            r is Ok <==> collection_complete(received@, old(self).tests@),
            r is Ok ==> final(self).results@ == collected_verdicts(received@, old(self).tests@),
            r is Err ==> final(self).results@ == old(self).results@,
            r matches Err(CollectFault::Unexpected(p)) ==> exists|i: int|
                0 <= i < received@.len() && received@[i].0 == p && {
                    ||| !old(self).tests@.contains_key(p)
                    ||| exists|j: int| 0 <= j < i && received@[j].0 == p
                },
            r matches Err(CollectFault::Missing(p)) ==> old(self).tests@.contains_key(p)
                && forall|i: int| 0 <= i < received@.len() ==> received@[i].0 != p,
    {
        let mut results: HashMap<u16, TestResultKind> = HashMap::new();
        let mut i: usize = 0;
        while i < received.len()
            invariant
                i <= received.len(),
                forall|a: int, b: int| 0 <= a < b < i ==> received@[a].0 != received@[b].0,
                forall|k: int| 0 <= k < i ==> self.tests@.contains_key(received@[k].0),
                forall|p: u16|
                    results@.contains_key(p) <==> exists|k: int| 0 <= k < i && received@[k].0 == p,
                forall|k: int|
                    0 <= k < i ==> results@[received@[k].0] == verdict_of(
                        self.tests@[received@[k].0],
                        received@[k].1,
                    ),
            decreases received.len() - i,
        {
            let (port, accepted) = received[i];
            match self.tests.get(&port) {
                None => {
                    return Err(CollectFault::Unexpected(port));
                },
                Some(expected) => {
                    if results.contains_key(&port) {
                        return Err(CollectFault::Unexpected(port));
                    }
                    results.insert(port, TestResultKind::classify(*expected, accepted));
                },
            }
            assert(received@[i as int].0 == port);
            i = i + 1;
        }
        let ports = sorted_keys(&self.tests);
        for j in 0..ports.len()
            invariant
                ports@.to_set() == self.tests@.dom(),
                i == received.len(),
                forall|k: int| 0 <= k < j ==> results@.contains_key(ports@[k]),
                forall|p: u16|
                    results@.contains_key(p) <==> exists|k: int|
                        0 <= k < received@.len() && received@[k].0 == p,
        {
            if !results.contains_key(&ports[j]) {
                assert(ports@.to_set().contains(ports@[j as int]));
                assert(!collection_complete(received@, self.tests@));
                return Err(CollectFault::Missing(ports[j]));
            }
        }
        proof {
            assert forall|p: u16| self.tests@.contains_key(p) implies exists|k: int|
                0 <= k < received@.len() && received@[k].0 == p by {
                assert(ports@.to_set().contains(p));
                let k = choose|k: int| 0 <= k < ports@.len() && ports@[k] == p;
                assert(results@.contains_key(ports@[k]));
            }
            assert forall|p: u16| #[trigger] results@.contains_key(p) == self.tests@.contains_key(p) by {
                if results@.contains_key(p) {
                    let k = choose|k: int| 0 <= k < received@.len() && received@[k].0 == p;
                    assert(self.tests@.contains_key(received@[k].0));
                }
            }
            assert forall|p: u16| #[trigger] self.tests@.contains_key(p) implies results@[p]
                == verdict_of(self.tests@[p], outcome_of(received@, p)) by {
                let k = choose|k: int| 0 <= k < received@.len() && received@[k].0 == p;
                assert(results@[received@[k].0] == verdict_of(self.tests@[received@[k].0], received@[k].1));
                if received@[k].1 {
                    assert(outcome_of(received@, p));
                } else if outcome_of(received@, p) {
                    let m = choose|m: int| 0 <= m < received@.len() && received@[m].0 == p && received@[m].1;
                    assert(m != k);
                    if m < k {
                        assert(received@[m].0 != received@[k].0);
                    } else {
                        assert(received@[k].0 != received@[m].0);
                    }
                }
            }
            assert(results@ =~= collected_verdicts(received@, self.tests@));
        }
        self.results = results;
        Ok(())
    }

    /// The violations among the collected verdicts, in increasing port order.
    pub fn failures(&self) -> (r: Vec<FailureKind>)
        ensures
            r@ == self.spec_failures(),
    {
        let ports = sorted_keys(&self.results);
        let mut r: Vec<FailureKind> = Vec::new();
        for i in 0..ports.len()
            invariant
                ports@ == sorted_ports(self.results@.dom()),
                ports@.to_set() == self.results@.dom(),
                r@ == port_failures(self.address, self.name, ports@.take(i as int), self.results@),
        {
            let port = ports[i];
            assert(ports@.to_set().contains(port));
            assert(ports@.take(i + 1).drop_last() =~= ports@.take(i as int));
            match self.results.get(&port).unwrap() {
                TestResultKind::Failure(expected, actual) => {
                    r.push(
                        FailureKind::bad_port(
                            self.address.clone(),
                            self.name.clone(),
                            port,
                            *expected,
                            *actual,
                        ),
                    );
                },
                _ => {},
            }
        }
        assert(ports@.take(ports@.len() as int) =~= ports@);
        r
    }
}

impl UnknownServer {
    pub fn new(name: String) -> (r: UnknownServer)
        ensures
            r.name == name,
    {
        UnknownServer { name }
    }

    pub fn name(&self) -> (r: &String)
        ensures
            r == self.name,
    {
        &self.name
    }

    /// The one finding of an unresolved server.
    pub fn failures(&self) -> (r: Vec<FailureKind>)
        ensures
            r@ == seq![FailureKind::NoAddress(self.name)],
    {
        vec![FailureKind::NoAddress(self.name.clone())]
    }
}

impl ServerType {
    /// The findings of this server: its resolution failure, or its port
    /// violations in increasing port order.
    pub open spec fn spec_failures(&self) -> Seq<FailureKind> {
        match self {
            ServerType::Unknown(s) => seq![FailureKind::NoAddress(s.name)],
            ServerType::Known(s) => s.spec_failures(),
        }
    }

    /// The declared name of this server.
    pub open spec fn server_name(&self) -> String {
        match self {
            ServerType::Unknown(s) => s.name,
            ServerType::Known(s) => s.name,
        }
    }

    /// The verdicts of this server: none for an unresolved one.
    pub open spec fn verdicts(&self) -> Map<u16, TestResultKind> {
        match self {
            ServerType::Unknown(_) => Map::empty(),
            ServerType::Known(s) => s.results@,
        }
    }

    /// An unresolved server has no verdict, and its one finding is that its
    /// name did not resolve: it adds no port violation.
    pub proof fn lemma_unresolved(self)
        requires
            self is Unknown,
        ensures
            self.verdicts() == Map::<u16, TestResultKind>::empty(),
            self.spec_failures().len() == 1,
            self.spec_failures()[0] is NoAddress,
            forall|i: int| 0 <= i < self.spec_failures().len() ==> !(self.spec_failures()[i] is BadPort),
    {
    }

    pub fn unknown(name: String) -> (r: ServerType)
        ensures
            r == ServerType::Unknown(UnknownServer { name }),
    {
        ServerType::Unknown(UnknownServer::new(name))
    }

    pub fn known(address: String, name: String, tests: HashMap<u16, bool>) -> (r: ServerType)
        ensures
            r matches ServerType::Known(s) && s.address == address && s.name == name && s.tests@
                == tests@ && s.results@ == Map::<u16, TestResultKind>::empty(),
    {
        ServerType::Known(Server::new(address, name, tests))
    }

    /// The probes to dispatch: none for an unresolved server.
    pub fn check_ports(&self) -> (r: Vec<(u16, bool)>)
        ensures
            self is Unknown ==> r@.len() == 0,
            self matches ServerType::Known(s) ==> is_probe_plan(r@, s.tests@),
    {
        match self {
            ServerType::Unknown(_) => Vec::new(),
            ServerType::Known(server) => server.check_ports(),
        }
    }

    /// Records the outcomes received; an unresolved server takes none.
    pub fn collect_results(&mut self, received: Vec<(u16, bool)>) -> (r: Result<(), CollectFault>)
        ensures
            *old(self) is Unknown ==> {
                &&& *final(self) == *old(self)
                &&& r is Ok <==> received@.len() == 0
                &&& r matches Err(CollectFault::Unexpected(p)) ==> p == received@[0].0
                &&& !(r matches Err(CollectFault::Missing(_)))
            },
            *old(self) matches ServerType::Known(s) ==> *final(self) matches ServerType::Known(t) && {
                &&& t.address == s.address
                &&& t.name == s.name
                &&& t.tests@ == s.tests@
                &&& r is Ok <==> collection_complete(received@, s.tests@)
                &&& r is Ok ==> t.results@ == collected_verdicts(received@, s.tests@)
                &&& r is Err ==> t.results@ == s.results@
            },
    {
        match self {
            ServerType::Unknown(_) => {
                if received.len() == 0 {
                    Ok(())
                } else {
                    Err(CollectFault::Unexpected(received[0].0))
                }
            },
            ServerType::Known(server) => server.collect_results(received),
        }
    }

    pub fn failures(&self) -> (r: Vec<FailureKind>)
        ensures
            r@ == self.spec_failures(),
    {
        match self {
            ServerType::Unknown(server) => server.failures(),
            ServerType::Known(server) => server.failures(),
        }
    }
}

} // verus!
