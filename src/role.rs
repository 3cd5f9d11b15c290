use std::collections::HashSet;
use crate::ports::sorted_keys;
use crate::result::TestResultKind;
use crate::server::{
    collected_verdicts, collection_complete, CollectFault, ServerType, UnknownServer,
};
use crate::services::Services;
use vstd::prelude::*;

verus! {

broadcast use vstd::std_specs::hash::group_hash_axioms;

/// A named group of servers sharing one port policy.
#[derive(Debug)]
pub struct Role {
    pub name: String,
    pub services: Services,
    pub servers: Vec<String>,
}

/// The server that a declared name becomes, given what its resolution gave:
/// an address, or nothing.
pub open spec fn resolved_server(role: Role, name: String, address: Option<String>, server: ServerType) -> bool {
    match address {
        None => server == ServerType::Unknown(UnknownServer { name }),
        Some(a) => server matches ServerType::Known(s) && s.address == a && s.name == name
            && s.tests@ == role.services.policy() && s.results@ == Map::<u16, TestResultKind>::empty(),
    }
}

/// The server that a declared name becomes once the outcomes of its probes
/// are collected: unresolved, or resolved with a verdict for each policy port.
pub open spec fn checked_server(
    role: Role,
    name: String,
    address: Option<String>,
    received: Seq<(u16, bool)>,
    server: ServerType,
) -> bool {
    match address {
        None => server == ServerType::Unknown(UnknownServer { name }),
        Some(a) => server matches ServerType::Known(s) && s.address == a && s.name == name
            && s.tests@ == role.services.policy() && s.results@ == collected_verdicts(
            received,
            role.services.policy(),
        ),
    }
}

/// The outcomes received for a server are those of its probes: none for an
/// unresolved server, one per policy port for a resolved one.
pub open spec fn outcomes_match(role: Role, address: Option<String>, received: Seq<(u16, bool)>) -> bool {
    match address {
        None => received.len() == 0,
        Some(_) => collection_complete(received, role.services.policy()),
    }
}

impl Role {
    pub fn name(&self) -> (r: &String)
        ensures
            r == self.name,
    {
        &self.name
    }

    pub fn services(&self) -> (r: &Services)
        ensures
            r == self.services,
    {
        &self.services
    }

    /// The ports of this role's policy.
    pub fn ports(&self) -> (r: HashSet<u16>)
        ensures
            r@ == self.services.policy().dom(),
    {
        let policy = self.services.to_port_checks();
        let keys = sorted_keys(&policy);
        let mut r: HashSet<u16> = HashSet::new();
        for i in 0..keys.len()
            invariant
                keys@.to_set() == policy@.dom(),
                r@ == keys@.take(i as int).to_set(),
        {
            assert(keys@.take(i + 1) =~= keys@.take(i as int).push(keys@[i as int]));
            proof {
                keys@.take(i as int).lemma_push_to_set_commute(keys@[i as int]);
            }
            r.insert(keys[i]);
        }
        assert(keys@.take(keys@.len() as int) =~= keys@);
        r
    }

    pub fn server_names(&self) -> (r: &Vec<String>)
        ensures
            r == self.servers,
    {
        &self.servers
    }

    /// The servers of this role in declaration order, from the outcome of
    /// resolving each name: `addresses[i]` is the address of the `i`-th
    /// server, or `None` where its name did not resolve.
    pub fn servers(&self, addresses: Vec<Option<String>>) -> (r: Vec<ServerType>)
        requires
            addresses.len() == self.servers.len(),
        ensures
            r.len() == self.servers.len(),
            forall|i: int|
                0 <= i < r.len() ==> resolved_server(*self, self.servers[i], addresses[i], #[trigger] r[i]),
    {
        let policy = self.services.to_port_checks();
        let mut r: Vec<ServerType> = Vec::new();
        for i in 0..addresses.len()
            invariant
                addresses.len() == self.servers.len(),
                policy@ == self.services.policy(),
                r.len() == i,
                forall|k: int|
                    0 <= k < i ==> resolved_server(*self, self.servers[k], addresses[k], #[trigger] r[k]),
        {
            let name = self.servers[i].clone();
            match &addresses[i] {
                Some(address) => {
                    r.push(ServerType::known(address.clone(), name, policy.clone()));
                },
                None => {
                    r.push(ServerType::unknown(name));
                },
            }
        }
        r
    }

    /// The servers of this role in declaration order, each with the outcomes
    /// of its probes collected. `addresses[i]` is what resolving the `i`-th
    /// name gave and `received[i]` the outcomes of its probes. Fails when the
    /// outcomes of some server are not those of its probes.
    pub fn check_servers(&self, addresses: Vec<Option<String>>, received: Vec<Vec<(u16, bool)>>) -> (r:
        Result<Vec<ServerType>, CollectFault>)
        requires
            addresses.len() == self.servers.len(),
            received.len() == self.servers.len(),
        ensures
            r is Ok <==> forall|i: int|
                0 <= i < self.servers.len() ==> outcomes_match(*self, addresses[i], #[trigger] received[i]@),
            r matches Ok(v) ==> v.len() == self.servers.len() && forall|i: int|
                0 <= i < v.len() ==> checked_server(*self, self.servers[i], addresses[i], received[i]@, #[trigger] v[i]),
    {
        let mut servers = self.servers(addresses);
        let mut r: Vec<ServerType> = Vec::new();
        let ghost all = received@;
        let mut pending = received;
        let ghost initial = servers@;
        let mut i: usize = 0;
        while servers.len() > 0
            invariant
                addresses.len() == self.servers.len(),
                all == received@,
                all.len() == self.servers.len(),
                initial.len() == self.servers.len(),
                i + servers.len() == self.servers.len(),
                i + pending.len() == self.servers.len(),
                forall|k: int| 0 <= k < servers.len() ==> servers[k] == initial[i + k],
                forall|k: int| 0 <= k < pending.len() ==> pending[k] == all[i + k],
                forall|k: int|
                    0 <= k < initial.len() ==> resolved_server(*self, self.servers[k], addresses[k], #[trigger] initial[k]),
                r.len() == i,
                forall|k: int| 0 <= k < i ==> outcomes_match(*self, addresses[k], #[trigger] all[k]@),
                forall|k: int|
                    0 <= k < i ==> checked_server(*self, self.servers[k], addresses[k], all[k]@, #[trigger] r[k]),
            decreases servers.len(),
        {
            let mut server = servers.remove(0);
            let outcomes = pending.remove(0);
            assert(server == initial[i as int]);
            assert(outcomes == all[i as int]);
            assert(resolved_server(*self, self.servers[i as int], addresses[i as int], initial[i as int]));
            match server.collect_results(outcomes) {
                Ok(()) => {},
                Err(fault) => {
                    assert(!outcomes_match(*self, addresses[i as int], received[i as int]@));
                    return Err(fault);
                },
            }
            r.push(server);
            i = i + 1;
        }
        Ok(r)
    }
}

} // verus!
