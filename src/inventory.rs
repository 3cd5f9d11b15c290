use crate::ports::{insert_port, sorted_keys, sorted_ports, strictly_increasing};
use crate::role::Role;
use vstd::prelude::*;

verus! {

/// The ports that any of `roles` has in its policy.
pub open spec fn role_ports(roles: Seq<Role>) -> Set<u16>
    decreases roles.len(),
{
    if roles.len() == 0 {
        Set::empty()
    } else {
        role_ports(roles.drop_last()).union(roles.last().services.policy().dom())
    }
}

/// The server names of `roles`, role after role, each in declaration order.
pub open spec fn role_server_names(roles: Seq<Role>) -> Seq<String>
    decreases roles.len(),
{
    if roles.len() == 0 {
        Seq::empty()
    } else {
        role_server_names(roles.drop_last()) + roles.last().servers@
    }
}

/// The number of characters of the longest of `names`; 0 when there is none.
pub open spec fn longest_name(names: Seq<String>) -> nat
    decreases names.len(),
{
    if names.len() == 0 {
        0
    } else {
        let earlier = longest_name(names.drop_last());
        let here = names.last()@.len();
        if here > earlier {
            here
        } else {
            earlier
        }
    }
}

/// Every port of the policies of `roles`, in increasing order.
pub fn collect_ports(roles: &Vec<Role>) -> (r: Vec<u16>)
    ensures
        r@ == sorted_ports(role_ports(roles@)),
{
    let mut all: Vec<u16> = Vec::new();
    for i in 0..roles.len()
        invariant
            strictly_increasing(all@),
            all@.to_set() == role_ports(roles@.take(i as int)),
    {
        let policy = roles[i].services.to_port_checks();
        let ports = sorted_keys(&policy);
        assert(roles@.take(i + 1).drop_last() =~= roles@.take(i as int));
        for j in 0..ports.len()
            invariant
                strictly_increasing(all@),
                all@.to_set() == role_ports(roles@.take(i as int)).union(ports@.take(j as int).to_set()),
        {
            proof {
                ports@.take(j as int).lemma_push_to_set_commute(ports@[j as int]);
                assert(ports@.take(j + 1) =~= ports@.take(j as int).push(ports@[j as int]));
            }
            insert_port(&mut all, ports[j]);
            assert(all@.to_set() =~= role_ports(roles@.take(i as int)).union(ports@.take(j + 1).to_set()));
        }
        assert(ports@.take(ports@.len() as int) =~= ports@);
        assert(all@.to_set() =~= role_ports(roles@.take(i + 1)));
    }
    assert(roles@.take(roles@.len() as int) =~= roles@);
    proof {
        crate::ports::lemma_sorted_ports(all@, role_ports(roles@));
    }
    all
}

/// The roles of a fleet, in declaration order.
#[derive(Debug)]
pub struct Inventory {
    pub roles: Vec<Role>,
}

impl Inventory {
    /// Every port of any role's policy, in increasing order.
    pub fn all_ports(&self) -> (r: Vec<u16>)
        ensures
            r@ == sorted_ports(role_ports(self.roles@)),
    {
        collect_ports(&self.roles)
    }

    /// The names of all servers, role after role, in declaration order.
    pub fn all_server_names(&self) -> (r: Vec<String>)
        ensures
            r@ == role_server_names(self.roles@),
    {
        let mut r: Vec<String> = Vec::new();
        for i in 0..self.roles.len()
            invariant
                r@ == role_server_names(self.roles@.take(i as int)),
        {
            let names = &self.roles[i].servers;
            assert(self.roles@.take(i + 1).drop_last() =~= self.roles@.take(i as int));
            let ghost start = r@;
            for j in 0..names.len()
                invariant
                    r@ == start + names@.take(j as int),
            {
                r.push(names[j].clone());
                assert(r@ =~= start + names@.take(j + 1));
            }
            assert(names@.take(names@.len() as int) =~= names@);
        }
        assert(self.roles@.take(self.roles@.len() as int) =~= self.roles@);
        r
    }

    /// The number of characters of the longest server name; 0 for a fleet
    /// without servers.
    pub fn length_of_longest_server_name(&self) -> (r: usize)
        ensures
            r == longest_name(role_server_names(self.roles@)),
    {
        let names = self.all_server_names();
        let mut longest: usize = 0;
        for i in 0..names.len()
            invariant
                names@ == role_server_names(self.roles@),
                longest == longest_name(names@.take(i as int)),
        {
            let here = names[i].as_str().unicode_len();
            assert(names@.take(i + 1).drop_last() =~= names@.take(i as int));
            if here > longest {
                longest = here;
            }
        }
        assert(names@.take(names@.len() as int) =~= names@);
        longest
    }
}

} // verus!
