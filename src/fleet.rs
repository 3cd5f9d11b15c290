use crate::result::FailureKind;
use crate::role::{checked_server, Role};
use crate::server::ServerType;
use vstd::prelude::*;

verus! {

/// The servers of one role after probing, in declaration order.
pub struct RoleReport {
    pub name: String,
    pub servers: Vec<ServerType>,
}

/// The findings of `servers`, server after server.
pub open spec fn servers_failures(servers: Seq<ServerType>) -> Seq<FailureKind>
    decreases servers.len(),
{
    if servers.len() == 0 {
        Seq::empty()
    } else {
        servers_failures(servers.drop_last()) + servers.last().spec_failures()
    }
}

/// The findings of a fleet, role after role, each role's server after server.
pub open spec fn report_failures(roles: Seq<RoleReport>) -> Seq<FailureKind>
    decreases roles.len(),
{
    if roles.len() == 0 {
        Seq::empty()
    } else {
        report_failures(roles.drop_last()) + servers_failures(roles.last().servers@)
    }
}

/// Two runs of a role on the same resolutions and outcomes report its
/// servers alike and in declaration order: the `i`-th entry is the `i`-th
/// declared server, with the same verdicts and findings, so the findings of
/// the role come out in the same order.
pub proof fn lemma_report_order(
    role: Role,
    addresses: Seq<Option<String>>,
    received: Seq<Seq<(u16, bool)>>,
    v: Seq<ServerType>,
    w: Seq<ServerType>,
)
    requires
        addresses.len() == role.servers.len(),
        received.len() == role.servers.len(),
        v.len() == role.servers.len(),
        w.len() == role.servers.len(),
        forall|i: int|
            0 <= i < v.len() ==> checked_server(role, role.servers[i], addresses[i], received[i], #[trigger] v[i]),
        forall|i: int|
            0 <= i < w.len() ==> checked_server(role, role.servers[i], addresses[i], received[i], #[trigger] w[i]),
    ensures
        forall|i: int|
            0 <= i < v.len() ==> {
                &&& #[trigger] v[i].server_name() == role.servers[i]
                &&& w[i].server_name() == role.servers[i]
                &&& v[i].verdicts() == w[i].verdicts()
                &&& v[i].spec_failures() == w[i].spec_failures()
            },
        servers_failures(v) == servers_failures(w),
{
    assert forall|i: int| 0 <= i < v.len() implies v[i].spec_failures() == w[i].spec_failures() by {
        assert(checked_server(role, role.servers[i], addresses[i], received[i], v[i]));
        assert(checked_server(role, role.servers[i], addresses[i], received[i], w[i]));
        if let ServerType::Known(a) = v[i] {
            if let ServerType::Known(b) = w[i] {
                assert(a.results@ == b.results@);
            }
        }
    }
    if v.len() > 0 {
        lemma_failures_agree(v, w, v.len() - 1);
    }
}

/// Servers that agree one by one on their findings agree on the findings
/// of their first `n + 1`.
proof fn lemma_failures_agree(v: Seq<ServerType>, w: Seq<ServerType>, n: int)
    requires
        0 <= n < v.len(),
        v.len() == w.len(),
        forall|i: int| 0 <= i < v.len() ==> #[trigger] v[i].spec_failures() == w[i].spec_failures(),
    ensures
        servers_failures(v.take(n + 1)) == servers_failures(w.take(n + 1)),
        n == v.len() - 1 ==> servers_failures(v) == servers_failures(w),
    decreases n,
{
    assert(v.take(n + 1).drop_last() =~= v.take(n));
    assert(w.take(n + 1).drop_last() =~= w.take(n));
    if n > 0 {
        lemma_failures_agree(v, w, n - 1);
    } else {
        assert(v.take(0) =~= Seq::<ServerType>::empty());
        assert(w.take(0) =~= Seq::<ServerType>::empty());
    }
    assert(v.take(n + 1).last() == v[n]);
    assert(w.take(n + 1).last() == w[n]);
    if n == v.len() - 1 {
        assert(v.take(n + 1) =~= v);
        assert(w.take(n + 1) =~= w);
    }
}

/// Every finding of the fleet: unresolved servers and port violations, in
/// the order of roles and servers.
pub fn fleet_failures(roles: &Vec<RoleReport>) -> (r: Vec<FailureKind>)
    ensures
        r@ == report_failures(roles@),
{
    let mut r: Vec<FailureKind> = Vec::new();
    for i in 0..roles.len()
        invariant
            r@ == report_failures(roles@.take(i as int)),
    {
        let servers = &roles[i].servers;
        assert(roles@.take(i + 1).drop_last() =~= roles@.take(i as int));
        let ghost start = r@;
        for j in 0..servers.len()
            invariant
                r@ == start + servers_failures(servers@.take(j as int)),
        {
            let mut found = servers[j].failures();
            assert(servers@.take(j + 1).drop_last() =~= servers@.take(j as int));
            r.append(&mut found);
            assert(r@ =~= start + servers_failures(servers@.take(j + 1)));
        }
        assert(servers@.take(servers@.len() as int) =~= servers@);
    }
    assert(roles@.take(roles@.len() as int) =~= roles@);
    r
}

} // verus!
