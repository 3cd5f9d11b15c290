use std::collections::HashMap;
use vstd::prelude::*;

verus! {

broadcast use {vstd::std_specs::hash::group_hash_axioms, vstd::seq_lib::group_seq_properties};

/// Each port is smaller than the next: a sorted list without duplicates.
pub open spec fn strictly_increasing(s: Seq<u16>) -> bool {
    forall|i: int, j: int| 0 <= i < j < s.len() ==> s[i] < s[j]
}

/// The ports of `s` in increasing order.
pub open spec fn sorted_ports(s: Set<u16>) -> Seq<u16> {
    choose|q: Seq<u16>| strictly_increasing(q) && q.to_set() == s
}

/// A set has at most one listing in increasing order.
pub proof fn lemma_sorted_unique(a: Seq<u16>, b: Seq<u16>)
    requires
        strictly_increasing(a),
        strictly_increasing(b),
        a.to_set() == b.to_set(),
    ensures
        a == b,
    decreases a.len(),
{
    if a.len() == 0 || b.len() == 0 {
        if b.len() > 0 {
            assert(b.to_set().contains(b[0]));
        }
        if a.len() > 0 {
            assert(a.to_set().contains(a[0]));
        }
        assert(a =~= b);
    } else {
        let x = a.last();
        let y = b.last();
        assert(a.to_set().contains(x));
        assert(b.to_set().contains(y));
        let j = choose|j: int| 0 <= j < b.len() && b[j] == x;
        let i = choose|i: int| 0 <= i < a.len() && a[i] == y;
        assert(x <= y) by {
            if j < b.len() - 1 {
                assert(b[j] < b[b.len() - 1]);
            }
        }
        assert(y <= x) by {
            if i < a.len() - 1 {
                assert(a[i] < a[a.len() - 1]);
            }
        }
        let a0 = a.drop_last();
        let b0 = b.drop_last();
        assert(a0.to_set() =~= b0.to_set()) by {
            assert forall|z: u16| a0.to_set().contains(z) implies b0.to_set().contains(z) by {
                let k = choose|k: int| 0 <= k < a0.len() && a0[k] == z;
                assert(a[k] < x);
                assert(b.to_set().contains(z));
                let m = choose|m: int| 0 <= m < b.len() && b[m] == z;
                assert(m != b.len() - 1);
                assert(b0[m] == z);
            }
            assert forall|z: u16| b0.to_set().contains(z) implies a0.to_set().contains(z) by {
                let k = choose|k: int| 0 <= k < b0.len() && b0[k] == z;
                assert(b[k] < y);
                assert(a.to_set().contains(z));
                let m = choose|m: int| 0 <= m < a.len() && a[m] == z;
                assert(m != a.len() - 1);
                assert(a0[m] == z);
            }
        }
        lemma_sorted_unique(a0, b0);
        assert(a =~= a0.push(x));
        assert(b =~= b0.push(y));
    }
}

/// The keys of a map, listed in increasing order, are its sorted ports.
pub proof fn lemma_sorted_ports(q: Seq<u16>, s: Set<u16>)
    requires
        strictly_increasing(q),
        q.to_set() == s,
    ensures
        sorted_ports(s) == q,
{
    lemma_sorted_unique(sorted_ports(s), q);
}

/// Adds `port` to the sorted list `ports`, unless it is already there.
pub fn insert_port(ports: &mut Vec<u16>, port: u16)
    requires
        strictly_increasing(old(ports)@),
    ensures
        strictly_increasing(final(ports)@),
        final(ports)@.to_set() == old(ports)@.to_set().insert(port),
{
    let mut i: usize = 0;
    while i < ports.len() && ports[i] < port
        invariant
            i <= ports.len(),
            forall|k: int| 0 <= k < i ==> ports@[k] < port,
        decreases ports.len() - i,
    {
        i = i + 1;
    }
    if i < ports.len() && ports[i] == port {
        assert(ports@.to_set().insert(port) =~= ports@.to_set()) by {
            assert(ports@.contains(ports@[i as int]));
        }
        return;
    }
    let ghost before = ports@;
    ports.insert(i, port);
    assert(ports@.to_set() =~= before.to_set().insert(port)) by {
        assert forall|x: u16| ports@.contains(x) implies before.contains(x) || x == port by {
            let k = choose|k: int| 0 <= k < ports@.len() && ports@[k] == x;
            if k < i {
                assert(before[k] == x);
            } else if k > i {
                assert(before[k - 1] == x);
            }
        }
        assert forall|x: u16| before.contains(x) implies ports@.contains(x) by {
            let k = choose|k: int| 0 <= k < before.len() && before[k] == x;
            if k < i {
                assert(ports@[k] == x);
            } else {
                assert(ports@[k + 1] == x);
            }
        }
        assert(ports@[i as int] == port);
    }
}

/// The keys of `m` in increasing order.
pub fn sorted_keys<V>(m: &HashMap<u16, V>) -> (r: Vec<u16>)
    ensures
        strictly_increasing(r@),
        r@.to_set() == m@.dom(),
        r@ == sorted_ports(m@.dom()),
{
    let mut r: Vec<u16> = Vec::new();
    for k in it: m.keys()
        invariant
            strictly_increasing(r@),
            it.seq().unref().to_set() == m@.dom(),
            r@.to_set() == it.seq().take(it.index()).unref().to_set(),
            it.index() == it.seq().len() ==> r@.to_set() == m@.dom(),
    {
        insert_port(&mut r, *k);
        assert(it.seq().take(it.index() + 1).unref() =~= it.seq().take(it.index()).unref().push(*k));
        assert(it.seq().take(it.seq().len() as int) =~= it.seq());
    }
    proof {
        lemma_sorted_ports(r@, m@.dom());
    }
    r
}

} // verus!
