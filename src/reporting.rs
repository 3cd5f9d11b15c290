use std::collections::HashMap;
use crate::result::TestResultKind;
use crate::text::{decimal, padded, push_decimal, push_padded, tab_joined};
use vstd::prelude::*;
use vstd::string::StringExecFns;

verus! {

broadcast use vstd::std_specs::hash::group_hash_axioms;

/// The width of the address column.
pub const ADDRESS_WIDTH: usize = 15;

/// The cell of one port in a server's row.
pub open spec fn cell_text(results: Map<u16, TestResultKind>, port: u16) -> Seq<char> {
    if results.contains_key(port) {
        match results[port] {
            TestResultKind::Success => "pass"@,
            TestResultKind::Failure(_, _) => "fail"@,
            TestResultKind::Skipped => " "@,
        }
    } else {
        " "@
    }
}

/// The cells of a server's row, one per port of `ports`, tab separated.
pub open spec fn results_text(ports: Seq<u16>, results: Map<u16, TestResultKind>) -> Seq<char> {
    tab_joined(ports.map_values(|p: u16| cell_text(results, p)))
}

/// The port numbers of `ports`, tab separated.
pub open spec fn ports_text(ports: Seq<u16>) -> Seq<char> {
    tab_joined(ports.map_values(|p: u16| decimal(p as nat)))
}

/// A row of the table: address and name columns, then the cells.
pub open spec fn row_text(address: Seq<char>, name: Seq<char>, longest_name: nat, cells: Seq<char>) -> Seq<char> {
    "\t"@ + padded(address, ADDRESS_WIDTH as nat) + "\t"@ + padded(name, longest_name) + "\t"@ + cells
}

fn cell_output(results: &HashMap<u16, TestResultKind>, port: u16) -> (r: &'static str)
    ensures
        r@ == cell_text(results@, port),
{
    match results.get(&port) {
        Some(TestResultKind::Success) => "pass",
        Some(TestResultKind::Failure(_, _)) => "fail",
        Some(TestResultKind::Skipped) => " ",
        None => " ",
    }
}

proof fn lemma_tab_joined_step(parts: Seq<Seq<char>>, i: int)
    requires
        0 <= i < parts.len(),
    ensures
        tab_joined(parts.take(i + 1)) == if i == 0 {
            parts[0]
        } else {
            tab_joined(parts.take(i)) + "\t"@ + parts[i]
        },
{
    assert(parts.take(i + 1).drop_last() =~= parts.take(i));
}

/// The header row: placeholders for the address and name columns, then
/// each port number.
pub fn format_header(ports: &Vec<u16>, longest_name: usize) -> (r: String)
    ensures
        r@ == row_text("-"@, "-"@, longest_name as nat, ports_text(ports@)),
{
    let mut s = String::from_str("\t");
    push_padded(&mut s, "-", ADDRESS_WIDTH);
    s.append("\t");
    push_padded(&mut s, "-", longest_name);
    s.append("\t");
    let ghost start = s@;
    let ghost parts = ports@.map_values(|p: u16| decimal(p as nat));
    for i in 0..ports.len()
        invariant
            parts == ports@.map_values(|p: u16| decimal(p as nat)),
            s@ == start + tab_joined(parts.take(i as int)),
    {
        proof {
            lemma_tab_joined_step(parts, i as int);
        }
        if i > 0 {
            s.append("\t");
        }
        push_decimal(&mut s, ports[i]);
        assert(s@ =~= start + tab_joined(parts.take(i + 1)));
    }
    assert(parts.take(parts.len() as int) =~= parts);
    s
}

/// The cells of a server's row: for each of `all_ports`, whether its
/// verdict passed, failed, or is absent.
pub fn format_results(all_ports: &Vec<u16>, results: HashMap<u16, TestResultKind>) -> (r: String)
    ensures
        r@ == results_text(all_ports@, results@),
{
    let mut s = String::new();
    let ghost parts = all_ports@.map_values(|p: u16| cell_text(results@, p));
    for i in 0..all_ports.len()
        invariant
            parts == all_ports@.map_values(|p: u16| cell_text(results@, p)),
            s@ == tab_joined(parts.take(i as int)),
    {
        proof {
            lemma_tab_joined_step(parts, i as int);
            reveal_strlit("\t");
        }
        if i > 0 {
            s.append("\t");
        }
        s.append(cell_output(&results, all_ports[i]));
        assert(s@ =~= tab_joined(parts.take(i + 1)));
    }
    assert(parts.take(parts.len() as int) =~= parts);
    s
}

/// A server's row: its address, its name, then its cells.
pub fn format_server(
    address: String,
    name: String,
    longest_name: usize,
    all_ports: &Vec<u16>,
    results: HashMap<u16, TestResultKind>,
) -> (r: String)
    ensures
        r@ == row_text(address@, name@, longest_name as nat, results_text(all_ports@, results@)),
{
    let mut s = String::from_str("\t");
    push_padded(&mut s, address.as_str(), ADDRESS_WIDTH);
    s.append("\t");
    push_padded(&mut s, name.as_str(), longest_name);
    s.append("\t");
    let cells = format_results(all_ports, results);
    s.append(cells.as_str());
    s
}

} // verus!
