use std::collections::HashMap;

use concheck::collect_ports;
use concheck::fleet::{fleet_failures, RoleReport};
use concheck::inventory::Inventory;
use concheck::reporting::{format_header, format_results, format_server};
use concheck::result::{
    connection_result_output, should_connect_output, FailureKind, TestFailure, TestResultKind,
};
use concheck::role::Role;
use concheck::server::{CollectFault, Server, ServerType, UnknownServer};
use concheck::services::Services;

fn services(
    ssh: Option<bool>,
    http: Option<bool>,
    https: Option<bool>,
    other: Option<HashMap<u16, bool>>,
) -> Services {
    Services { ssh, http, https, mariadb: None, postgresql: None, other }
}

fn web_role(servers: Vec<&str>) -> Role {
    Role {
        name: "web".to_string(),
        services: services(Some(false), Some(true), Some(true), None),
        servers: servers.into_iter().map(|s| s.to_string()).collect(),
    }
}

fn policy(entries: &[(u16, bool)]) -> HashMap<u16, bool> {
    entries.iter().cloned().collect()
}

#[test]
fn classify_truth_table() {
    assert_eq!(TestResultKind::classify(true, true), TestResultKind::Success);
    assert_eq!(TestResultKind::classify(false, true), TestResultKind::Failure(false, true));
    assert_eq!(TestResultKind::classify(true, false), TestResultKind::Failure(true, false));
    assert_eq!(TestResultKind::classify(false, false), TestResultKind::Success);
}

#[test]
fn from_result_truth_table() {
    let ok: Result<(), ()> = Ok(());
    let err: Result<(), ()> = Err(());
    assert_eq!(TestResultKind::from_result(ok, true), TestResultKind::Success);
    assert_eq!(TestResultKind::from_result(ok, false), TestResultKind::Failure(false, true));
    assert_eq!(TestResultKind::from_result(err, true), TestResultKind::Failure(true, false));
    assert_eq!(TestResultKind::from_result(err, false), TestResultKind::Success);
}

#[test]
fn merge_named_services_and_explicit_ports() {
    let s = Services {
        ssh: Some(true),
        http: None,
        https: Some(false),
        mariadb: Some(true),
        postgresql: Some(false),
        other: Some(policy(&[(8080, true), (9000, false)])),
    };
    let merged = s.to_port_checks();
    assert_eq!(merged, policy(&[(22, true), (443, false), (3306, true), (5432, false), (8080, true), (9000, false)]));
}

#[test]
fn named_service_overrides_explicit_port() {
    let s = services(Some(false), None, None, Some(policy(&[(22, true), (80, false)])));
    let merged = s.to_port_checks();
    assert_eq!(merged.get(&22), Some(&false));
    assert_eq!(merged.get(&80), Some(&false));
    assert_eq!(merged.len(), 2);
}

#[test]
fn no_services_give_empty_policy() {
    let s = services(None, None, None, None);
    assert!(s.to_port_checks().is_empty());
}

#[test]
fn probe_plan_has_one_entry_per_port_in_order() {
    let server = Server::new("10.0.0.1".to_string(), "a".to_string(), policy(&[(443, true), (22, false), (80, true)]));
    assert_eq!(server.check_ports(), vec![(22, false), (80, true), (443, true)]);
}

#[test]
fn empty_policy_dispatches_nothing_and_collects_nothing() {
    let mut server = Server::new("10.0.0.1".to_string(), "a".to_string(), HashMap::new());
    assert!(server.check_ports().is_empty());
    assert_eq!(server.collect_results(vec![]), Ok(()));
    assert!(server.results.is_empty());
    assert!(server.failures().is_empty());
}

#[test]
fn collected_in_any_order_gives_one_verdict_per_port() {
    let mut server = Server::new("10.0.0.1".to_string(), "a".to_string(), policy(&[(443, true), (22, false), (80, true)]));
    assert_eq!(server.collect_results(vec![(443, false), (22, false), (80, true)]), Ok(()));
    assert_eq!(server.results.len(), 3);
    assert_eq!(server.results[&22], TestResultKind::Success);
    assert_eq!(server.results[&80], TestResultKind::Success);
    assert_eq!(server.results[&443], TestResultKind::Failure(true, false));
}

#[test]
fn collect_rejects_missing_result() {
    let mut server = Server::new("10.0.0.1".to_string(), "a".to_string(), policy(&[(22, false), (80, true)]));
    assert_eq!(server.collect_results(vec![(80, true)]), Err(CollectFault::Missing(22)));
    assert!(server.results.is_empty());
}

#[test]
fn collect_rejects_unknown_port() {
    let mut server = Server::new("10.0.0.1".to_string(), "a".to_string(), policy(&[(22, false)]));
    assert_eq!(server.collect_results(vec![(22, false), (25, true)]), Err(CollectFault::Unexpected(25)));
    assert!(server.results.is_empty());
}

#[test]
fn collect_rejects_duplicate_result() {
    let mut server = Server::new("10.0.0.1".to_string(), "a".to_string(), policy(&[(22, false), (80, true)]));
    assert_eq!(server.collect_results(vec![(22, false), (22, true), (80, true)]), Err(CollectFault::Unexpected(22)));
}

#[test]
fn unresolved_server_has_one_finding_and_no_verdicts() {
    let mut server = ServerType::unknown("ghost.example".to_string());
    assert!(server.check_ports().is_empty());
    assert_eq!(server.collect_results(vec![]), Ok(()));
    let failures = server.failures();
    assert_eq!(failures.len(), 1);
    assert!(matches!(&failures[0], FailureKind::NoAddress(name) if name == "ghost.example"));
    assert_eq!(server.collect_results(vec![(22, true)]), Err(CollectFault::Unexpected(22)));
}

#[test]
fn unknown_server_accessors() {
    let server = UnknownServer::new("db1".to_string());
    assert_eq!(server.name(), "db1");
    assert_eq!(server.failures().len(), 1);
}

#[test]
fn servers_follow_declaration_order() {
    let role = web_role(vec!["b", "a", "c"]);
    let servers = role.servers(vec![Some("10.0.0.2".to_string()), None, Some("10.0.0.3".to_string())]);
    assert_eq!(servers.len(), 3);
    assert!(matches!(&servers[0], ServerType::Known(s) if s.name == "b" && s.address == "10.0.0.2"));
    assert!(matches!(&servers[1], ServerType::Unknown(s) if s.name == "a"));
    assert!(matches!(&servers[2], ServerType::Known(s) if s.name == "c" && s.tests.len() == 3));
}

#[test]
fn repeated_runs_report_in_the_same_order() {
    let role = web_role(vec!["b", "a"]);
    for _ in 0..3 {
        let servers = role
            .check_servers(
                vec![Some("10.0.0.2".to_string()), Some("10.0.0.1".to_string())],
                vec![vec![(443, true), (80, true), (22, true)], vec![(22, true), (80, false), (443, true)]],
            )
            .unwrap();
        let report = vec![RoleReport { name: "web".to_string(), servers }];
        let failures = fleet_failures(&report);
        let seen: Vec<(String, u16)> = failures
            .iter()
            .map(|f| match f {
                FailureKind::BadPort(t) => (t.name.clone(), t.port),
                FailureKind::NoAddress(n) => (n.clone(), 0),
            })
            .collect();
        assert_eq!(seen, vec![("b".to_string(), 22), ("a".to_string(), 22), ("a".to_string(), 80)]);
    }
}

#[test]
fn scenario_all_ports_match() {
    let role = web_role(vec!["web1"]);
    let servers = role
        .check_servers(vec![Some("192.0.2.10".to_string())], vec![vec![(80, true), (443, true), (22, false)]])
        .unwrap();
    match &servers[0] {
        ServerType::Known(s) => {
            assert_eq!(s.results.len(), 3);
            assert_eq!(s.results[&80], TestResultKind::Success);
            assert_eq!(s.results[&443], TestResultKind::Success);
            assert_eq!(s.results[&22], TestResultKind::Success);
        }
        ServerType::Unknown(_) => panic!("server should be resolved"),
    }
    let report = vec![RoleReport { name: "web".to_string(), servers }];
    assert!(fleet_failures(&report).is_empty());
}

#[test]
fn scenario_closed_port_accepts() {
    let role = web_role(vec!["web1"]);
    let servers = role
        .check_servers(vec![Some("192.0.2.10".to_string())], vec![vec![(22, true), (80, true), (443, true)]])
        .unwrap();
    match &servers[0] {
        ServerType::Known(s) => assert_eq!(s.results[&22], TestResultKind::Failure(false, true)),
        ServerType::Unknown(_) => panic!("server should be resolved"),
    }
    let report = vec![RoleReport { name: "web".to_string(), servers }];
    let failures = fleet_failures(&report);
    assert_eq!(failures.len(), 1);
    match &failures[0] {
        FailureKind::BadPort(t) => {
            assert_eq!(t.name, "web1");
            assert_eq!(t.address, "192.0.2.10");
            assert_eq!(t.port, 22);
            assert!(!t.expected);
            assert!(t.actual);
        }
        FailureKind::NoAddress(_) => panic!("expected a port violation"),
    }
}

#[test]
fn scenario_unresolved_server_among_others() {
    let role = web_role(vec!["nowhere", "web2"]);
    let servers = role
        .check_servers(vec![None, Some("192.0.2.11".to_string())], vec![vec![], vec![(80, true), (443, true), (22, false)]])
        .unwrap();
    assert!(matches!(&servers[0], ServerType::Unknown(s) if s.name == "nowhere"));
    assert!(matches!(&servers[1], ServerType::Known(s) if s.results.len() == 3));
    let report = vec![RoleReport { name: "web".to_string(), servers }];
    let failures = fleet_failures(&report);
    assert_eq!(failures.len(), 1);
    assert!(matches!(&failures[0], FailureKind::NoAddress(n) if n == "nowhere"));
}

#[test]
fn check_servers_rejects_outcomes_for_unresolved_server() {
    let role = web_role(vec!["nowhere"]);
    let r = role.check_servers(vec![None], vec![vec![(22, true)]]);
    assert!(matches!(r, Err(CollectFault::Unexpected(22))));
}

#[test]
fn role_ports_and_accessors() {
    let role = web_role(vec!["web1"]);
    let mut ports: Vec<u16> = role.ports().into_iter().collect();
    ports.sort();
    assert_eq!(ports, vec![22, 80, 443]);
    assert_eq!(role.name(), "web");
    assert_eq!(role.server_names(), &vec!["web1".to_string()]);
    assert_eq!(role.services().http, Some(true));
}

#[test]
fn inventory_ports_and_names() {
    let db = Role {
        name: "db".to_string(),
        services: Services { ssh: Some(true), http: None, https: None, mariadb: None, postgresql: Some(true), other: Some(policy(&[(80, false)])) },
        servers: vec!["database-primary".to_string()],
    };
    let inventory = Inventory { roles: vec![web_role(vec!["web1", "web22"]), db] };
    assert_eq!(inventory.all_ports(), vec![22, 80, 443, 5432]);
    assert_eq!(collect_ports(&inventory.roles), vec![22, 80, 443, 5432]);
    assert_eq!(inventory.all_server_names(), vec!["web1".to_string(), "web22".to_string(), "database-primary".to_string()]);
    assert_eq!(inventory.length_of_longest_server_name(), 16);
}

#[test]
fn longest_name_counts_characters_and_empty_fleet_is_zero() {
    let inventory = Inventory { roles: vec![web_role(vec!["héllo", "ab"])] };
    assert_eq!(inventory.length_of_longest_server_name(), 5);
    assert_eq!(Inventory { roles: vec![] }.length_of_longest_server_name(), 0);
    assert!(Inventory { roles: vec![] }.all_ports().is_empty());
}

#[test]
fn header_row() {
    assert_eq!(format_header(&vec![22, 80, 443], 5), "\t-              \t-    \t22\t80\t443");
    assert_eq!(format_header(&vec![], 0), "\t-              \t-\t");
}

#[test]
fn result_cells() {
    let mut results = HashMap::new();
    results.insert(22, TestResultKind::Success);
    results.insert(80, TestResultKind::Failure(true, false));
    results.insert(443, TestResultKind::Skipped);
    assert_eq!(format_results(&vec![22, 80, 443, 8080], results), "pass\tfail\t \t ");
}

#[test]
fn server_row() {
    let mut results = HashMap::new();
    results.insert(80, TestResultKind::Success);
    let row = format_server("10.0.0.1".to_string(), "web1".to_string(), 6, &vec![22, 80], results);
    assert_eq!(row, "\t10.0.0.1       \tweb1  \t \tpass");
}

#[test]
fn long_address_is_not_cut() {
    let row = format_server("2001:db8::1234:5678".to_string(), "a".to_string(), 0, &vec![], HashMap::new());
    assert_eq!(row, "\t2001:db8::1234:5678\ta\t");
}

#[test]
fn failure_description() {
    let failure = TestFailure::new("10.0.0.1".to_string(), "web1".to_string(), 5432, true, false);
    assert_eq!(
        failure.describe(),
        "Connection Failure for `5432` on server `web1` at `10.0.0.1`:\n\tExpected to connect but connection failed\n"
    );
    let other = TestFailure::new("10.0.0.2".to_string(), "db".to_string(), 0, false, true);
    assert_eq!(
        other.describe(),
        "Connection Failure for `0` on server `db` at `10.0.0.2`:\n\tExpected to not connect but connection succeeded\n"
    );
}

#[test]
fn bad_port_builds_failure() {
    match FailureKind::bad_port("10.0.0.1".to_string(), "web1".to_string(), 65535, false, true) {
        FailureKind::BadPort(t) => {
            assert_eq!(t.port, 65535);
            assert_eq!(t.describe(), "Connection Failure for `65535` on server `web1` at `10.0.0.1`:\n\tExpected to not connect but connection succeeded\n");
        }
        FailureKind::NoAddress(_) => panic!("expected a port violation"),
    }
}

#[test]
fn outcome_words() {
    assert_eq!(should_connect_output(true), "to connect");
    assert_eq!(should_connect_output(false), "to not connect");
    assert_eq!(connection_result_output(true), "succeeded");
    assert_eq!(connection_result_output(false), "failed");
}
