//! Scanning, filtering and change detection: provider-line parsing,
//! snapshot assembly, the ignore filter, and the change detector.

use port_kill::filter::{filter_snapshot, IgnoreConfig};
use port_kill::notifier::Notifier;
use port_kill::scan::{
    build_port_spec, build_snapshot, parse_netstat_line, parse_pid_output, parse_provider_line,
    parse_tasklist_name, resolve_identity,
};
use port_kill::snapshot::{ChangeDetector, ProcessUpdate, Snapshot};
use port_kill::types::{ProcessInfo, StatusBarInfo};

fn binding(port: u16, pid: i32, name: &str) -> ProcessInfo {
    ProcessInfo {
        pid,
        port,
        command: name.to_string(),
        name: name.to_string(),
        container_id: None,
        container_name: None,
    }
}

#[test]
fn parses_well_formed_provider_line() {
    let line = "node      111 dev   23u  IPv4 0xdead      0t0  TCP *:3000 (LISTEN)";
    let e = parse_provider_line(line).unwrap();
    assert_eq!(e.pid, 111);
    assert_eq!(e.port, 3000);
    assert_eq!(e.name, "node");
    assert_eq!(e.command, "node");
    assert!(e.container_id.is_none());
}

#[test]
fn skips_malformed_provider_lines() {
    assert!(parse_provider_line("COMMAND PID USER").is_none());
    assert!(parse_provider_line("node abc dev 23u IPv4 0xdead 0t0 TCP *:3000 (LISTEN)").is_none());
    assert!(parse_provider_line("node 111 dev 23u IPv4 0xdead 0t0 TCP *:notaport (LISTEN)")
        .is_none());
    assert!(parse_provider_line("node 111 dev 23u IPv4 0xdead 0t0 TCP *:99999 (LISTEN)").is_none());
    assert!(parse_provider_line("").is_none());
}

#[test]
fn parses_netstat_line() {
    let line = "  TCP    0.0.0.0:3000     0.0.0.0:0      LISTENING       4312";
    assert_eq!(parse_netstat_line(line), Some((4312, 3000)));
    assert!(parse_netstat_line("TCP 0.0.0.0:3000 0.0.0.0:0").is_none());
}

#[test]
fn parses_tasklist_name() {
    let (command, display) =
        parse_tasklist_name("\"node.exe\",\"4312\",\"Console\",\"1\",\"10 000 K\"");
    assert_eq!(command, "node.exe");
    assert_eq!(display, "node");

    let (command2, display2) = parse_tasklist_name("\"svc\",\"1\",\"Console\",\"1\",\"1 K\"");
    assert_eq!(command2, "svc");
    assert_eq!(display2, "svc");
}

#[test]
fn parses_pid_only_output() {
    assert_eq!(parse_pid_output("  111\n"), Some(111));
    assert_eq!(parse_pid_output(""), None);
    assert_eq!(parse_pid_output("   \n"), None);
    assert_eq!(parse_pid_output("abc"), None);
}

#[test]
fn resolves_identity_with_fallback() {
    let (command, name) = resolve_identity(true, "/usr/local/bin/node\n");
    assert_eq!(command, "/usr/local/bin/node");
    assert_eq!(name, "node");

    let (command, name) = resolve_identity(false, "whatever");
    assert_eq!(command, "unknown");
    assert_eq!(name, "unknown");
}

#[test]
fn port_spec_lists_few_and_collapses_many() {
    assert_eq!(build_port_spec(&vec![3000, 8000, 8080]), "3000,8000,8080");
    assert_eq!(
        build_port_spec(&vec![3000, 3001, 3002, 3003, 3004, 3005, 3006, 3007, 3008, 3009, 3010]),
        "3000-3010"
    );
    assert_eq!(
        build_port_spec(&vec![9000, 3000, 3001, 3002, 3003, 3004, 3005, 3006, 3007, 3008, 2000]),
        "2000-9000"
    );
}

#[test]
fn snapshot_scenario_ignored_name_is_never_published() {
    // Ports 3000 and 8080 are monitored; the provider reports node on
    // 3000 and java on 8080; java is ignored by name.
    let records = vec![binding(3000, 111, "node"), binding(8080, 222, "java")];
    let requested = vec![3000, 8080];
    let cfg = IgnoreConfig::new(vec![], vec!["java".to_string()]);

    let snapshot = build_snapshot(&records, &requested, &cfg);
    assert_eq!(snapshot.len(), 1);
    let kept = snapshot.get(3000).unwrap();
    assert_eq!(kept.pid, 111);
    assert_eq!(kept.name, "node");
    assert!(snapshot.get(8080).is_none());
}

#[test]
fn snapshot_drops_spurious_and_ignored_ports() {
    let records = vec![
        binding(3000, 111, "node"),
        binding(4500, 333, "stray"),
        binding(5353, 444, "mdns"),
    ];
    let requested = vec![3000, 5353];
    let cfg = IgnoreConfig::new(vec![5353], vec![]);

    let snapshot = build_snapshot(&records, &requested, &cfg);
    // 4500 was never requested (spurious range hit); 5353 is ignored.
    assert_eq!(snapshot.len(), 1);
    assert!(snapshot.get(3000).is_some());
    assert!(snapshot.get(4500).is_none());
    assert!(snapshot.get(5353).is_none());
}

#[test]
fn filter_removes_by_port_and_name_and_is_idempotent() {
    let mut s = Snapshot::new();
    s.upsert(binding(3000, 111, "node"));
    s.upsert(binding(5353, 222, "mdns"));
    s.upsert(binding(8080, 333, "java"));
    let cfg = IgnoreConfig::new(vec![5353], vec!["java".to_string()]);

    let once = filter_snapshot(&s, &cfg);
    assert_eq!(once.len(), 1);
    assert!(once.get(3000).is_some());
    assert!(once.get(5353).is_none());
    assert!(once.get(8080).is_none());

    let twice = filter_snapshot(&once, &cfg);
    assert!(twice.same_as(&once));
}

#[test]
fn change_detector_publishes_only_on_structural_change() {
    let mut detector = ChangeDetector::new();

    let mut first = Snapshot::new();
    first.upsert(binding(3000, 111, "node"));
    let update = detector.observe(first).expect("first snapshot is a change");
    assert_eq!(update.count, 1);

    // The same mapping again, built in another order with a second
    // entry inserted and replaced: still no change.
    let mut same = Snapshot::new();
    same.upsert(binding(3000, 999, "stale"));
    same.upsert(binding(3000, 111, "node"));
    assert!(detector.observe(same).is_none());

    let mut different = Snapshot::new();
    different.upsert(binding(3000, 112, "node"));
    assert!(detector.observe(different).is_some());

    let empty = Snapshot::new();
    let update = detector.observe(empty).expect("emptying is a change");
    assert_eq!(update.count, 0);
}

#[test]
fn snapshot_comparison_is_order_insensitive() {
    let mut a = Snapshot::new();
    a.upsert(binding(3000, 1, "one"));
    a.upsert(binding(4000, 2, "two"));

    let mut b = Snapshot::new();
    b.upsert(binding(4000, 2, "two"));
    b.upsert(binding(3000, 1, "one"));

    assert!(a.same_as(&b));

    b.upsert(binding(5000, 3, "three"));
    assert!(!a.same_as(&b));
}

#[test]
fn status_bar_summarizes_counts() {
    let zero = StatusBarInfo::from_process_count(0);
    assert_eq!(zero.text, "0");
    assert_eq!(zero.tooltip, "Port Kill - No processes detected");

    let one = StatusBarInfo::from_process_count(1);
    assert_eq!(one.text, "1");
    assert_eq!(one.tooltip, "Port Kill - 1 process running");

    let many = StatusBarInfo::from_process_count(12);
    assert_eq!(many.text, "12");
    assert_eq!(many.tooltip, "Port Kill - 12 processes running");
}

#[test]
fn notifier_drops_oldest_when_full() {
    let mut notifier = Notifier::new(2);
    assert_eq!(notifier.backlog(), 0);
    assert!(notifier.take_next().is_none());

    let mut first = Snapshot::new();
    first.upsert(binding(3000, 1, "one"));
    let mut second = Snapshot::new();
    second.upsert(binding(4000, 2, "two"));
    let mut third = Snapshot::new();
    third.upsert(binding(5000, 3, "three"));

    notifier.publish(ProcessUpdate::new(first));
    notifier.publish(ProcessUpdate::new(second));
    notifier.publish(ProcessUpdate::new(third));
    assert_eq!(notifier.backlog(), 2);

    // The oldest was dropped; generation order is kept for the rest.
    let u = notifier.take_next().unwrap();
    assert!(u.processes.get(4000).is_some());
    let u = notifier.take_next().unwrap();
    assert!(u.processes.get(5000).is_some());
    assert!(notifier.take_next().is_none());
}
