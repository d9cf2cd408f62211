//! The text utilities: rendering, parsing, tokenizing and trimming.

use port_kill::container::{
    container_lists_pid, container_name_result, parse_container_candidates, parse_container_line,
};
use port_kill::menu::{kill_menu_label, process_label, tray_icon_name};
use port_kill::text::{
    i64_to_string, join_strings, parse_i32, parse_u16, split_on, strip_leading_char,
    strip_prefix_str, strip_trailing_str, suffix_after_last_char, tokenize, trim, trim_matching,
    u64_to_string,
};
use port_kill::types::ProcessInfo;

#[test]
fn renders_decimals() {
    assert_eq!(u64_to_string(0), "0");
    assert_eq!(u64_to_string(7), "7");
    assert_eq!(u64_to_string(3000), "3000");
    assert_eq!(u64_to_string(65535), "65535");
    assert_eq!(i64_to_string(-42), "-42");
    assert_eq!(i64_to_string(120), "120");
}

#[test]
fn parses_ports_and_pids() {
    assert_eq!(parse_u16("3000"), Some(3000));
    assert_eq!(parse_u16("65535"), Some(65535));
    assert_eq!(parse_u16("65536"), None);
    assert_eq!(parse_u16("007"), Some(7));
    assert_eq!(parse_u16(""), None);
    assert_eq!(parse_u16("30a0"), None);
    assert_eq!(parse_u16("-1"), None);

    assert_eq!(parse_i32("2147483647"), Some(2147483647));
    assert_eq!(parse_i32("2147483648"), None);
    assert_eq!(parse_i32("111"), Some(111));
}

#[test]
fn round_trips_a_rendered_port() {
    for p in [0u16, 1, 9, 10, 99, 3000, 65535] {
        assert_eq!(parse_u16(&u64_to_string(p as u64)), Some(p));
    }
}

#[test]
fn tokenizes_on_whitespace_runs() {
    assert_eq!(tokenize("a b  c"), vec!["a", "b", "c"]);
    assert_eq!(tokenize("  leading\tand trailing  "), vec!["leading", "and", "trailing"]);
    assert_eq!(tokenize(""), Vec::<String>::new());
    assert_eq!(tokenize("   "), Vec::<String>::new());
    assert_eq!(tokenize("one"), vec!["one"]);
}

#[test]
fn splits_on_separator_keeping_empty_fields() {
    assert_eq!(split_on("a,b,,c", ','), vec!["a", "b", "", "c"]);
    assert_eq!(split_on("", ','), vec![""]);
    assert_eq!(split_on("one", '\t'), vec!["one"]);
    assert_eq!(split_on("a\tb\tc", '\t'), vec!["a", "b", "c"]);
}

#[test]
fn trims_whitespace_and_matching_characters() {
    assert_eq!(trim("  x y\t\n"), "x y");
    assert_eq!(trim(""), "");
    assert_eq!(trim(" \t "), "");
    assert_eq!(trim_matching("\"node.exe\"", '"'), "node.exe");
    assert_eq!(trim_matching("\"\"\"x\"", '"'), "x");
    assert_eq!(trim_matching("plain", '"'), "plain");
}

#[test]
fn takes_suffixes_and_strips_edges() {
    assert_eq!(suffix_after_last_char("0.0.0.0:3000", ':'), "3000");
    assert_eq!(suffix_after_last_char("[::1]:8080", ':'), "8080");
    assert_eq!(suffix_after_last_char("nocolon", ':'), "nocolon");
    assert_eq!(suffix_after_last_char("/usr/bin/node", '/'), "node");
    assert_eq!(suffix_after_last_char("", ':'), "");

    assert_eq!(strip_leading_char("/my-app", '/'), "my-app");
    assert_eq!(strip_leading_char("//twice", '/'), "/twice");
    assert_eq!(strip_leading_char("bare", '/'), "bare");

    assert_eq!(strip_trailing_str("node.exe", ".exe"), "node");
    assert_eq!(strip_trailing_str("node", ".exe"), "node");
    assert_eq!(strip_trailing_str(".exe", ".exe"), "");

    assert_eq!(strip_prefix_str("Bearer abc.def", "Bearer "), Some("abc.def".to_string()));
    assert_eq!(strip_prefix_str("Basic abc", "Bearer "), None);
}

#[test]
fn joins_strings_with_separator() {
    let parts = vec!["Chrome".to_string(), "ControlCe".to_string()];
    assert_eq!(join_strings(&parts, ", "), "Chrome, ControlCe");
    assert_eq!(join_strings(&vec!["one".to_string()], ", "), "one");
    assert_eq!(join_strings(&Vec::new(), ", "), "");
}

#[test]
fn container_listing_parses_ids_and_membership() {
    assert_eq!(
        parse_container_line("abc123\tmy-app\t0.0.0.0:3000->3000/tcp"),
        Some("abc123".to_string())
    );
    assert_eq!(parse_container_line("short\tline"), None);

    let listing = vec![
        "CONTAINER ID\tNAMES\tPORTS".to_string(),
        "abc123\tmy-app\t3000/tcp".to_string(),
        "broken line".to_string(),
        "def456\tother\t80/tcp".to_string(),
    ];
    assert_eq!(
        parse_container_candidates(&listing),
        vec!["abc123".to_string(), "def456".to_string()]
    );
    assert_eq!(parse_container_candidates(&Vec::new()), Vec::<String>::new());

    let top = vec![
        "UID   PID   PPID  C".to_string(),
        "root  111   1     0".to_string(),
        "root  222   1     0".to_string(),
    ];
    assert!(container_lists_pid(&top, 222));
    assert!(!container_lists_pid(&top, 333));
}

#[test]
fn container_names_fall_back_to_the_id() {
    let id = "abc123".to_string();
    assert_eq!(container_name_result(true, "/my-app\n", &id), "my-app");
    assert_eq!(container_name_result(true, "plain", &id), "plain");
    assert_eq!(container_name_result(false, "ignored", &id), "abc123");
}

#[test]
fn labels_follow_display_rules() {
    let plain = ProcessInfo {
        pid: 111,
        port: 3000,
        command: "node".to_string(),
        name: "node".to_string(),
        container_id: None,
        container_name: None,
    };
    assert_eq!(process_label(&plain, false), "Port 3000: node");
    assert_eq!(process_label(&plain, true), "Port 3000: node (PID 111)");
    assert_eq!(kill_menu_label(&plain, false), "Kill: Port 3000: node");

    let boxed = ProcessInfo {
        container_id: Some("abc123".to_string()),
        container_name: Some("my-app".to_string()),
        ..plain.clone()
    };
    assert_eq!(process_label(&boxed, true), "Port 3000: node [Docker: my-app]");
}

#[test]
fn tray_icon_names_follow_count() {
    assert_eq!(tray_icon_name(0), "port-kill-green");
    assert_eq!(tray_icon_name(1), "port-kill-orange");
    assert_eq!(tray_icon_name(9), "port-kill-orange");
    assert_eq!(tray_icon_name(10), "port-kill-red");
}
