//! The configuration's port selection, exclusion sets, description
//! and validation.

use std::collections::HashSet;
use port_kill::cli::{Args, LogLevel};

fn base_args() -> Args {
    Args {
        start_port: 2000,
        end_port: 6000,
        ports: None,
        ignore_ports: None,
        ignore_processes: None,
        console: false,
        verbose: false,
        docker: false,
        show_pid: false,
        log_level: LogLevel::Info,
    }
}

#[test]
fn test_get_ports_to_monitor_range() {
    let args = Args { start_port: 3000, end_port: 3005, ..base_args() };

    let ports = args.get_ports_to_monitor();
    assert_eq!(ports, vec![3000, 3001, 3002, 3003, 3004, 3005]);
}

#[test]
fn test_get_ports_to_monitor_specific() {
    let args = Args { ports: Some(vec![3000, 8000, 8080]), ..base_args() };

    let ports = args.get_ports_to_monitor();
    assert_eq!(ports, vec![3000, 8000, 8080]);
}

#[test]
fn test_get_ignore_ports_set() {
    let args = Args { ignore_ports: Some(vec![5353, 5000, 7000]), ..base_args() };

    let ignore_ports = args.get_ignore_ports_set();
    assert_eq!(ignore_ports, HashSet::from([5353, 5000, 7000]));
}

#[test]
fn test_get_ignore_processes_set() {
    let args = Args {
        ignore_processes: Some(vec!["Chrome".to_string(), "ControlCe".to_string()]),
        ..base_args()
    };

    let ignore_processes = args.get_ignore_processes_set();
    assert_eq!(
        ignore_processes,
        HashSet::from([String::from("Chrome"), String::from("ControlCe")])
    );
}

#[test]
fn test_get_port_description_with_ignores() {
    let args = Args {
        ignore_ports: Some(vec![5353, 5000]),
        ignore_processes: Some(vec!["Chrome".to_string(), "ControlCe".to_string()]),
        ..base_args()
    };

    assert_eq!(
        args.get_port_description(),
        "port range: 2000-6000 (ignoring ports: 5353, 5000, ignoring processes: Chrome, ControlCe)"
    );
}

#[test]
fn test_get_port_description_range() {
    let args = Args { start_port: 3000, end_port: 3010, ..base_args() };

    assert_eq!(args.get_port_description(), "port range: 3000-3010");
}

#[test]
fn test_get_port_description_specific() {
    let args = Args { ports: Some(vec![3000, 8000, 8080]), ..base_args() };

    assert_eq!(args.get_port_description(), "specific ports: 3000, 8000, 8080");
}

#[test]
fn test_validation_valid() {
    let args = Args { start_port: 3000, end_port: 3010, ..base_args() };

    assert!(args.validate().is_ok());
}

#[test]
fn test_validation_invalid_range() {
    let args = Args { start_port: 3010, end_port: 3000, ..base_args() };

    assert!(args.validate().is_err());
}

#[test]
fn test_validation_empty_specific_ports() {
    let args = Args { ports: Some(vec![]), ..base_args() };

    assert!(args.validate().is_err());
}

#[test]
fn test_validation_invalid_ignore_port() {
    let args = Args { ignore_ports: Some(vec![0]), ..base_args() };

    assert!(args.validate().is_err());
}

#[test]
fn test_validation_empty_ignore_process() {
    let args = Args { ignore_processes: Some(vec!["".to_string()]), ..base_args() };

    assert!(args.validate().is_err());
}

#[test]
fn test_validation_messages() {
    let inverted = Args { start_port: 9, end_port: 1, ..base_args() };
    assert_eq!(
        inverted.validate().unwrap_err(),
        "Start port cannot be greater than end port"
    );

    let zero = Args { ports: Some(vec![3000, 0]), ..base_args() };
    assert_eq!(zero.validate().unwrap_err(), "Port 0 is not valid");

    let zero_ignore = Args { ignore_ports: Some(vec![0]), ..base_args() };
    assert_eq!(zero_ignore.validate().unwrap_err(), "Ignore port 0 is not valid");

    let blank = Args { ignore_processes: Some(vec!["   ".to_string()]), ..base_args() };
    assert_eq!(
        blank.validate().unwrap_err(),
        "Ignore process names cannot be empty"
    );
}

#[test]
fn test_get_ports_set_membership() {
    let args = Args { start_port: 3000, end_port: 3002, ..base_args() };
    let set = args.get_ports_set();
    assert_eq!(set, HashSet::from([3000, 3001, 3002]));
}

#[test]
fn test_log_level_filters() {
    assert_eq!(LogLevel::Info.to_rust_log(), "info");
    assert_eq!(LogLevel::Warn.to_rust_log(), "warn");
    assert_eq!(LogLevel::Error.to_rust_log(), "error");
    assert_eq!(LogLevel::Off.to_rust_log(), "off");

    assert!(LogLevel::Info.is_info_enabled());
    assert!(!LogLevel::Warn.is_info_enabled());
    assert!(LogLevel::Warn.is_warn_enabled());
    assert!(!LogLevel::Error.is_warn_enabled());
    assert!(LogLevel::Error.is_error_enabled());
    assert!(!LogLevel::Off.is_error_enabled());
}
