use midikeys::levels::get_log_level;
use midikeys::ports::{choose_connect_by, device_part, select_port, ConnectBy, PortSelectError};

fn port_names() -> Vec<String> {
    vec![
        String::from("Midi Through:Midi Through Port-0"),
        String::from("Synth:Synth MIDI 1"),
        String::from("Synth:Synth MIDI 2"),
    ]
}

#[test]
fn select_by_name_takes_first_prefix_match() {
    let ports = port_names();
    let by = ConnectBy::Name(String::from("Synth"));
    assert_eq!(select_port(&ports, &by), Ok(1));
}

#[test]
fn select_by_name_fails_without_match() {
    let ports = port_names();
    let by = ConnectBy::Name(String::from("Piano"));
    assert_eq!(select_port(&ports, &by), Err(PortSelectError::NoPortMatchesName));
}

#[test]
fn name_match_is_by_prefix_not_substring() {
    let ports = port_names();
    let by = ConnectBy::Name(String::from("MIDI 1"));
    assert_eq!(select_port(&ports, &by), Err(PortSelectError::NoPortMatchesName));
}

#[test]
fn select_by_index_checks_range() {
    let ports = port_names();
    assert_eq!(select_port(&ports, &ConnectBy::Index(2)), Ok(2));
    assert_eq!(
        select_port(&ports, &ConnectBy::Index(3)),
        Err(PortSelectError::IndexOutOfRange)
    );
}

#[test]
fn select_default_takes_first_port() {
    let ports = port_names();
    assert_eq!(select_port(&ports, &ConnectBy::Default), Ok(0));
    assert_eq!(
        select_port(&Vec::new(), &ConnectBy::Default),
        Err(PortSelectError::NoPortsAvailable)
    );
}

#[test]
fn connect_by_prefers_name_then_index() {
    let by = choose_connect_by(Some(String::from("Synth")), Some(2));
    assert!(matches!(by, ConnectBy::Name(n) if n == "Synth"));
    let by = choose_connect_by(None, Some(2));
    assert!(matches!(by, ConnectBy::Index(2)));
    let by = choose_connect_by(None, None);
    assert!(matches!(by, ConnectBy::Default));
}

#[test]
fn device_part_is_the_name_before_the_colon() {
    assert_eq!(device_part("Midi Through:Midi Through Port-0"), Some("Midi Through"));
    assert_eq!(device_part(":x"), Some(""));
    assert_eq!(device_part("No colon here"), None);
    assert_eq!(device_part(""), None);
}

#[test]
fn log_level_defaults_to_3() {
    assert_eq!(get_log_level(0, 0), 3);
}

#[test]
fn verbose_raises_and_quiet_lowers_the_level() {
    assert_eq!(get_log_level(0, 1), 4);
    assert_eq!(get_log_level(0, 2), 5);
    assert_eq!(get_log_level(1, 0), 2);
    assert_eq!(get_log_level(3, 0), 0);
}

#[test]
fn log_level_clamps_to_0_and_5() {
    assert_eq!(get_log_level(0, 100), 5);
    assert_eq!(get_log_level(100, 0), 0);
    assert_eq!(get_log_level(-128, 0), 5);
    assert_eq!(get_log_level(0, -128), 0);
    assert_eq!(get_log_level(127, -128), 0);
    assert_eq!(get_log_level(-128, 127), 5);
}
