//! Telling a launched process by the marker in its environment.

use sway_launch::process_marker::{
    any_process_has_env_var, generate_pid_marker_token, process_has_env_var, scan_for_marker,
    MarkerScan, PID_MARKER_VAR,
};

fn environ(bytes: &[u8]) -> Option<Vec<u8>> {
    Some(bytes.to_vec())
}

#[test]
fn generate_pid_marker_token_starts_with_this_processes_id() {
    let token = generate_pid_marker_token(4711, 1_700_000_000_123_456_789);
    assert!(token.starts_with("4711-"));
    assert_eq!(token, "4711-1700000000123456789");
    assert_eq!(generate_pid_marker_token(0, 0), "0-0");
    assert_ne!(generate_pid_marker_token(1, 23), generate_pid_marker_token(12, 3));
    assert_eq!(
        generate_pid_marker_token(u32::MAX, u128::MAX),
        "4294967295-340282366920938463463374607431768211455"
    );
}

#[test]
fn process_has_env_var_true_for_this_processes_own_environment() {
    let environ = environ(b"HOME=/root\0SWAY_LAUNCH_PID_MARKER=1-2\0PATH=/bin\0");
    assert!(process_has_env_var(&environ, PID_MARKER_VAR, "1-2"));
    assert!(process_has_env_var(&environ, "HOME", "/root"));
    assert!(process_has_env_var(&environ, "PATH", "/bin"));
}

#[test]
fn process_has_env_var_false_for_wrong_value() {
    let environ = environ(b"SWAY_LAUNCH_PID_MARKER=1-23\0XSWAY_LAUNCH_PID_MARKER=1-2\0");
    assert!(!process_has_env_var(&environ, PID_MARKER_VAR, "1-2"));
    assert!(!process_has_env_var(&environ, PID_MARKER_VAR, "definitely-not-the-real-value"));
}

#[test]
fn process_has_env_var_false_for_nonexistent_pid() {
    assert!(!process_has_env_var(&None, PID_MARKER_VAR, "1-2"));
}

#[test]
fn any_process_has_env_var_true_when_this_process_has_it() {
    let environs = vec![None, environ(b"A=b"), environ(b"SWAY_LAUNCH_PID_MARKER=1-2")];
    assert!(any_process_has_env_var(&environs, PID_MARKER_VAR, "1-2"));
}

#[test]
fn any_process_has_env_var_false_for_a_value_nothing_has() {
    let environs = vec![None, environ(b""), environ(b"SWAY_LAUNCH_PID_MARKER=1-2\0")];
    assert!(!any_process_has_env_var(&environs, PID_MARKER_VAR, "1-3"));
}

#[test]
fn a_scan_tells_unreadable_processes_from_unmarked_ones() {
    let scan = |environs: Vec<Option<Vec<u8>>>| scan_for_marker(&environs, PID_MARKER_VAR, "1-2");
    let marked = || environ(b"A=b\0SWAY_LAUNCH_PID_MARKER=1-2\0");
    assert_eq!(scan(vec![None, environ(b"A=b"), marked()]), MarkerScan::Marked);
    assert_eq!(scan(vec![None, environ(b"A=b")]), MarkerScan::Unmarked);
    assert_eq!(scan(vec![environ(b""), None]), MarkerScan::Unmarked);
    assert_eq!(scan(vec![None, None]), MarkerScan::Unreadable);
    assert_eq!(scan(vec![]), MarkerScan::Unreadable);
}
