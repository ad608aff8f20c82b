//! Converting the steps of a layout.

use sway_launch::launch::Target;
use sway_launch::layout::{LayoutStep, ResolvedIds};
use sway_launch::time;

fn minimal_step() -> LayoutStep {
    LayoutStep {
        command: Some("foot".to_string()),
        con_id: None,
        existing: false,
        target_id: None,
        id: None,
        app_id: None,
        class: None,
        mark_match: None,
        split: None,
        floating: false,
        sticky: false,
        fullscreen: false,
        focus: false,
        mark: None,
        new_column: false,
        new_row: false,
        workspace: None,
        output: None,
        height: None,
        width: None,
        position: None,
        scratchpad: false,
        timeout: None,
        wait_time: None,
    }
}

#[test]
fn to_sway_launch_exec_step_uses_command() {
    let step = minimal_step();
    let sway_launch = step
        .to_sway_launch(
            time::Duration::from_secs(5),
            time::Duration::from_millis(20),
            false,
            &ResolvedIds::new(),
        )
        .expect("valid step should convert");
    assert!(matches!(
        sway_launch.target,
        Target::Exec { command: "foot" }
    ));
}

#[test]
fn to_sway_launch_con_id_step_ignores_command() {
    let mut step = minimal_step();
    step.command = None;
    step.con_id = Some(42);
    let sway_launch = step
        .to_sway_launch(
            time::Duration::from_secs(5),
            time::Duration::from_millis(20),
            false,
            &ResolvedIds::new(),
        )
        .expect("valid step should convert");
    assert!(matches!(sway_launch.target, Target::ConId(42)));
}

#[test]
fn to_sway_launch_existing_step_requires_app_id_or_class() {
    let mut step = minimal_step();
    step.command = None;
    step.existing = true;
    assert!(step
        .to_sway_launch(
            time::Duration::from_secs(5),
            time::Duration::from_millis(20),
            false,
            &ResolvedIds::new()
        )
        .is_err());
}

#[test]
fn to_sway_launch_existing_step_with_app_id_succeeds() {
    let mut step = minimal_step();
    step.command = None;
    step.existing = true;
    step.app_id = Some("foot".to_string());
    let sway_launch = step
        .to_sway_launch(
            time::Duration::from_secs(5),
            time::Duration::from_millis(20),
            false,
            &ResolvedIds::new(),
        )
        .expect("existing step with app_id should convert");
    assert!(matches!(sway_launch.target, Target::Existing));
}

#[test]
fn to_sway_launch_step_without_a_target_errors() {
    let mut step = minimal_step();
    step.command = None;
    assert!(step
        .to_sway_launch(
            time::Duration::from_secs(5),
            time::Duration::from_millis(20),
            false,
            &ResolvedIds::new()
        )
        .is_err());
}

#[test]
fn to_sway_launch_rejects_app_id_and_class_together() {
    let mut step = minimal_step();
    step.app_id = Some("foot".to_string());
    step.class = Some("Foot".to_string());
    assert!(step
        .to_sway_launch(
            time::Duration::from_secs(5),
            time::Duration::from_millis(20),
            false,
            &ResolvedIds::new()
        )
        .is_err());
}

#[test]
fn to_sway_launch_rejects_app_id_and_mark_match_together() {
    let mut step = minimal_step();
    step.app_id = Some("foot".to_string());
    step.mark_match = Some("dropdown-term".to_string());
    assert!(step
        .to_sway_launch(
            time::Duration::from_secs(5),
            time::Duration::from_millis(20),
            false,
            &ResolvedIds::new()
        )
        .is_err());
}

#[test]
fn to_sway_launch_rejects_con_id_and_mark_match_together() {
    let mut step = minimal_step();
    step.command = None;
    step.con_id = Some(42);
    step.mark_match = Some("dropdown-term".to_string());
    assert!(step
        .to_sway_launch(
            time::Duration::from_secs(5),
            time::Duration::from_millis(20),
            false,
            &ResolvedIds::new()
        )
        .is_err());
}

#[test]
fn to_sway_launch_rejects_mark_match_without_existing() {
    let mut step = minimal_step();
    step.mark_match = Some("dropdown-term".to_string());
    let error = step
        .to_sway_launch(
            time::Duration::from_secs(5),
            time::Duration::from_millis(20),
            false,
            &ResolvedIds::new(),
        )
        .err()
        .expect("mark_match without existing should be rejected");
    assert!(error.contains("mark_match"));
}

#[test]
fn to_sway_launch_rejects_class_and_mark_match_together() {
    let mut step = minimal_step();
    step.class = Some("Foot".to_string());
    step.mark_match = Some("dropdown-term".to_string());
    assert!(step
        .to_sway_launch(
            time::Duration::from_secs(5),
            time::Duration::from_millis(20),
            false,
            &ResolvedIds::new()
        )
        .is_err());
}

#[test]
fn to_sway_launch_existing_step_with_mark_match_succeeds() {
    let mut step = minimal_step();
    step.command = None;
    step.existing = true;
    step.mark_match = Some("dropdown-term".to_string());
    let sway_launch = step
        .to_sway_launch(
            time::Duration::from_secs(5),
            time::Duration::from_millis(20),
            false,
            &ResolvedIds::new(),
        )
        .expect("existing step with mark_match should convert");
    assert!(matches!(sway_launch.target, Target::Existing));
    assert_eq!(sway_launch.mark_match, "dropdown-term");
}

#[test]
fn to_sway_launch_rejects_empty_command() {
    let mut step = minimal_step();
    step.command = Some(String::new());
    assert!(step
        .to_sway_launch(
            time::Duration::from_secs(5),
            time::Duration::from_millis(20),
            false,
            &ResolvedIds::new()
        )
        .is_err());
}

#[test]
fn to_sway_launch_rejects_whitespace_only_command() {
    let mut step = minimal_step();
    step.command = Some("   ".to_string());
    assert!(step
        .to_sway_launch(
            time::Duration::from_secs(5),
            time::Duration::from_millis(20),
            false,
            &ResolvedIds::new()
        )
        .is_err());
}

#[test]
fn to_sway_launch_rejects_blank_id() {
    let mut step = minimal_step();
    step.id = Some("  ".to_string());
    let error = step
        .to_sway_launch(
            time::Duration::from_secs(5),
            time::Duration::from_millis(20),
            false,
            &ResolvedIds::new(),
        )
        .err()
        .expect("blank id should be rejected");
    assert!(
        error.contains("id"),
        "error should name the field: {error:?}"
    );
}

#[test]
fn to_sway_launch_rejects_blank_target_id() {
    let mut step = minimal_step();
    step.command = None;
    step.target_id = Some("   ".to_string());
    let error = step
        .to_sway_launch(
            time::Duration::from_secs(5),
            time::Duration::from_millis(20),
            false,
            &ResolvedIds::new(),
        )
        .err()
        .expect("blank target_id should be rejected");
    assert!(
        error.contains("target_id"),
        "error should name the field: {error:?}"
    );
}

#[test]
fn to_sway_launch_rejects_command_and_con_id_together() {
    let mut step = minimal_step();
    step.con_id = Some(42);
    assert!(step
        .to_sway_launch(
            time::Duration::from_secs(5),
            time::Duration::from_millis(20),
            false,
            &ResolvedIds::new()
        )
        .is_err());
}

#[test]
fn to_sway_launch_rejects_con_id_and_app_id_together() {
    let mut step = minimal_step();
    step.command = None;
    step.con_id = Some(42);
    step.app_id = Some("foot".to_string());
    assert!(step
        .to_sway_launch(
            time::Duration::from_secs(5),
            time::Duration::from_millis(20),
            false,
            &ResolvedIds::new()
        )
        .is_err());
}

#[test]
fn to_sway_launch_rejects_con_id_and_class_together() {
    let mut step = minimal_step();
    step.command = None;
    step.con_id = Some(42);
    step.class = Some("Foot".to_string());
    assert!(step
        .to_sway_launch(
            time::Duration::from_secs(5),
            time::Duration::from_millis(20),
            false,
            &ResolvedIds::new()
        )
        .is_err());
}

#[test]
fn to_sway_launch_rejects_command_and_existing_together() {
    let mut step = minimal_step();
    step.existing = true;
    step.app_id = Some("foot".to_string());
    assert!(step
        .to_sway_launch(
            time::Duration::from_secs(5),
            time::Duration::from_millis(20),
            false,
            &ResolvedIds::new()
        )
        .is_err());
}

#[test]
fn to_sway_launch_rejects_con_id_and_existing_together() {
    let mut step = minimal_step();
    step.command = None;
    step.con_id = Some(42);
    step.existing = true;
    step.app_id = Some("foot".to_string());
    assert!(step
        .to_sway_launch(
            time::Duration::from_secs(5),
            time::Duration::from_millis(20),
            false,
            &ResolvedIds::new()
        )
        .is_err());
}

#[test]
fn to_sway_launch_rejects_command_and_target_id_together() {
    let mut step = minimal_step();
    step.target_id = Some("first".to_string());
    assert!(step
        .to_sway_launch(
            time::Duration::from_secs(5),
            time::Duration::from_millis(20),
            false,
            &ResolvedIds::new()
        )
        .is_err());
}

#[test]
fn to_sway_launch_target_id_resolves_via_resolved_ids() {
    let mut step = minimal_step();
    step.command = None;
    step.target_id = Some("first".to_string());
    let mut resolved_ids = ResolvedIds::new();
    resolved_ids.insert("first".to_string(), 42);
    let sway_launch = step
        .to_sway_launch(
            time::Duration::from_secs(5),
            time::Duration::from_millis(20),
            false,
            &resolved_ids,
        )
        .expect("target_id present in resolved_ids should convert");
    assert!(matches!(sway_launch.target, Target::ConId(42)));
}

#[test]
fn to_sway_launch_rejects_unresolved_target_id() {
    let mut step = minimal_step();
    step.command = None;
    step.target_id = Some("missing".to_string());
    let error = step
        .to_sway_launch(
            time::Duration::from_secs(5),
            time::Duration::from_millis(20),
            false,
            &ResolvedIds::new(),
        )
        .err()
        .expect("unresolved target_id should error");
    assert!(error.contains("missing"));
}

#[test]
fn to_sway_launch_rejects_a_mark_containing_a_double_quote() {
    let mut step = minimal_step();
    step.mark = Some("dropdown\"term".to_string());
    let error = step
        .to_sway_launch(
            time::Duration::from_secs(5),
            time::Duration::from_millis(20),
            false,
            &ResolvedIds::new(),
        )
        .err()
        .expect("a mark containing a double quote should be rejected");
    assert!(
        error.contains("mark"),
        "error should name the field: {error:?}"
    );
}

#[test]
fn to_sway_launch_rejects_a_blank_mark() {
    let mut step = minimal_step();
    step.mark = Some("   ".to_string());
    assert!(step
        .to_sway_launch(
            time::Duration::from_secs(5),
            time::Duration::from_millis(20),
            false,
            &ResolvedIds::new()
        )
        .is_err());
}

#[test]
fn to_sway_launch_rejects_a_blank_workspace() {
    let mut step = minimal_step();
    step.workspace = Some("".to_string());
    let error = step
        .to_sway_launch(
            time::Duration::from_secs(5),
            time::Duration::from_millis(20),
            false,
            &ResolvedIds::new(),
        )
        .err()
        .expect("a blank workspace should be rejected");
    assert!(
        error.contains("workspace"),
        "error should name the field: {error:?}"
    );
}

#[test]
fn to_sway_launch_rejects_an_output_containing_a_backslash() {
    let mut step = minimal_step();
    step.output = Some("HDMI\\A-1".to_string());
    assert!(step
        .to_sway_launch(
            time::Duration::from_secs(5),
            time::Duration::from_millis(20),
            false,
            &ResolvedIds::new()
        )
        .is_err());
}

#[test]
fn to_sway_launch_accepts_a_mark_containing_command_separators() {
    let mut step = minimal_step();
    step.mark = Some("foo, exec bar; baz".to_string());
    assert!(step
        .to_sway_launch(
            time::Duration::from_secs(5),
            time::Duration::from_millis(20),
            false,
            &ResolvedIds::new()
        )
        .is_ok());
}

#[test]
fn to_sway_launch_rejects_invalid_height() {
    let mut step = minimal_step();
    step.height = Some("notasize".to_string());
    assert!(step
        .to_sway_launch(
            time::Duration::from_secs(5),
            time::Duration::from_millis(20),
            false,
            &ResolvedIds::new()
        )
        .is_err());
}

#[test]
fn to_sway_launch_rejects_invalid_width() {
    let mut step = minimal_step();
    step.width = Some("notasize".to_string());
    assert!(step
        .to_sway_launch(
            time::Duration::from_secs(5),
            time::Duration::from_millis(20),
            false,
            &ResolvedIds::new()
        )
        .is_err());
}

#[test]
fn to_sway_launch_rejects_invalid_position() {
    let mut step = minimal_step();
    step.position = Some("notaposition".to_string());
    assert!(step
        .to_sway_launch(
            time::Duration::from_secs(5),
            time::Duration::from_millis(20),
            false,
            &ResolvedIds::new()
        )
        .is_err());
}

#[test]
fn to_sway_launch_uses_step_timeout_when_set() {
    let mut step = minimal_step();
    step.timeout = Some(7);
    let sway_launch = step
        .to_sway_launch(
            time::Duration::from_secs(5),
            time::Duration::from_millis(20),
            false,
            &ResolvedIds::new(),
        )
        .expect("valid step should convert");
    assert_eq!(sway_launch.timeout, time::Duration::from_secs(7));
}

#[test]
fn to_sway_launch_falls_back_to_default_timeout() {
    let step = minimal_step();
    let sway_launch = step
        .to_sway_launch(
            time::Duration::from_secs(5),
            time::Duration::from_millis(20),
            false,
            &ResolvedIds::new(),
        )
        .expect("valid step should convert");
    assert_eq!(sway_launch.timeout, time::Duration::from_secs(5));
}
