//! How actions are confirmed.

use sway_launch::action::SwayAction;
use sway_launch::confirmation::{
    WindowChange, WindowEvent, WindowEventMatch, WindowEventMatchError, MOVE_POLL_GRACE,
    WAIT_TIME_POLL_GRACE,
};
use sway_launch::time;
use sway_launch::tree::{ContainerState, Node, NodeLayout, NodeType, Rect, WindowProperties};
use sway_launch::values::{Position, Size, Split};

fn rect(x: i32, y: i32, width: i32, height: i32) -> Rect {
    Rect { x, y, width, height }
}

fn leaf_node_value(container_id: i64, app_id: Option<&str>, class: Option<&str>) -> Node {
    Node {
        id: container_id,
        name: None,
        node_type: NodeType::Con,
        current_border_width: 0,
        layout: NodeLayout::Unset,
        rect: rect(0, 0, 0, 0),
        deco_rect: rect(0, 0, 0, 0),
        focused: false,
        floating: None,
        nodes: vec![],
        floating_nodes: vec![],
        sticky: false,
        fullscreen_mode: None,
        scratchpad_state: None,
        app_id: app_id.map(str::to_string),
        pid: None,
        window_properties: class.map(|class| WindowProperties {
            class: Some(class.to_string()),
        }),
        marks: vec![],
    }
}

fn window_event(
    change: &str,
    container_id: i64,
    app_id: Option<&str>,
    class: Option<&str>,
) -> WindowEvent {
    let change = match change {
        "new" => WindowChange::New,
        "close" => WindowChange::Close,
        "focus" => WindowChange::Focus,
        "title" => WindowChange::Title,
        "fullscreen_mode" => WindowChange::FullscreenMode,
        "move" => WindowChange::Move,
        "floating" => WindowChange::Floating,
        "urgent" => WindowChange::Urgent,
        "mark" => WindowChange::Mark,
        other => panic!("unknown change: {other}"),
    };
    WindowEvent { change, container: leaf_node_value(container_id, app_id, class) }
}

fn state_with(mutate: impl FnOnce(&mut ContainerState)) -> ContainerState {
    let mut state = ContainerState::default();
    mutate(&mut state);
    state
}

fn workspace_action(workspace: &str) -> SwayAction<'_> {
    SwayAction::Workspace {
        container_id: 42,
        workspace,
        verbose: false,
        timeout: time::Duration::from_secs(5),
    }
}

fn output_action(output: &str) -> SwayAction<'_> {
    SwayAction::Output {
        container_id: 42,
        output,
        verbose: false,
        timeout: time::Duration::from_secs(5),
    }
}

fn mark_action(mark: &str) -> SwayAction<'_> {
    SwayAction::Mark {
        container_id: 42,
        mark,
        verbose: false,
        timeout: time::Duration::from_secs(5),
    }
}

fn floating_action() -> SwayAction<'static> {
    SwayAction::Floating {
        container_id: 42,
        verbose: false,
        timeout: time::Duration::from_secs(5),
    }
}

#[test]
fn confirmation_exec_only_matches_new_window_change() {
    let action = SwayAction::Exec {
        command: "foot",
        app_id_match: "",
        class_match: "",
        verbose: false,
        timeout: time::Duration::from_secs(5),
    };
    assert_eq!(
        action.matching_window_change_events(),
        Some(vec![WindowChange::New])
    );
}

#[test]
fn confirmation_floating_matches_floating_window_change() {
    let action = SwayAction::Floating {
        container_id: 42,
        verbose: false,
        timeout: time::Duration::from_secs(5),
    };
    assert_eq!(
        action.matching_window_change_events(),
        Some(vec![WindowChange::Floating])
    );
}

#[test]
fn confirmation_fullscreen_matches_fullscreen_mode_window_change() {
    let action = SwayAction::Fullscreen {
        container_id: 42,
        verbose: false,
        timeout: time::Duration::from_secs(5),
    };
    assert_eq!(
        action.matching_window_change_events(),
        Some(vec![WindowChange::FullscreenMode])
    );
}

#[test]
fn confirmation_focus_matches_focus_window_change() {
    let action = SwayAction::Focus {
        container_id: 42,
        verbose: false,
        timeout: time::Duration::from_secs(5),
    };
    assert_eq!(
        action.matching_window_change_events(),
        Some(vec![WindowChange::Focus])
    );
}

#[test]
fn confirmation_workspace_matches_move_window_change() {
    let action = SwayAction::Workspace {
        container_id: 42,
        workspace: "web",
        verbose: false,
        timeout: time::Duration::from_secs(5),
    };
    assert_eq!(
        action.matching_window_change_events(),
        Some(vec![WindowChange::Move])
    );
}

#[test]
fn confirmation_output_matches_move_window_change() {
    let action = SwayAction::Output {
        container_id: 42,
        output: "HDMI-A-1",
        verbose: false,
        timeout: time::Duration::from_secs(5),
    };
    assert_eq!(
        action.matching_window_change_events(),
        Some(vec![WindowChange::Move])
    );
}

#[test]
fn confirmation_scratchpad_matches_move_window_change() {
    let action = SwayAction::Scratchpad {
        container_id: 42,
        verbose: false,
        timeout: time::Duration::from_secs(5),
    };
    assert_eq!(
        action.matching_window_change_events(),
        Some(vec![WindowChange::Move])
    );
}

#[test]
fn confirmation_mark_matches_mark_window_change() {
    let action = SwayAction::Mark {
        container_id: 42,
        mark: "foo",
        verbose: false,
        timeout: time::Duration::from_secs(5),
    };
    assert_eq!(
        action.matching_window_change_events(),
        Some(vec![WindowChange::Mark])
    );
}

#[test]
fn confirmation_sticky_has_no_matching_window_change() {
    let action = SwayAction::Sticky {
        container_id: 42,
        verbose: false,
        wait_time: time::Duration::from_millis(20),
    };
    assert_eq!(action.matching_window_change_events(), None);
}

#[test]
fn confirmation_split_height_width_have_no_matching_window_change() {
    let split = SwayAction::Split {
        container_id: 42,
        split: Split::V,
        verbose: false,
        wait_time: time::Duration::from_millis(20),
    };
    let new_column = SwayAction::NewColumn {
        container_id: 42,
        verbose: false,
        wait_time: time::Duration::from_millis(20),
    };
    let new_row = SwayAction::NewRow {
        container_id: 42,
        verbose: false,
        wait_time: time::Duration::from_millis(20),
    };
    let height = SwayAction::Height {
        container_id: 42,
        height: Size::Pixels(300),
        verbose: false,
        wait_time: time::Duration::from_millis(20),
    };
    let width = SwayAction::Width {
        container_id: 42,
        width: Size::Percent(20),
        verbose: false,
        wait_time: time::Duration::from_millis(20),
    };
    let position = SwayAction::Position {
        container_id: 42,
        position: Position::Center,
        verbose: false,
        wait_time: time::Duration::from_millis(20),
    };
    assert_eq!(split.matching_window_change_events(), None);
    assert_eq!(new_column.matching_window_change_events(), None);
    assert_eq!(new_row.matching_window_change_events(), None);
    assert_eq!(height.matching_window_change_events(), None);
    assert_eq!(width.matching_window_change_events(), None);
    assert_eq!(position.matching_window_change_events(), None);
}

#[test]
fn confirmation_move_actions_poll_for_a_shorter_grace_than_everything_else() {
    let new_column = SwayAction::NewColumn {
        container_id: 42,
        verbose: false,
        wait_time: time::Duration::from_millis(20),
    };
    let new_row = SwayAction::NewRow {
        container_id: 42,
        verbose: false,
        wait_time: time::Duration::from_millis(20),
    };
    let split = SwayAction::Split {
        container_id: 42,
        split: Split::H,
        verbose: false,
        wait_time: time::Duration::from_millis(20),
    };

    assert_eq!(new_column.poll_grace(), time::Duration::from_millis(MOVE_POLL_GRACE));
    assert_eq!(new_row.poll_grace(), time::Duration::from_millis(MOVE_POLL_GRACE));
    assert_eq!(split.poll_grace(), time::Duration::from_millis(WAIT_TIME_POLL_GRACE));
    assert!(MOVE_POLL_GRACE < WAIT_TIME_POLL_GRACE);
}

#[test]
fn confirmation_every_other_polling_variant_keeps_the_full_grace() {
    let height = SwayAction::Height {
        container_id: 42,
        height: Size::Pixels(300),
        verbose: false,
        wait_time: time::Duration::from_millis(20),
    };
    let width = SwayAction::Width {
        container_id: 42,
        width: Size::Pixels(300),
        verbose: false,
        wait_time: time::Duration::from_millis(20),
    };
    let position = SwayAction::Position {
        container_id: 42,
        position: Position::Center,
        verbose: false,
        wait_time: time::Duration::from_millis(20),
    };
    let sticky = SwayAction::Sticky {
        container_id: 42,
        verbose: false,
        wait_time: time::Duration::from_millis(20),
    };

    for action in [height, width, position, sticky] {
        assert_eq!(action.poll_grace(), time::Duration::from_millis(WAIT_TIME_POLL_GRACE));
    }
}

#[test]
fn confirmation_split_polls() {
    for split in [Split::H, Split::V] {
        let action = SwayAction::Split {
            container_id: 42,
            split,
            verbose: false,
            wait_time: time::Duration::from_millis(20),
        };
        assert!(action.polls(None));
    }
}

#[test]
fn confirmation_new_column_and_new_row_do_not_poll_without_a_baseline() {
    let new_column = SwayAction::NewColumn {
        container_id: 42,
        verbose: false,
        wait_time: time::Duration::from_millis(20),
    };
    let new_row = SwayAction::NewRow {
        container_id: 42,
        verbose: false,
        wait_time: time::Duration::from_millis(20),
    };
    assert!(!new_column.polls(None));
    assert!(!new_row.polls(None));
}

#[test]
fn confirmation_new_column_and_new_row_poll_given_a_baseline() {
    let new_column = SwayAction::NewColumn {
        container_id: 42,
        verbose: false,
        wait_time: time::Duration::from_millis(20),
    };
    let new_row = SwayAction::NewRow {
        container_id: 42,
        verbose: false,
        wait_time: time::Duration::from_millis(20),
    };
    let baseline = Some(rect(0, 0, 640, 720));
    assert!(new_column.polls(baseline));
    assert!(new_row.polls(baseline));
}

#[test]
fn confirmation_height_and_width_in_pixels_poll() {
    let height = SwayAction::Height {
        container_id: 42,
        height: Size::Pixels(300),
        verbose: false,
        wait_time: time::Duration::from_millis(20),
    };
    let width = SwayAction::Width {
        container_id: 42,
        width: Size::Pixels(400),
        verbose: false,
        wait_time: time::Duration::from_millis(20),
    };
    assert!(height.polls(None));
    assert!(width.polls(None));
}

#[test]
fn confirmation_height_and_width_in_percent_do_not_poll() {
    let height = SwayAction::Height {
        container_id: 42,
        height: Size::Percent(20),
        verbose: false,
        wait_time: time::Duration::from_millis(20),
    };
    let width = SwayAction::Width {
        container_id: 42,
        width: Size::Percent(20),
        verbose: false,
        wait_time: time::Duration::from_millis(20),
    };
    assert!(!height.polls(None));
    assert!(!width.polls(None));
}

#[test]
fn confirmation_sticky_polls() {
    let action = SwayAction::Sticky {
        container_id: 42,
        verbose: false,
        wait_time: time::Duration::from_millis(20),
    };
    assert!(action.polls(None));
}

#[test]
fn confirmation_position_polls() {
    for position in [Position::Center, Position::Coordinates { x: 100, y: 200 }] {
        let action = SwayAction::Position {
            container_id: 42,
            position,
            verbose: false,
            wait_time: time::Duration::from_millis(20),
        };
        assert!(action.polls(None));
    }
}

#[test]
fn confirmation_event_confirmed_actions_do_not_poll() {
    let floating = SwayAction::Floating {
        container_id: 42,
        verbose: false,
        timeout: time::Duration::from_secs(5),
    };
    let mark = SwayAction::Mark {
        container_id: 42,
        mark: "pinned",
        verbose: false,
        timeout: time::Duration::from_secs(5),
    };
    assert!(!floating.polls(None));
    assert!(!mark.polls(None));
}

#[test]
fn confirmation_exec_without_filter_matches_any_new_window() {
    let action = SwayAction::Exec {
        command: "foot",
        app_id_match: "",
        class_match: "",
        verbose: false,
        timeout: time::Duration::from_secs(5),
    };
    let event = window_event("new", 99, Some("foot"), None);
    assert!(matches!(
        action.matches_window_event(&event),
        Ok(WindowEventMatch::NewWindowMatchWithoutCheck)
    ));
}

#[test]
fn confirmation_exec_without_filter_rejects_non_new_window_change() {
    let action = SwayAction::Exec {
        command: "foot",
        app_id_match: "",
        class_match: "",
        verbose: false,
        timeout: time::Duration::from_secs(5),
    };
    let event = window_event("move", 99, Some("foot"), None);
    assert!(matches!(
        action.matches_window_event(&event),
        Err(WindowEventMatchError::EventChangeTypeMismatch)
    ));
}

#[test]
fn confirmation_exec_with_app_id_match_accepts_matching_app_id() {
    let action = SwayAction::Exec {
        command: "foot",
        app_id_match: "foot",
        class_match: "",
        verbose: false,
        timeout: time::Duration::from_secs(5),
    };
    let event = window_event("new", 99, Some("foot"), None);
    assert!(matches!(
        action.matches_window_event(&event),
        Ok(WindowEventMatch::WindowAppId)
    ));
}

#[test]
fn confirmation_exec_with_app_id_match_rejects_different_app_id() {
    let action = SwayAction::Exec {
        command: "foot",
        app_id_match: "foot",
        class_match: "",
        verbose: false,
        timeout: time::Duration::from_secs(5),
    };
    let event = window_event("new", 99, Some("alacritty"), None);
    assert!(matches!(
        action.matches_window_event(&event),
        Err(WindowEventMatchError::WindowAppIdMismatch)
    ));
}

#[test]
fn confirmation_exec_with_app_id_match_rejects_missing_app_id() {
    let action = SwayAction::Exec {
        command: "firefox",
        app_id_match: "firefox",
        class_match: "",
        verbose: false,
        timeout: time::Duration::from_secs(5),
    };
    let event = window_event("new", 99, None, None);
    assert!(matches!(
        action.matches_window_event(&event),
        Err(WindowEventMatchError::WindowAppIdMismatch)
    ));
}

#[test]
fn confirmation_exec_with_class_match_accepts_matching_class() {
    let action = SwayAction::Exec {
        command: "firefox",
        app_id_match: "",
        class_match: "Firefox",
        verbose: false,
        timeout: time::Duration::from_secs(5),
    };
    let event = window_event("new", 99, None, Some("Firefox"));
    assert!(matches!(
        action.matches_window_event(&event),
        Ok(WindowEventMatch::WindowClass)
    ));
}

#[test]
fn confirmation_exec_with_class_match_rejects_different_class() {
    let action = SwayAction::Exec {
        command: "firefox",
        app_id_match: "",
        class_match: "Firefox",
        verbose: false,
        timeout: time::Duration::from_secs(5),
    };
    let event = window_event("new", 99, None, Some("Chromium"));
    assert!(matches!(
        action.matches_window_event(&event),
        Err(WindowEventMatchError::WindowClassMismatch)
    ));
}

#[test]
fn confirmation_exec_with_class_match_rejects_missing_window_properties() {
    let action = SwayAction::Exec {
        command: "firefox",
        app_id_match: "",
        class_match: "Firefox",
        verbose: false,
        timeout: time::Duration::from_secs(5),
    };
    let event = window_event("new", 99, None, None);
    assert!(matches!(
        action.matches_window_event(&event),
        Err(WindowEventMatchError::WindowClassMismatch)
    ));
}

#[test]
fn confirmation_exec_with_app_id_match_ignores_class_match_when_both_set() {
    let action = SwayAction::Exec {
        command: "foot",
        app_id_match: "foot",
        class_match: "SomethingElseEntirely",
        verbose: false,
        timeout: time::Duration::from_secs(5),
    };
    let event = window_event("new", 99, Some("foot"), Some("SomethingElseEntirely"));
    assert!(matches!(
        action.matches_window_event(&event),
        Ok(WindowEventMatch::WindowAppId)
    ));
}

#[test]
fn confirmation_non_exec_action_matches_on_container_id() {
    let action = SwayAction::Floating {
        container_id: 42,
        verbose: false,
        timeout: time::Duration::from_secs(5),
    };
    let event = window_event("floating", 42, None, None);
    assert!(matches!(
        action.matches_window_event(&event),
        Ok(WindowEventMatch::WindowContainerIdMatch)
    ));
}

#[test]
fn confirmation_workspace_matches_on_container_id() {
    let action = SwayAction::Workspace {
        container_id: 42,
        workspace: "web",
        verbose: false,
        timeout: time::Duration::from_secs(5),
    };
    let event = window_event("move", 42, None, None);
    assert!(matches!(
        action.matches_window_event(&event),
        Ok(WindowEventMatch::WindowContainerIdMatch)
    ));
}

#[test]
fn confirmation_fullscreen_matches_on_container_id() {
    let action = SwayAction::Fullscreen {
        container_id: 42,
        verbose: false,
        timeout: time::Duration::from_secs(5),
    };
    let event = window_event("fullscreen_mode", 42, None, None);
    assert!(matches!(
        action.matches_window_event(&event),
        Ok(WindowEventMatch::WindowContainerIdMatch)
    ));
}

#[test]
fn confirmation_scratchpad_matches_on_container_id() {
    let action = SwayAction::Scratchpad {
        container_id: 42,
        verbose: false,
        timeout: time::Duration::from_secs(5),
    };
    let event = window_event("move", 42, None, None);
    assert!(matches!(
        action.matches_window_event(&event),
        Ok(WindowEventMatch::WindowContainerIdMatch)
    ));
}

#[test]
fn confirmation_non_exec_action_rejects_different_container_id() {
    let action = SwayAction::Floating {
        container_id: 42,
        verbose: false,
        timeout: time::Duration::from_secs(5),
    };
    let event = window_event("floating", 99, None, None);
    assert!(matches!(
        action.matches_window_event(&event),
        Err(WindowEventMatchError::NoMatchingEvent)
    ));
}

#[test]
fn confirmation_non_exec_action_rejects_wrong_change_type() {
    let action = SwayAction::Floating {
        container_id: 42,
        verbose: false,
        timeout: time::Duration::from_secs(5),
    };
    let event = window_event("mark", 42, None, None);
    assert!(matches!(
        action.matches_window_event(&event),
        Err(WindowEventMatchError::EventChangeTypeMismatch)
    ));
}

#[test]
fn confirmation_state_satisfies_workspace_only_for_the_requested_workspace() {
    let state = state_with(|state| state.workspace = Some("3".to_string()));

    assert!(workspace_action("3").state_satisfies(Some(&state)));
    assert!(!workspace_action("2").state_satisfies(Some(&state)));
}

#[test]
fn confirmation_state_satisfies_workspace_false_when_the_workspace_is_unknown() {
    let state = ContainerState::default();
    assert!(!workspace_action("3").state_satisfies(Some(&state)));
}

#[test]
fn confirmation_state_satisfies_output_only_for_the_requested_output() {
    let state = state_with(|state| state.output = Some("HEADLESS-1".to_string()));

    assert!(output_action("HEADLESS-1").state_satisfies(Some(&state)));
    assert!(!output_action("HEADLESS-2").state_satisfies(Some(&state)));
}

#[test]
fn confirmation_state_satisfies_floating_fullscreen_focus_and_scratchpad_read_their_own_flag() {
    let floating = state_with(|state| state.floating = true);
    let fullscreen = state_with(|state| state.fullscreen = true);
    let focused = state_with(|state| state.focused = true);
    let scratchpadded = state_with(|state| state.in_scratchpad = true);

    let fullscreen_action = SwayAction::Fullscreen {
        container_id: 42,
        verbose: false,
        timeout: time::Duration::from_secs(5),
    };
    let focus_action = SwayAction::Focus {
        container_id: 42,
        verbose: false,
        timeout: time::Duration::from_secs(5),
    };
    let scratchpad_action = SwayAction::Scratchpad {
        container_id: 42,
        verbose: false,
        timeout: time::Duration::from_secs(5),
    };

    assert!(floating_action().state_satisfies(Some(&floating)));
    assert!(!floating_action().state_satisfies(Some(&fullscreen)));
    assert!(fullscreen_action.state_satisfies(Some(&fullscreen)));
    assert!(!fullscreen_action.state_satisfies(Some(&floating)));
    assert!(focus_action.state_satisfies(Some(&focused)));
    assert!(!focus_action.state_satisfies(Some(&floating)));
    assert!(scratchpad_action.state_satisfies(Some(&scratchpadded)));
    assert!(!scratchpad_action.state_satisfies(Some(&floating)));
}

#[test]
fn confirmation_state_satisfies_mark_matches_any_held_mark() {
    let state = state_with(|state| {
        state.marks = vec!["other".to_string(), "dropdown-term".to_string()]
    });

    assert!(mark_action("dropdown-term").state_satisfies(Some(&state)));
    assert!(!mark_action("missing").state_satisfies(Some(&state)));
}

#[test]
fn confirmation_state_satisfies_is_false_for_an_action_with_no_state_to_check() {
    let state = state_with(|state| state.floating = true);
    let action = SwayAction::Split {
        container_id: 42,
        split: Split::H,
        verbose: false,
        wait_time: time::Duration::from_millis(20),
    };

    assert!(!action.state_satisfies(Some(&state)));
}

#[test]
fn confirmation_state_satisfies_is_false_when_the_container_is_gone() {
    assert!(!floating_action().state_satisfies(None));
    assert!(!workspace_action("3").state_satisfies(None));
    assert!(!mark_action("dropdown-term").state_satisfies(None));
}

#[test]
fn confirmation_window_event_match_display() {
    assert_eq!(
        WindowEventMatch::WindowAppId.to_string(),
        "Window app_id match"
    );
    assert_eq!(
        WindowEventMatch::WindowClass.to_string(),
        "Window class match"
    );
    assert_eq!(
        WindowEventMatch::NewWindowMatchWithoutCheck.to_string(),
        "New window without app_id or class check"
    );
    assert_eq!(
        WindowEventMatch::WindowContainerIdMatch.to_string(),
        "Window container id match"
    );
}

#[test]
fn confirmation_window_event_match_error_display() {
    assert_eq!(
        WindowEventMatchError::EventChangeTypeMismatch.to_string(),
        "Event does not match action event matches"
    );
    assert_eq!(
        WindowEventMatchError::WindowAppIdMismatch.to_string(),
        "app_id mismatch"
    );
    assert_eq!(
        WindowEventMatchError::WindowClassMismatch.to_string(),
        "class mismatch"
    );
    assert_eq!(
        WindowEventMatchError::NoMatchingEvent.to_string(),
        "No matching event"
    );
}
