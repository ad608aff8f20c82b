//! Planning what is done to a window, and the pieces that the plan rests on.

use sway_launch::action::SwayAction;
use sway_launch::confirmation::{
    WindowChange, WindowEvent, WindowEventMatch, WindowEventMatchError, MOVE_POLL_GRACE,
    WAIT_TIME_POLL_GRACE,
};
use sway_launch::launch::{PlannedAction, SwayLaunch, Target};
use sway_launch::time;
use sway_launch::tree::{
    compute_center_position, contains_id, expected_position, find_containing_name, find_node,
    find_parent_layout, find_workspace_node, height_matches, is_at_the_trailing_workspace_edge,
    matching_container_ids, node_is_floating, node_is_in_scratchpad, node_position,
    resolve_matches, tree_shows_container_in_scratchpad, width_matches, window_app_id_match,
    window_class_match, window_mark_match, ContainerState, Floating, MoveDirection, Node,
    NodeLayout, NodeType, Rect, ScratchpadState, WindowProperties,
};
use sway_launch::values::{Position, Size, Split};

fn rect(x: i32, y: i32, width: i32, height: i32) -> Rect {
    Rect { x, y, width, height }
}

fn leaf_node_value(container_id: i64, app_id: Option<&str>, class: Option<&str>) -> Node {
    Node {
        id: container_id,
        name: None,
        node_type: NodeType::Con,
        current_border_width: 0,
        layout: NodeLayout::Unset,
        rect: rect(0, 0, 0, 0),
        deco_rect: rect(0, 0, 0, 0),
        focused: false,
        floating: None,
        nodes: vec![],
        floating_nodes: vec![],
        sticky: false,
        fullscreen_mode: None,
        scratchpad_state: None,
        app_id: app_id.map(str::to_string),
        pid: None,
        window_properties: class.map(|class| WindowProperties {
            class: Some(class.to_string()),
        }),
        marks: vec![],
    }
}

fn window_event(
    change: &str,
    container_id: i64,
    app_id: Option<&str>,
    class: Option<&str>,
) -> WindowEvent {
    let change = match change {
        "new" => WindowChange::New,
        "close" => WindowChange::Close,
        "focus" => WindowChange::Focus,
        "title" => WindowChange::Title,
        "fullscreen_mode" => WindowChange::FullscreenMode,
        "move" => WindowChange::Move,
        "floating" => WindowChange::Floating,
        "urgent" => WindowChange::Urgent,
        "mark" => WindowChange::Mark,
        other => panic!("unknown change: {other}"),
    };
    WindowEvent { change, container: leaf_node_value(container_id, app_id, class) }
}

fn node_type_named(name: &str) -> NodeType {
    match name {
        "root" => NodeType::Root,
        "output" => NodeType::Output,
        "workspace" => NodeType::Workspace,
        "con" => NodeType::Con,
        "floating_con" => NodeType::FloatingCon,
        other => panic!("unknown node type: {other}"),
    }
}

fn layout_named(name: &str) -> NodeLayout {
    match name {
        "splith" => NodeLayout::SplitH,
        "splitv" => NodeLayout::SplitV,
        "stacked" => NodeLayout::Stacked,
        "tabbed" => NodeLayout::Tabbed,
        other => panic!("unknown layout: {other}"),
    }
}

fn scratchpad_named(name: &str) -> ScratchpadState {
    match name {
        "none" => ScratchpadState::Absent,
        "fresh" => ScratchpadState::Fresh,
        "changed" => ScratchpadState::Changed,
        other => panic!("unknown scratchpad state: {other}"),
    }
}

fn floating_named(name: &str) -> Floating {
    match name {
        "auto_on" => Floating::AutoOn,
        "auto_off" => Floating::AutoOff,
        "user_on" => Floating::UserOn,
        "user_off" => Floating::UserOff,
        other => panic!("unknown floating state: {other}"),
    }
}

fn container_node_value(container_id: i64, nodes: Vec<Node>, floating_nodes: Vec<Node>) -> Node {
    let mut value = leaf_node_value(container_id, None, None);
    value.nodes = nodes;
    value.floating_nodes = floating_nodes;
    value
}

fn node_tree(container_id: i64, nodes: Vec<Node>, floating_nodes: Vec<Node>) -> Node {
    container_node_value(container_id, nodes, floating_nodes)
}

fn workspace_node_tree(
    container_id: i64,
    name: &str,
    nodes: Vec<Node>,
    floating_nodes: Vec<Node>,
) -> Node {
    let mut value = container_node_value(container_id, nodes, floating_nodes);
    value.node_type = NodeType::Workspace;
    value.name = Some(name.to_string());
    value
}

fn named_node_value(container_id: i64, kind: &str, name: &str, nodes: Vec<Node>) -> Node {
    let mut value = container_node_value(container_id, nodes, vec![]);
    value.node_type = node_type_named(kind);
    value.name = Some(name.to_string());
    value
}

fn state_tree(workspace_name: &str, leaf: Node) -> Node {
    let workspace = named_node_value(2, "workspace", workspace_name, vec![leaf]);
    let output = named_node_value(1, "output", "HEADLESS-1", vec![workspace]);
    named_node_value(0, "root", "root", vec![output])
}

fn node_with_geometry(width: i32, height: i32, border_width: i32, deco_height: i32) -> Node {
    let mut value = leaf_node_value(10, Some("foot"), None);
    value.rect = rect(0, 0, width, height);
    value.deco_rect = rect(0, 0, width, deco_height);
    value.current_border_width = border_width;
    value
}

fn node_with_floating_state(node_type: &str, floating: Option<&str>) -> Node {
    let mut value = leaf_node_value(10, Some("foot"), None);
    value.node_type = node_type_named(node_type);
    if let Some(floating) = floating {
        value.floating = Some(floating_named(floating));
    }
    value
}

fn node_with_scratchpad_state(state: Option<&str>) -> Node {
    let mut value = leaf_node_value(10, Some("foot"), None);
    if let Some(state) = state {
        value.scratchpad_state = Some(scratchpad_named(state));
    }
    value
}

fn state_with(mutate: impl FnOnce(&mut ContainerState)) -> ContainerState {
    let mut state = ContainerState::default();
    mutate(&mut state);
    state
}

fn workspace_action(workspace: &str) -> SwayAction<'_> {
    SwayAction::Workspace {
        container_id: 42,
        workspace,
        verbose: false,
        timeout: time::Duration::from_secs(5),
    }
}

fn output_action(output: &str) -> SwayAction<'_> {
    SwayAction::Output {
        container_id: 42,
        output,
        verbose: false,
        timeout: time::Duration::from_secs(5),
    }
}

fn mark_action(mark: &str) -> SwayAction<'_> {
    SwayAction::Mark {
        container_id: 42,
        mark,
        verbose: false,
        timeout: time::Duration::from_secs(5),
    }
}

fn floating_action() -> SwayAction<'static> {
    SwayAction::Floating {
        container_id: 42,
        verbose: false,
        timeout: time::Duration::from_secs(5),
    }
}

fn node_with_rects(rect_x: i32, rect_y: i32, deco_x: i32, deco_y: i32, deco_set: bool) -> Node {
    let mut value = leaf_node_value(10, Some("foot"), None);
    value.rect = rect(rect_x, rect_y, 400, 300);
    value.deco_rect = if deco_set {
        rect(deco_x, deco_y, 400, 25)
    } else {
        rect(0, 0, 0, 0)
    };
    value
}

fn workspace_node_tree_with_layout(
    container_id: i64,
    name: &str,
    layout: &str,
    nodes: Vec<Node>,
) -> Node {
    let mut value = container_node_value(container_id, nodes, vec![]);
    value.node_type = node_type_named("workspace");
    value.name = Some(name.to_string());
    value.layout = layout_named(layout);
    value
}

fn minimal_sway_launch() -> SwayLaunch<'static> {
    SwayLaunch {
        target: Target::ConId(42),
        app_id_match: "",
        class_match: "",
        mark_match: "",
        split: None,
        floating: false,
        sticky: false,
        fullscreen: false,
        focus: false,
        mark: "",
        new_column: false,
        new_row: false,
        workspace: None,
        output: None,
        height: None,
        width: None,
        position: None,
        scratchpad: false,
        verbose: false,
        timeout: time::Duration::from_secs(5),
        wait_time: time::Duration::from_millis(20),
    }
}

#[test]
fn sway_launch_sway_command_exec() {
    let action = SwayAction::Exec {
        command: "foot",
        app_id_match: "",
        class_match: "",
        verbose: false,
        timeout: time::Duration::from_secs(5),
    };
    assert_eq!(action.sway_command(), "exec foot");
}

#[test]
fn sway_launch_sway_command_floating() {
    let action = SwayAction::Floating {
        container_id: 42,
        verbose: false,
        timeout: time::Duration::from_secs(5),
    };
    assert_eq!(action.sway_command(), "[con_id=42] floating enable");
}

#[test]
fn sway_launch_sway_command_sticky() {
    let action = SwayAction::Sticky {
        container_id: 42,
        verbose: false,
        wait_time: time::Duration::from_millis(20),
    };
    assert_eq!(action.sway_command(), "[con_id=42] sticky enable");
}

#[test]
fn sway_launch_sway_command_fullscreen() {
    let action = SwayAction::Fullscreen {
        container_id: 42,
        verbose: false,
        timeout: time::Duration::from_secs(5),
    };
    assert_eq!(action.sway_command(), "[con_id=42] fullscreen enable");
}

#[test]
fn sway_launch_sway_command_focus() {
    let action = SwayAction::Focus {
        container_id: 42,
        verbose: false,
        timeout: time::Duration::from_secs(5),
    };
    assert_eq!(action.sway_command(), "[con_id=42] focus");
}

#[test]
fn sway_launch_sway_command_split_v() {
    let action = SwayAction::Split {
        container_id: 42,
        split: Split::V,
        verbose: false,
        wait_time: time::Duration::from_millis(20),
    };
    assert_eq!(action.sway_command(), "[con_id=42] splitv");
}

#[test]
fn sway_launch_sway_command_split_h() {
    let action = SwayAction::Split {
        container_id: 42,
        split: Split::H,
        verbose: false,
        wait_time: time::Duration::from_millis(20),
    };
    assert_eq!(action.sway_command(), "[con_id=42] splith");
}

#[test]
fn sway_launch_sway_command_mark_quotes_the_mark() {
    let action = SwayAction::Mark {
        container_id: 42,
        mark: "foo, exec evil",
        verbose: false,
        timeout: time::Duration::from_secs(5),
    };
    assert_eq!(action.sway_command(), "[con_id=42] mark \"foo, exec evil\"");
}

#[test]
fn sway_launch_sway_command_new_column() {
    let action = SwayAction::NewColumn {
        container_id: 42,
        verbose: false,
        wait_time: time::Duration::from_millis(20),
    };
    assert_eq!(action.sway_command(), "[con_id=42] move right");
}

#[test]
fn sway_launch_sway_command_new_row() {
    let action = SwayAction::NewRow {
        container_id: 42,
        verbose: false,
        wait_time: time::Duration::from_millis(20),
    };
    assert_eq!(action.sway_command(), "[con_id=42] move down");
}

#[test]
fn sway_launch_sway_command_workspace_quotes_the_workspace() {
    let action = SwayAction::Workspace {
        container_id: 42,
        workspace: "web, exec evil",
        verbose: false,
        timeout: time::Duration::from_secs(5),
    };
    assert_eq!(
        action.sway_command(),
        "[con_id=42] move workspace \"web, exec evil\""
    );
}

#[test]
fn sway_launch_sway_command_output_quotes_the_output() {
    let action = SwayAction::Output {
        container_id: 42,
        output: "HDMI-A-1, exec evil",
        verbose: false,
        timeout: time::Duration::from_secs(5),
    };
    assert_eq!(
        action.sway_command(),
        "[con_id=42] move container to output \"HDMI-A-1, exec evil\""
    );
}

#[test]
fn sway_launch_sway_command_height() {
    let action = SwayAction::Height {
        container_id: 42,
        height: Size::Pixels(300),
        verbose: false,
        wait_time: time::Duration::from_millis(20),
    };
    assert_eq!(action.sway_command(), "[con_id=42] resize set height 300px");
}

#[test]
fn sway_launch_sway_command_width() {
    let action = SwayAction::Width {
        container_id: 42,
        width: Size::Percent(20),
        verbose: false,
        wait_time: time::Duration::from_millis(20),
    };
    assert_eq!(action.sway_command(), "[con_id=42] resize set width 20ppt");
}

#[test]
fn sway_launch_sway_command_position_center() {
    let action = SwayAction::Position {
        container_id: 42,
        position: Position::Center,
        verbose: false,
        wait_time: time::Duration::from_millis(20),
    };
    assert_eq!(action.sway_command(), "[con_id=42] move position center");
}

#[test]
fn sway_launch_sway_command_position_coordinates() {
    let action = SwayAction::Position {
        container_id: 42,
        position: Position::Coordinates { x: 100, y: 200 },
        verbose: false,
        wait_time: time::Duration::from_millis(20),
    };
    assert_eq!(action.sway_command(), "[con_id=42] move position 100 200");
}

#[test]
fn sway_launch_sway_command_position_negative_coordinates() {
    let action = SwayAction::Position {
        container_id: 42,
        position: Position::Coordinates { x: -1920, y: -200 },
        verbose: false,
        wait_time: time::Duration::from_millis(20),
    };
    assert_eq!(
        action.sway_command(),
        "[con_id=42] move position -1920 -200"
    );
}

#[test]
fn sway_launch_sway_command_scratchpad() {
    let action = SwayAction::Scratchpad {
        container_id: 42,
        verbose: false,
        timeout: time::Duration::from_secs(5),
    };
    assert_eq!(action.sway_command(), "[con_id=42] move scratchpad");
}

#[test]
fn sway_launch_sway_command_verb_omits_the_con_id_prefix() {
    let action = SwayAction::Floating {
        container_id: 42,
        verbose: false,
        timeout: time::Duration::from_secs(5),
    };
    assert_eq!(action.sway_command(), "[con_id=42] floating enable");
    assert_eq!(action.sway_command_verb(), "floating enable");
}

#[test]
fn sway_launch_sway_command_verb_position_matches_sway_command_minus_the_prefix() {
    let action = SwayAction::Position {
        container_id: 42,
        position: Position::Coordinates { x: -1920, y: -200 },
        verbose: false,
        wait_time: time::Duration::from_millis(20),
    };
    assert_eq!(
        action.sway_command(),
        "[con_id=42] move position -1920 -200"
    );
    assert_eq!(action.sway_command_verb(), "move position -1920 -200");
}

#[test]
fn sway_launch_display_exec() {
    let action = SwayAction::Exec {
        command: "foot",
        app_id_match: "foot",
        class_match: "",
        verbose: false,
        timeout: time::Duration::from_secs(5),
    };
    assert_eq!(
        action.to_string(),
        "Exec \"foot\" (app_id_match: \"foot\") (class_match: \"\")"
    );
}

#[test]
fn sway_launch_display_split() {
    let action = SwayAction::Split {
        container_id: 42,
        split: Split::H,
        verbose: false,
        wait_time: time::Duration::from_millis(20),
    };
    assert_eq!(
        action.to_string(),
        "Split (container id: 42) (split: Horizontal)"
    );
}

#[test]
fn sway_launch_display_floating() {
    let action = SwayAction::Floating {
        container_id: 42,
        verbose: false,
        timeout: time::Duration::from_secs(5),
    };
    assert_eq!(action.to_string(), "Floating (container_id: 42)");
}

#[test]
fn sway_launch_display_sticky() {
    let action = SwayAction::Sticky {
        container_id: 42,
        verbose: false,
        wait_time: time::Duration::from_millis(20),
    };
    assert_eq!(action.to_string(), "Sticky (container_id: 42)");
}

#[test]
fn sway_launch_display_fullscreen() {
    let action = SwayAction::Fullscreen {
        container_id: 42,
        verbose: false,
        timeout: time::Duration::from_secs(5),
    };
    assert_eq!(action.to_string(), "Fullscreen (container_id: 42)");
}

#[test]
fn sway_launch_display_focus() {
    let action = SwayAction::Focus {
        container_id: 42,
        verbose: false,
        timeout: time::Duration::from_secs(5),
    };
    assert_eq!(action.to_string(), "Focus (container_id: 42)");
}

#[test]
fn sway_launch_display_new_column() {
    let action = SwayAction::NewColumn {
        container_id: 42,
        verbose: false,
        wait_time: time::Duration::from_millis(20),
    };
    assert_eq!(action.to_string(), "New column (container_id: 42)");
}

#[test]
fn sway_launch_display_new_row() {
    let action = SwayAction::NewRow {
        container_id: 42,
        verbose: false,
        wait_time: time::Duration::from_millis(20),
    };
    assert_eq!(action.to_string(), "New row (container_id: 42)");
}

#[test]
fn sway_launch_display_workspace() {
    let action = SwayAction::Workspace {
        container_id: 42,
        workspace: "web",
        verbose: false,
        timeout: time::Duration::from_secs(5),
    };
    assert_eq!(
        action.to_string(),
        "Workspace (container id: 42) (workspace: web)"
    );
}

#[test]
fn sway_launch_display_output() {
    let action = SwayAction::Output {
        container_id: 42,
        output: "HDMI-A-1",
        verbose: false,
        timeout: time::Duration::from_secs(5),
    };
    assert_eq!(
        action.to_string(),
        "Output (container id: 42) (output: HDMI-A-1)"
    );
}

#[test]
fn sway_launch_display_mark() {
    let action = SwayAction::Mark {
        container_id: 42,
        mark: "foo",
        verbose: false,
        timeout: time::Duration::from_secs(5),
    };
    assert_eq!(action.to_string(), "Mark (container id: 42) (mark: foo)");
}

#[test]
fn sway_launch_display_height() {
    let action = SwayAction::Height {
        container_id: 42,
        height: Size::Pixels(300),
        verbose: false,
        wait_time: time::Duration::from_millis(20),
    };
    assert_eq!(
        action.to_string(),
        "Height (container id: 42) (height: 300px)"
    );
}

#[test]
fn sway_launch_display_width() {
    let action = SwayAction::Width {
        container_id: 42,
        width: Size::Percent(20),
        verbose: false,
        wait_time: time::Duration::from_millis(20),
    };
    assert_eq!(
        action.to_string(),
        "Width (container id: 42) (width: 20ppt)"
    );
}

#[test]
fn sway_launch_display_position() {
    let action = SwayAction::Position {
        container_id: 42,
        position: Position::Center,
        verbose: false,
        wait_time: time::Duration::from_millis(20),
    };
    assert_eq!(
        action.to_string(),
        "Position (container id: 42) (position: center)"
    );
}

#[test]
fn sway_launch_display_scratchpad() {
    let action = SwayAction::Scratchpad {
        container_id: 42,
        verbose: false,
        timeout: time::Duration::from_secs(5),
    };
    assert_eq!(action.to_string(), "Scratchpad (container_id: 42)");
}

#[test]
fn sway_launch_verbose_reflects_the_flag() {
    let action = SwayAction::Floating {
        container_id: 42,
        verbose: true,
        timeout: time::Duration::from_secs(5),
    };
    assert!(action.verbose());
}

#[test]
fn sway_launch_duration_returns_the_timeout_for_an_event_based_action() {
    let action = SwayAction::Floating {
        container_id: 42,
        verbose: false,
        timeout: time::Duration::from_secs(7),
    };
    assert_eq!(action.duration(), time::Duration::from_secs(7));
}

#[test]
fn sway_launch_duration_returns_the_wait_time_for_a_time_based_action() {
    let action = SwayAction::Height {
        container_id: 42,
        height: Size::Pixels(300),
        verbose: false,
        wait_time: time::Duration::from_millis(42),
    };
    assert_eq!(action.duration(), time::Duration::from_millis(42));
}

#[test]
fn sway_launch_container_id_is_none_for_exec() {
    let action = SwayAction::Exec {
        command: "foot",
        app_id_match: "",
        class_match: "",
        verbose: false,
        timeout: time::Duration::from_secs(5),
    };
    assert_eq!(action.container_id(), None);
}

#[test]
fn sway_launch_container_id_is_set_for_other_actions() {
    let action = SwayAction::Floating {
        container_id: 42,
        verbose: false,
        timeout: time::Duration::from_secs(5),
    };
    assert_eq!(action.container_id(), Some(42));
}

#[test]
fn sway_launch_exec_only_matches_new_window_change() {
    let action = SwayAction::Exec {
        command: "foot",
        app_id_match: "",
        class_match: "",
        verbose: false,
        timeout: time::Duration::from_secs(5),
    };
    assert_eq!(
        action.matching_window_change_events(),
        Some(vec![WindowChange::New])
    );
}

#[test]
fn sway_launch_floating_matches_floating_window_change() {
    let action = SwayAction::Floating {
        container_id: 42,
        verbose: false,
        timeout: time::Duration::from_secs(5),
    };
    assert_eq!(
        action.matching_window_change_events(),
        Some(vec![WindowChange::Floating])
    );
}

#[test]
fn sway_launch_fullscreen_matches_fullscreen_mode_window_change() {
    let action = SwayAction::Fullscreen {
        container_id: 42,
        verbose: false,
        timeout: time::Duration::from_secs(5),
    };
    assert_eq!(
        action.matching_window_change_events(),
        Some(vec![WindowChange::FullscreenMode])
    );
}

#[test]
fn sway_launch_focus_matches_focus_window_change() {
    let action = SwayAction::Focus {
        container_id: 42,
        verbose: false,
        timeout: time::Duration::from_secs(5),
    };
    assert_eq!(
        action.matching_window_change_events(),
        Some(vec![WindowChange::Focus])
    );
}

#[test]
fn sway_launch_workspace_matches_move_window_change() {
    let action = SwayAction::Workspace {
        container_id: 42,
        workspace: "web",
        verbose: false,
        timeout: time::Duration::from_secs(5),
    };
    assert_eq!(
        action.matching_window_change_events(),
        Some(vec![WindowChange::Move])
    );
}

#[test]
fn sway_launch_output_matches_move_window_change() {
    let action = SwayAction::Output {
        container_id: 42,
        output: "HDMI-A-1",
        verbose: false,
        timeout: time::Duration::from_secs(5),
    };
    assert_eq!(
        action.matching_window_change_events(),
        Some(vec![WindowChange::Move])
    );
}

#[test]
fn sway_launch_scratchpad_matches_move_window_change() {
    let action = SwayAction::Scratchpad {
        container_id: 42,
        verbose: false,
        timeout: time::Duration::from_secs(5),
    };
    assert_eq!(
        action.matching_window_change_events(),
        Some(vec![WindowChange::Move])
    );
}

#[test]
fn sway_launch_mark_matches_mark_window_change() {
    let action = SwayAction::Mark {
        container_id: 42,
        mark: "foo",
        verbose: false,
        timeout: time::Duration::from_secs(5),
    };
    assert_eq!(
        action.matching_window_change_events(),
        Some(vec![WindowChange::Mark])
    );
}

#[test]
fn sway_launch_sticky_has_no_matching_window_change() {
    let action = SwayAction::Sticky {
        container_id: 42,
        verbose: false,
        wait_time: time::Duration::from_millis(20),
    };
    assert_eq!(action.matching_window_change_events(), None);
}

#[test]
fn sway_launch_split_height_width_have_no_matching_window_change() {
    let split = SwayAction::Split {
        container_id: 42,
        split: Split::V,
        verbose: false,
        wait_time: time::Duration::from_millis(20),
    };
    let new_column = SwayAction::NewColumn {
        container_id: 42,
        verbose: false,
        wait_time: time::Duration::from_millis(20),
    };
    let new_row = SwayAction::NewRow {
        container_id: 42,
        verbose: false,
        wait_time: time::Duration::from_millis(20),
    };
    let height = SwayAction::Height {
        container_id: 42,
        height: Size::Pixels(300),
        verbose: false,
        wait_time: time::Duration::from_millis(20),
    };
    let width = SwayAction::Width {
        container_id: 42,
        width: Size::Percent(20),
        verbose: false,
        wait_time: time::Duration::from_millis(20),
    };
    let position = SwayAction::Position {
        container_id: 42,
        position: Position::Center,
        verbose: false,
        wait_time: time::Duration::from_millis(20),
    };
    assert_eq!(split.matching_window_change_events(), None);
    assert_eq!(new_column.matching_window_change_events(), None);
    assert_eq!(new_row.matching_window_change_events(), None);
    assert_eq!(height.matching_window_change_events(), None);
    assert_eq!(width.matching_window_change_events(), None);
    assert_eq!(position.matching_window_change_events(), None);
}

#[test]
fn sway_launch_move_actions_poll_for_a_shorter_grace_than_everything_else() {
    let new_column = SwayAction::NewColumn {
        container_id: 42,
        verbose: false,
        wait_time: time::Duration::from_millis(20),
    };
    let new_row = SwayAction::NewRow {
        container_id: 42,
        verbose: false,
        wait_time: time::Duration::from_millis(20),
    };
    let split = SwayAction::Split {
        container_id: 42,
        split: Split::H,
        verbose: false,
        wait_time: time::Duration::from_millis(20),
    };

    assert_eq!(new_column.poll_grace(), time::Duration::from_millis(MOVE_POLL_GRACE));
    assert_eq!(new_row.poll_grace(), time::Duration::from_millis(MOVE_POLL_GRACE));
    assert_eq!(split.poll_grace(), time::Duration::from_millis(WAIT_TIME_POLL_GRACE));
    assert!(MOVE_POLL_GRACE < WAIT_TIME_POLL_GRACE);
}

#[test]
fn sway_launch_every_other_polling_variant_keeps_the_full_grace() {
    let height = SwayAction::Height {
        container_id: 42,
        height: Size::Pixels(300),
        verbose: false,
        wait_time: time::Duration::from_millis(20),
    };
    let width = SwayAction::Width {
        container_id: 42,
        width: Size::Pixels(300),
        verbose: false,
        wait_time: time::Duration::from_millis(20),
    };
    let position = SwayAction::Position {
        container_id: 42,
        position: Position::Center,
        verbose: false,
        wait_time: time::Duration::from_millis(20),
    };
    let sticky = SwayAction::Sticky {
        container_id: 42,
        verbose: false,
        wait_time: time::Duration::from_millis(20),
    };

    for action in [height, width, position, sticky] {
        assert_eq!(action.poll_grace(), time::Duration::from_millis(WAIT_TIME_POLL_GRACE));
    }
}

#[test]
fn sway_launch_split_polls() {
    for split in [Split::H, Split::V] {
        let action = SwayAction::Split {
            container_id: 42,
            split,
            verbose: false,
            wait_time: time::Duration::from_millis(20),
        };
        assert!(action.polls(None));
    }
}

#[test]
fn sway_launch_new_column_and_new_row_do_not_poll_without_a_baseline() {
    let new_column = SwayAction::NewColumn {
        container_id: 42,
        verbose: false,
        wait_time: time::Duration::from_millis(20),
    };
    let new_row = SwayAction::NewRow {
        container_id: 42,
        verbose: false,
        wait_time: time::Duration::from_millis(20),
    };
    assert!(!new_column.polls(None));
    assert!(!new_row.polls(None));
}

#[test]
fn sway_launch_new_column_and_new_row_poll_given_a_baseline() {
    let new_column = SwayAction::NewColumn {
        container_id: 42,
        verbose: false,
        wait_time: time::Duration::from_millis(20),
    };
    let new_row = SwayAction::NewRow {
        container_id: 42,
        verbose: false,
        wait_time: time::Duration::from_millis(20),
    };
    let baseline = Some(rect(0, 0, 640, 720));
    assert!(new_column.polls(baseline));
    assert!(new_row.polls(baseline));
}

#[test]
fn sway_launch_height_and_width_in_pixels_poll() {
    let height = SwayAction::Height {
        container_id: 42,
        height: Size::Pixels(300),
        verbose: false,
        wait_time: time::Duration::from_millis(20),
    };
    let width = SwayAction::Width {
        container_id: 42,
        width: Size::Pixels(400),
        verbose: false,
        wait_time: time::Duration::from_millis(20),
    };
    assert!(height.polls(None));
    assert!(width.polls(None));
}

#[test]
fn sway_launch_height_and_width_in_percent_do_not_poll() {
    let height = SwayAction::Height {
        container_id: 42,
        height: Size::Percent(20),
        verbose: false,
        wait_time: time::Duration::from_millis(20),
    };
    let width = SwayAction::Width {
        container_id: 42,
        width: Size::Percent(20),
        verbose: false,
        wait_time: time::Duration::from_millis(20),
    };
    assert!(!height.polls(None));
    assert!(!width.polls(None));
}

#[test]
fn sway_launch_sticky_polls() {
    let action = SwayAction::Sticky {
        container_id: 42,
        verbose: false,
        wait_time: time::Duration::from_millis(20),
    };
    assert!(action.polls(None));
}

#[test]
fn sway_launch_position_polls() {
    for position in [Position::Center, Position::Coordinates { x: 100, y: 200 }] {
        let action = SwayAction::Position {
            container_id: 42,
            position,
            verbose: false,
            wait_time: time::Duration::from_millis(20),
        };
        assert!(action.polls(None));
    }
}

#[test]
fn sway_launch_event_confirmed_actions_do_not_poll() {
    let floating = SwayAction::Floating {
        container_id: 42,
        verbose: false,
        timeout: time::Duration::from_secs(5),
    };
    let mark = SwayAction::Mark {
        container_id: 42,
        mark: "pinned",
        verbose: false,
        timeout: time::Duration::from_secs(5),
    };
    assert!(!floating.polls(None));
    assert!(!mark.polls(None));
}

#[test]
fn sway_launch_exec_without_filter_matches_any_new_window() {
    let action = SwayAction::Exec {
        command: "foot",
        app_id_match: "",
        class_match: "",
        verbose: false,
        timeout: time::Duration::from_secs(5),
    };
    let event = window_event("new", 99, Some("foot"), None);
    assert!(matches!(
        action.matches_window_event(&event),
        Ok(WindowEventMatch::NewWindowMatchWithoutCheck)
    ));
}

#[test]
fn sway_launch_exec_without_filter_rejects_non_new_window_change() {
    let action = SwayAction::Exec {
        command: "foot",
        app_id_match: "",
        class_match: "",
        verbose: false,
        timeout: time::Duration::from_secs(5),
    };
    let event = window_event("move", 99, Some("foot"), None);
    assert!(matches!(
        action.matches_window_event(&event),
        Err(WindowEventMatchError::EventChangeTypeMismatch)
    ));
}

#[test]
fn sway_launch_exec_with_app_id_match_accepts_matching_app_id() {
    let action = SwayAction::Exec {
        command: "foot",
        app_id_match: "foot",
        class_match: "",
        verbose: false,
        timeout: time::Duration::from_secs(5),
    };
    let event = window_event("new", 99, Some("foot"), None);
    assert!(matches!(
        action.matches_window_event(&event),
        Ok(WindowEventMatch::WindowAppId)
    ));
}

#[test]
fn sway_launch_exec_with_app_id_match_rejects_different_app_id() {
    let action = SwayAction::Exec {
        command: "foot",
        app_id_match: "foot",
        class_match: "",
        verbose: false,
        timeout: time::Duration::from_secs(5),
    };
    let event = window_event("new", 99, Some("alacritty"), None);
    assert!(matches!(
        action.matches_window_event(&event),
        Err(WindowEventMatchError::WindowAppIdMismatch)
    ));
}

#[test]
fn sway_launch_exec_with_app_id_match_rejects_missing_app_id() {
    let action = SwayAction::Exec {
        command: "firefox",
        app_id_match: "firefox",
        class_match: "",
        verbose: false,
        timeout: time::Duration::from_secs(5),
    };
    let event = window_event("new", 99, None, None);
    assert!(matches!(
        action.matches_window_event(&event),
        Err(WindowEventMatchError::WindowAppIdMismatch)
    ));
}

#[test]
fn sway_launch_exec_with_class_match_accepts_matching_class() {
    let action = SwayAction::Exec {
        command: "firefox",
        app_id_match: "",
        class_match: "Firefox",
        verbose: false,
        timeout: time::Duration::from_secs(5),
    };
    let event = window_event("new", 99, None, Some("Firefox"));
    assert!(matches!(
        action.matches_window_event(&event),
        Ok(WindowEventMatch::WindowClass)
    ));
}

#[test]
fn sway_launch_exec_with_class_match_rejects_different_class() {
    let action = SwayAction::Exec {
        command: "firefox",
        app_id_match: "",
        class_match: "Firefox",
        verbose: false,
        timeout: time::Duration::from_secs(5),
    };
    let event = window_event("new", 99, None, Some("Chromium"));
    assert!(matches!(
        action.matches_window_event(&event),
        Err(WindowEventMatchError::WindowClassMismatch)
    ));
}

#[test]
fn sway_launch_exec_with_class_match_rejects_missing_window_properties() {
    let action = SwayAction::Exec {
        command: "firefox",
        app_id_match: "",
        class_match: "Firefox",
        verbose: false,
        timeout: time::Duration::from_secs(5),
    };
    let event = window_event("new", 99, None, None);
    assert!(matches!(
        action.matches_window_event(&event),
        Err(WindowEventMatchError::WindowClassMismatch)
    ));
}

#[test]
fn sway_launch_exec_with_app_id_match_ignores_class_match_when_both_set() {
    let action = SwayAction::Exec {
        command: "foot",
        app_id_match: "foot",
        class_match: "SomethingElseEntirely",
        verbose: false,
        timeout: time::Duration::from_secs(5),
    };
    let event = window_event("new", 99, Some("foot"), Some("SomethingElseEntirely"));
    assert!(matches!(
        action.matches_window_event(&event),
        Ok(WindowEventMatch::WindowAppId)
    ));
}

#[test]
fn sway_launch_non_exec_action_matches_on_container_id() {
    let action = SwayAction::Floating {
        container_id: 42,
        verbose: false,
        timeout: time::Duration::from_secs(5),
    };
    let event = window_event("floating", 42, None, None);
    assert!(matches!(
        action.matches_window_event(&event),
        Ok(WindowEventMatch::WindowContainerIdMatch)
    ));
}

#[test]
fn sway_launch_workspace_matches_on_container_id() {
    let action = SwayAction::Workspace {
        container_id: 42,
        workspace: "web",
        verbose: false,
        timeout: time::Duration::from_secs(5),
    };
    let event = window_event("move", 42, None, None);
    assert!(matches!(
        action.matches_window_event(&event),
        Ok(WindowEventMatch::WindowContainerIdMatch)
    ));
}

#[test]
fn sway_launch_fullscreen_matches_on_container_id() {
    let action = SwayAction::Fullscreen {
        container_id: 42,
        verbose: false,
        timeout: time::Duration::from_secs(5),
    };
    let event = window_event("fullscreen_mode", 42, None, None);
    assert!(matches!(
        action.matches_window_event(&event),
        Ok(WindowEventMatch::WindowContainerIdMatch)
    ));
}

#[test]
fn sway_launch_scratchpad_matches_on_container_id() {
    let action = SwayAction::Scratchpad {
        container_id: 42,
        verbose: false,
        timeout: time::Duration::from_secs(5),
    };
    let event = window_event("move", 42, None, None);
    assert!(matches!(
        action.matches_window_event(&event),
        Ok(WindowEventMatch::WindowContainerIdMatch)
    ));
}

#[test]
fn sway_launch_non_exec_action_rejects_different_container_id() {
    let action = SwayAction::Floating {
        container_id: 42,
        verbose: false,
        timeout: time::Duration::from_secs(5),
    };
    let event = window_event("floating", 99, None, None);
    assert!(matches!(
        action.matches_window_event(&event),
        Err(WindowEventMatchError::NoMatchingEvent)
    ));
}

#[test]
fn sway_launch_non_exec_action_rejects_wrong_change_type() {
    let action = SwayAction::Floating {
        container_id: 42,
        verbose: false,
        timeout: time::Duration::from_secs(5),
    };
    let event = window_event("mark", 42, None, None);
    assert!(matches!(
        action.matches_window_event(&event),
        Err(WindowEventMatchError::EventChangeTypeMismatch)
    ));
}

#[test]
fn sway_launch_window_app_id_match_true_when_equal() {
    let event = window_event("new", 1, Some("foot"), None);
    assert!(window_app_id_match(&event.container, "foot"));
}

#[test]
fn sway_launch_window_app_id_match_false_when_different() {
    let event = window_event("new", 1, Some("foot"), None);
    assert!(!window_app_id_match(&event.container, "alacritty"));
}

#[test]
fn sway_launch_window_app_id_match_false_when_absent() {
    let event = window_event("new", 1, None, None);
    assert!(!window_app_id_match(&event.container, "foot"));
}

#[test]
fn sway_launch_window_class_match_true_when_equal() {
    let event = window_event("new", 1, None, Some("Firefox"));
    assert!(window_class_match(&event.container, "Firefox"));
}

#[test]
fn sway_launch_window_class_match_false_when_different() {
    let event = window_event("new", 1, None, Some("Firefox"));
    assert!(!window_class_match(&event.container, "Chromium"));
}

#[test]
fn sway_launch_window_class_match_false_when_window_properties_absent() {
    let event = window_event("new", 1, None, None);
    assert!(!window_class_match(&event.container, "Firefox"));
}

#[test]
fn sway_launch_window_class_match_false_when_class_absent_but_window_properties_present() {
    let mut value = leaf_node_value(1, None, None);
    value.window_properties = Some(WindowProperties { class: None });
    let node: Node = value;
    assert!(!window_class_match(&node, "Firefox"));
}

#[test]
fn sway_launch_window_mark_match_true_when_present() {
    let mut value = leaf_node_value(1, None, None);
    value.marks = vec!["dropdown-term".to_string()];
    let node: Node = value;
    assert!(window_mark_match(&node, "dropdown-term"));
}

#[test]
fn sway_launch_window_mark_match_false_when_different() {
    let mut value = leaf_node_value(1, None, None);
    value.marks = vec!["other-mark".to_string()];
    let node: Node = value;
    assert!(!window_mark_match(&node, "dropdown-term"));
}

#[test]
fn sway_launch_window_mark_match_false_when_absent() {
    let event = window_event("new", 1, None, None);
    assert!(!window_mark_match(&event.container, "dropdown-term"));
}

#[test]
fn sway_launch_matching_container_ids_finds_tiling_and_floating_matches() {
    let tree = node_tree(
        1,
        vec![
            leaf_node_value(10, Some("foot"), None),
            leaf_node_value(11, Some("firefox"), None),
        ],
        vec![leaf_node_value(20, Some("foot"), None)],
    );
    let mut ids = matching_container_ids(&tree, "foot", "", "");
    ids.sort();
    assert_eq!(ids, vec![10, 20]);
}

#[test]
fn sway_launch_matching_container_ids_empty_when_no_match() {
    let tree = node_tree(1, vec![leaf_node_value(10, Some("foot"), None)], vec![]);
    assert_eq!(
        matching_container_ids(&tree, "nonexistent", "", ""),
        Vec::<i64>::new()
    );
}

#[test]
fn sway_launch_matching_container_ids_matches_by_class() {
    let tree = node_tree(1, vec![leaf_node_value(10, None, Some("Firefox"))], vec![]);
    assert_eq!(matching_container_ids(&tree, "", "Firefox", ""), vec![10]);
}

#[test]
fn sway_launch_matching_container_ids_matches_by_mark() {
    let mut value = leaf_node_value(10, None, None);
    value.marks = vec!["dropdown-term".to_string()];
    let tree = node_tree(1, vec![value], vec![]);
    assert_eq!(
        matching_container_ids(&tree, "", "", "dropdown-term"),
        vec![10]
    );
}

#[test]
fn sway_launch_matching_container_ids_recurses_into_nested_containers() {
    let inner = container_node_value(2, vec![leaf_node_value(10, Some("foot"), None)], vec![]);
    let tree = node_tree(1, vec![inner], vec![]);
    assert_eq!(matching_container_ids(&tree, "foot", "", ""), vec![10]);
}

#[test]
fn sway_launch_matching_container_ids_prefers_app_id_over_class_when_both_set() {
    let tree = node_tree(
        1,
        vec![leaf_node_value(10, Some("foot"), Some("NoMatch"))],
        vec![],
    );
    assert_eq!(
        matching_container_ids(&tree, "foot", "NoMatch", ""),
        vec![10]
    );
}

#[test]
fn sway_launch_matching_container_ids_prefers_class_over_mark_when_both_set() {
    let mut value = leaf_node_value(10, None, Some("Firefox"));
    value.marks = vec!["no-match".to_string()];
    let tree = node_tree(1, vec![value], vec![]);
    assert_eq!(
        matching_container_ids(&tree, "", "Firefox", "no-match"),
        vec![10]
    );
}

#[test]
fn sway_launch_resolve_matches_errors_on_zero_matches() {
    assert_eq!(
        resolve_matches(vec![], "app_id \"foot\""),
        Err("No existing window matches app_id \"foot\"".to_string())
    );
}

#[test]
fn sway_launch_resolve_matches_ok_on_single_match() {
    assert_eq!(resolve_matches(vec![42], "app_id \"foot\""), Ok(42));
}

#[test]
fn sway_launch_resolve_matches_errors_listing_ids_on_multiple_matches() {
    assert_eq!(
        resolve_matches(vec![42, 91], "app_id \"foot\""),
        Err("2 windows match app_id \"foot\": 42, 91 — retarget with --con-id".to_string())
    );
}

#[test]
fn sway_launch_find_containing_name_finds_the_nearest_ancestor_of_kind() {
    let leaf = leaf_node_value(10, Some("foot"), None);
    let workspace = workspace_node_tree(2, "main", vec![leaf], vec![]);
    assert_eq!(
        find_containing_name(&workspace, 10, NodeType::Workspace, None),
        Some("main".to_string())
    );
}

#[test]
fn sway_launch_find_containing_name_returns_none_when_id_not_found() {
    let tree = node_tree(1, vec![], vec![]);
    assert_eq!(
        find_containing_name(&tree, 999, NodeType::Workspace, None),
        None
    );
}

#[test]
fn sway_launch_find_workspace_node_locates_the_workspace_containing_the_id() {
    let leaf = leaf_node_value(10, Some("foot"), None);
    let workspace = workspace_node_tree(2, "main", vec![leaf], vec![]);
    let found = find_workspace_node(&workspace, 10).expect("should find workspace");
    assert_eq!(found.name.as_deref(), Some("main"));
}

#[test]
fn sway_launch_find_workspace_node_returns_none_when_id_not_found() {
    let leaf = leaf_node_value(10, Some("foot"), None);
    let workspace = workspace_node_tree(2, "main", vec![leaf], vec![]);
    assert!(find_workspace_node(&workspace, 999).is_none());
}

#[test]
fn sway_launch_contains_id_true_for_self_and_descendants() {
    let leaf = leaf_node_value(10, Some("foot"), None);
    let tree = node_tree(1, vec![leaf], vec![]);
    assert!(contains_id(&tree, 1));
    assert!(contains_id(&tree, 10));
}

#[test]
fn sway_launch_contains_id_false_when_absent() {
    let tree = node_tree(1, vec![], vec![]);
    assert!(!contains_id(&tree, 42));
}

#[test]
fn sway_launch_find_parent_layout_returns_the_direct_parents_layout() {
    let leaf = leaf_node_value(10, Some("foot"), None);
    let mut parent_value = container_node_value(2, vec![leaf], vec![]);
    parent_value.layout = layout_named("splitv");
    let parent: Node = parent_value;
    assert_eq!(find_parent_layout(&parent, 10), Some(NodeLayout::SplitV));
}

#[test]
fn sway_launch_find_parent_layout_finds_the_nearest_ancestor_when_nested() {
    let leaf = leaf_node_value(10, Some("foot"), None);
    let mut inner_value = container_node_value(2, vec![leaf], vec![]);
    inner_value.layout = layout_named("splith");
    let tree = node_tree(1, vec![inner_value], vec![]);
    assert_eq!(find_parent_layout(&tree, 10), Some(NodeLayout::SplitH));
}

#[test]
fn sway_launch_find_parent_layout_checks_floating_children_too() {
    let floating = leaf_node_value(20, Some("foot"), None);
    let mut value = container_node_value(1, vec![], vec![floating]);
    value.layout = layout_named("splitv");
    let tree: Node = value;
    assert_eq!(find_parent_layout(&tree, 20), Some(NodeLayout::SplitV));
}

#[test]
fn sway_launch_find_parent_layout_returns_none_when_id_not_found() {
    let tree = node_tree(1, vec![], vec![]);
    assert!(find_parent_layout(&tree, 42).is_none());
}

#[test]
fn sway_launch_find_node_finds_self_and_nested_children() {
    let leaf = leaf_node_value(10, Some("foot"), None);
    let inner = container_node_value(2, vec![leaf], vec![]);
    let tree = node_tree(1, vec![inner], vec![]);
    assert_eq!(find_node(&tree, 1).map(|node| node.id), Some(1));
    assert_eq!(find_node(&tree, 2).map(|node| node.id), Some(2));
    assert_eq!(find_node(&tree, 10).map(|node| node.id), Some(10));
}

#[test]
fn sway_launch_find_node_finds_floating_children() {
    let floating = leaf_node_value(20, Some("foot"), None);
    let tree = node_tree(1, vec![], vec![floating]);
    assert_eq!(find_node(&tree, 20).map(|node| node.id), Some(20));
}

#[test]
fn sway_launch_find_node_returns_none_when_id_not_found() {
    let tree = node_tree(1, vec![], vec![]);
    assert!(find_node(&tree, 42).is_none());
}

#[test]
fn sway_launch_width_matches_exact_rect_width() {
    let node = node_with_geometry(400, 300, 2, 25);
    assert!(width_matches(&node, 400));
}

#[test]
fn sway_launch_width_matches_border_adjusted_width() {
    let node = node_with_geometry(396, 300, 2, 25);
    assert!(width_matches(&node, 400));
}

#[test]
fn sway_launch_width_matches_false_when_neither_formula_fits() {
    let node = node_with_geometry(350, 300, 2, 25);
    assert!(!width_matches(&node, 400));
}

#[test]
fn sway_launch_height_matches_decoration_inclusive_height() {
    let node = node_with_geometry(400, 275, 2, 25);
    assert!(height_matches(&node, 300));
}

#[test]
fn sway_launch_height_matches_false_when_short_of_the_expected_value() {
    let node = node_with_geometry(400, 300, 2, 25);
    assert!(!height_matches(&node, 300));
}

#[test]
fn sway_launch_node_is_floating_true_for_floating_con_type_even_without_a_floating_field() {
    let node = node_with_floating_state("floating_con", None);
    assert!(node_is_floating(&node));
}

#[test]
fn sway_launch_node_is_floating_true_when_the_floating_field_is_set() {
    let node = node_with_floating_state("con", Some("user_on"));
    assert!(node_is_floating(&node));
}

#[test]
fn sway_launch_node_is_floating_false_for_a_plain_tiled_node() {
    let node = node_with_floating_state("con", None);
    assert!(!node_is_floating(&node));
}

#[test]
fn sway_launch_node_is_in_scratchpad_false_when_the_field_is_absent() {
    let node = node_with_scratchpad_state(None);
    assert!(!node_is_in_scratchpad(&node));
}

#[test]
fn sway_launch_node_is_in_scratchpad_false_for_scratchpad_state_none() {
    let node = node_with_scratchpad_state(Some("none"));
    assert!(!node_is_in_scratchpad(&node));
}

#[test]
fn sway_launch_node_is_in_scratchpad_true_for_fresh() {
    let node = node_with_scratchpad_state(Some("fresh"));
    assert!(node_is_in_scratchpad(&node));
}

#[test]
fn sway_launch_node_is_in_scratchpad_true_for_changed() {
    let node = node_with_scratchpad_state(Some("changed"));
    assert!(node_is_in_scratchpad(&node));
}

#[test]
fn sway_launch_tree_shows_container_in_scratchpad_true_via_ancestor_workspace_name() {
    let leaf = leaf_node_value(10, Some("foot"), None);
    let tree = workspace_node_tree(2, "__i3_scratch", vec![leaf], vec![]);
    assert!(tree_shows_container_in_scratchpad(&tree, 10));
}

#[test]
fn sway_launch_tree_shows_container_in_scratchpad_true_via_scratchpad_state_fallback() {
    let mut leaf = leaf_node_value(10, Some("foot"), None);
    leaf.scratchpad_state = Some(scratchpad_named("fresh"));
    let tree = workspace_node_tree(2, "1", vec![leaf], vec![]);
    assert!(tree_shows_container_in_scratchpad(&tree, 10));
}

#[test]
fn sway_launch_tree_shows_container_in_scratchpad_false_for_an_ordinary_window() {
    let leaf = leaf_node_value(10, Some("foot"), None);
    let tree = workspace_node_tree(2, "1", vec![leaf], vec![]);
    assert!(!tree_shows_container_in_scratchpad(&tree, 10));
}

#[test]
fn sway_launch_container_state_from_tree_reads_the_containing_workspace_and_output() {
    let state = ContainerState::from_tree(
        &state_tree("3", leaf_node_value(10, Some("foot"), None)),
        10,
    )
    .expect("the container is in the tree");

    assert_eq!(state.workspace.as_deref(), Some("3"));
    assert_eq!(state.output.as_deref(), Some("HEADLESS-1"));
}

#[test]
fn sway_launch_container_state_from_tree_is_none_for_a_container_not_in_the_tree() {
    let tree = state_tree("3", leaf_node_value(10, Some("foot"), None));
    assert_eq!(ContainerState::from_tree(&tree, 99), None);
}

#[test]
fn sway_launch_container_state_from_tree_reads_the_containers_own_flags_and_marks() {
    let mut leaf = leaf_node_value(10, Some("foot"), None);
    leaf.node_type = node_type_named("floating_con");
    leaf.fullscreen_mode = Some(1);
    leaf.focused = true;
    leaf.marks = vec!["dropdown-term".to_string()];

    let state = ContainerState::from_tree(&state_tree("3", leaf), 10)
        .expect("the container is in the tree");

    assert!(state.floating);
    assert!(state.fullscreen);
    assert!(state.focused);
    assert_eq!(state.marks, vec!["dropdown-term".to_string()]);
    assert!(!state.in_scratchpad);
}

#[test]
fn sway_launch_container_state_from_tree_defaults_a_plain_tiled_window_to_every_flag_unset() {
    let state = ContainerState::from_tree(
        &state_tree("3", leaf_node_value(10, Some("foot"), None)),
        10,
    )
    .expect("the container is in the tree");

    assert!(!state.floating);
    assert!(!state.fullscreen);
    assert!(!state.focused);
    assert!(!state.in_scratchpad);
    assert!(state.marks.is_empty());
}

#[test]
fn sway_launch_container_state_from_tree_reports_a_scratchpadded_container() {
    let state = ContainerState::from_tree(
        &state_tree("__i3_scratch", leaf_node_value(10, Some("foot"), None)),
        10,
    )
    .expect("the container is in the tree");

    assert!(state.in_scratchpad);
}

#[test]
fn sway_launch_container_state_from_tree_reports_fullscreen_mode_zero_as_not_fullscreen() {
    let mut leaf = leaf_node_value(10, Some("foot"), None);
    leaf.fullscreen_mode = Some(0);

    let state = ContainerState::from_tree(&state_tree("3", leaf), 10)
        .expect("the container is in the tree");

    assert!(!state.fullscreen);
}

#[test]
fn sway_launch_state_satisfies_workspace_only_for_the_requested_workspace() {
    let state = state_with(|state| state.workspace = Some("3".to_string()));

    assert!(workspace_action("3").state_satisfies(Some(&state)));
    assert!(!workspace_action("2").state_satisfies(Some(&state)));
}

#[test]
fn sway_launch_state_satisfies_workspace_false_when_the_workspace_is_unknown() {
    let state = ContainerState::default();
    assert!(!workspace_action("3").state_satisfies(Some(&state)));
}

#[test]
fn sway_launch_state_satisfies_output_only_for_the_requested_output() {
    let state = state_with(|state| state.output = Some("HEADLESS-1".to_string()));

    assert!(output_action("HEADLESS-1").state_satisfies(Some(&state)));
    assert!(!output_action("HEADLESS-2").state_satisfies(Some(&state)));
}

#[test]
fn sway_launch_state_satisfies_floating_fullscreen_focus_and_scratchpad_read_their_own_flag() {
    let floating = state_with(|state| state.floating = true);
    let fullscreen = state_with(|state| state.fullscreen = true);
    let focused = state_with(|state| state.focused = true);
    let scratchpadded = state_with(|state| state.in_scratchpad = true);

    let fullscreen_action = SwayAction::Fullscreen {
        container_id: 42,
        verbose: false,
        timeout: time::Duration::from_secs(5),
    };
    let focus_action = SwayAction::Focus {
        container_id: 42,
        verbose: false,
        timeout: time::Duration::from_secs(5),
    };
    let scratchpad_action = SwayAction::Scratchpad {
        container_id: 42,
        verbose: false,
        timeout: time::Duration::from_secs(5),
    };

    assert!(floating_action().state_satisfies(Some(&floating)));
    assert!(!floating_action().state_satisfies(Some(&fullscreen)));
    assert!(fullscreen_action.state_satisfies(Some(&fullscreen)));
    assert!(!fullscreen_action.state_satisfies(Some(&floating)));
    assert!(focus_action.state_satisfies(Some(&focused)));
    assert!(!focus_action.state_satisfies(Some(&floating)));
    assert!(scratchpad_action.state_satisfies(Some(&scratchpadded)));
    assert!(!scratchpad_action.state_satisfies(Some(&floating)));
}

#[test]
fn sway_launch_state_satisfies_mark_matches_any_held_mark() {
    let state = state_with(|state| {
        state.marks = vec!["other".to_string(), "dropdown-term".to_string()]
    });

    assert!(mark_action("dropdown-term").state_satisfies(Some(&state)));
    assert!(!mark_action("missing").state_satisfies(Some(&state)));
}

#[test]
fn sway_launch_state_satisfies_is_false_for_an_action_with_no_state_to_check() {
    let state = state_with(|state| state.floating = true);
    let action = SwayAction::Split {
        container_id: 42,
        split: Split::H,
        verbose: false,
        wait_time: time::Duration::from_millis(20),
    };

    assert!(!action.state_satisfies(Some(&state)));
}

#[test]
fn sway_launch_state_satisfies_is_false_when_the_container_is_gone() {
    assert!(!floating_action().state_satisfies(None));
    assert!(!workspace_action("3").state_satisfies(None));
    assert!(!mark_action("dropdown-term").state_satisfies(None));
}

#[test]
fn sway_launch_compute_center_position_centers_within_a_primary_output() {
    let output_rect = rect(0, 0, 1280, 720);
    assert_eq!(compute_center_position(output_rect, 400, 300), (440, 210));
}

#[test]
fn sway_launch_compute_center_position_accounts_for_a_non_origin_output() {
    let output_rect = rect(1920, 100, 1280, 720);
    assert_eq!(compute_center_position(output_rect, 400, 300), (2360, 310));
}

#[test]
fn sway_launch_node_position_uses_the_decoration_frame_for_an_ordinary_window() {
    let node = node_with_rects(100, 225, 100, 200, true);
    assert_eq!(node_position(&node), (100, 200));
}

#[test]
fn sway_launch_node_position_falls_back_to_rect_when_decoration_geometry_is_unset() {
    let node = node_with_rects(100, 200, 0, 0, false);
    assert_eq!(node_position(&node), (100, 200));
}

#[test]
fn sway_launch_node_position_does_not_treat_a_zero_origin_decoration_as_unset() {
    let node = node_with_rects(0, 25, 0, 0, true);
    assert_eq!(node_position(&node), (0, 0));
}

#[test]
fn sway_launch_expected_position_parses_explicit_coordinates() {
    let node = node_with_geometry(400, 300, 0, 0);
    assert_eq!(
        expected_position(&Position::Coordinates { x: 100, y: 200 }, &node, None),
        Some((100, 200))
    );
}

#[test]
fn sway_launch_expected_position_center_without_an_output_rect_is_none() {
    let node = node_with_geometry(400, 300, 0, 0);
    assert_eq!(expected_position(&Position::Center, &node, None), None);
}

#[test]
fn sway_launch_expected_position_centers_against_the_given_output_rect() {
    let node = node_with_geometry(400, 300, 0, 25);
    assert_eq!(
        expected_position(&Position::Center, &node, Some(rect(0, 0, 1920, 1080))),
        Some(((1920 - 400) / 2, (1080 - 325) / 2))
    );
}

#[test]
fn sway_launch_expected_position_center_accounts_for_a_non_origin_output() {
    let node = node_with_geometry(400, 300, 0, 0);
    assert_eq!(
        expected_position(&Position::Center, &node, Some(rect(1920, 0, 1920, 1080))),
        Some((1920 + (1920 - 400) / 2, (1080 - 300) / 2))
    );
}

#[test]
fn sway_launch_is_at_the_trailing_workspace_edge_true_for_a_solo_window() {
    let leaf = leaf_node_value(10, Some("foot"), None);
    let workspace = workspace_node_tree_with_layout(2, "main", "splith", vec![leaf]);
    assert!(is_at_the_trailing_workspace_edge(
        &workspace,
        10,
        MoveDirection::Right
    ));
}

#[test]
fn sway_launch_is_at_the_trailing_workspace_edge_true_for_the_last_of_several_siblings() {
    let leaf1 = leaf_node_value(10, Some("foot"), None);
    let leaf2 = leaf_node_value(11, Some("foot"), None);
    let workspace = workspace_node_tree_with_layout(2, "main", "splith", vec![leaf1, leaf2]);
    assert!(is_at_the_trailing_workspace_edge(
        &workspace,
        11,
        MoveDirection::Right
    ));
}

#[test]
fn sway_launch_is_at_the_trailing_workspace_edge_false_for_a_leading_sibling() {
    let leaf1 = leaf_node_value(10, Some("foot"), None);
    let leaf2 = leaf_node_value(11, Some("foot"), None);
    let workspace = workspace_node_tree_with_layout(2, "main", "splith", vec![leaf1, leaf2]);
    assert!(!is_at_the_trailing_workspace_edge(
        &workspace,
        10,
        MoveDirection::Right
    ));
}

#[test]
fn sway_launch_is_at_the_trailing_workspace_edge_false_when_the_workspace_layout_does_not_match_the_axis() {
    let leaf = leaf_node_value(10, Some("foot"), None);
    let workspace = workspace_node_tree_with_layout(2, "main", "splitv", vec![leaf]);
    assert!(!is_at_the_trailing_workspace_edge(
        &workspace,
        10,
        MoveDirection::Right
    ));
}

#[test]
fn sway_launch_is_at_the_trailing_workspace_edge_checks_the_down_axis_for_new_row() {
    let leaf1 = leaf_node_value(10, Some("foot"), None);
    let leaf2 = leaf_node_value(11, Some("foot"), None);
    let workspace = workspace_node_tree_with_layout(2, "main", "splitv", vec![leaf1, leaf2]);
    assert!(is_at_the_trailing_workspace_edge(
        &workspace,
        11,
        MoveDirection::Down
    ));
    assert!(!is_at_the_trailing_workspace_edge(
        &workspace,
        10,
        MoveDirection::Down
    ));
}

#[test]
fn sway_launch_is_at_the_trailing_workspace_edge_false_when_id_not_found() {
    let tree = node_tree(1, vec![], vec![]);
    assert!(!is_at_the_trailing_workspace_edge(
        &tree,
        999,
        MoveDirection::Right
    ));
}

#[test]
fn sway_launch_window_event_match_display() {
    assert_eq!(
        WindowEventMatch::WindowAppId.to_string(),
        "Window app_id match"
    );
    assert_eq!(
        WindowEventMatch::WindowClass.to_string(),
        "Window class match"
    );
    assert_eq!(
        WindowEventMatch::NewWindowMatchWithoutCheck.to_string(),
        "New window without app_id or class check"
    );
    assert_eq!(
        WindowEventMatch::WindowContainerIdMatch.to_string(),
        "Window container id match"
    );
}

#[test]
fn sway_launch_window_event_match_error_display() {
    assert_eq!(
        WindowEventMatchError::EventChangeTypeMismatch.to_string(),
        "Event does not match action event matches"
    );
    assert_eq!(
        WindowEventMatchError::WindowAppIdMismatch.to_string(),
        "app_id mismatch"
    );
    assert_eq!(
        WindowEventMatchError::WindowClassMismatch.to_string(),
        "class mismatch"
    );
    assert_eq!(
        WindowEventMatchError::NoMatchingEvent.to_string(),
        "No matching event"
    );
}

fn no_socket() -> Result<bool, String> {
    Err("no Sway socket".to_string())
}

#[test]
fn build_actions_is_empty_when_no_flags_are_set() {
    let sway_launch = minimal_sway_launch();
    let actions = sway_launch
        .build_actions(42, true, &no_socket(), &no_socket())
        .expect("no flags set means no IPC call at all, so this can't fail");
    assert!(actions.is_empty());
}

#[test]
fn build_actions_includes_every_flag_in_the_documented_fixed_order() {
    let mut sway_launch = minimal_sway_launch();
    sway_launch.workspace = Some("3");
    sway_launch.output = Some("HDMI-A-1");
    sway_launch.split = Some(Split::H);
    sway_launch.floating = true;
    sway_launch.sticky = true;
    sway_launch.fullscreen = true;
    sway_launch.focus = true;
    sway_launch.height = Some(Size::Pixels(300));
    sway_launch.width = Some(Size::Pixels(400));
    sway_launch.position = Some(Position::Center);
    sway_launch.mark = "pinned";
    sway_launch.scratchpad = true;

    let actions = sway_launch
        .build_actions(42, true, &no_socket(), &no_socket())
        .expect("none of these flags touch IPC while building the plan");

    let kinds: Vec<&str> = actions
        .iter()
        .map(|planned| match planned {
            PlannedAction::Run(SwayAction::Workspace { .. }) => "workspace",
            PlannedAction::Run(SwayAction::Output { .. }) => "output",
            PlannedAction::Run(SwayAction::Split { .. }) => "split",
            PlannedAction::Run(SwayAction::Floating { .. }) => "floating",
            PlannedAction::Run(SwayAction::Sticky { .. }) => "sticky",
            PlannedAction::Run(SwayAction::Fullscreen { .. }) => "fullscreen",
            PlannedAction::Run(SwayAction::Focus { .. }) => "focus",
            PlannedAction::Run(SwayAction::Height { .. }) => "height",
            PlannedAction::Run(SwayAction::Width { .. }) => "width",
            PlannedAction::Run(SwayAction::Position { .. }) => "position",
            PlannedAction::Run(SwayAction::Mark { .. }) => "mark",
            PlannedAction::Run(SwayAction::Scratchpad { .. }) => "scratchpad",
            other => panic!("unexpected planned action: {:?}", other),
        })
        .collect();
    assert_eq!(
        kinds,
        vec![
            "workspace",
            "output",
            "split",
            "floating",
            "sticky",
            "fullscreen",
            "focus",
            "height",
            "width",
            "position",
            "mark",
            "scratchpad",
        ]
    );
    for planned in &actions {
        match planned {
            PlannedAction::Run(action) => assert_eq!(action.container_id(), Some(42)),
            PlannedAction::Skip(skipped) => panic!("unexpected skip: {:?}", skipped),
        }
    }
}

#[test]
fn build_actions_omits_mark_when_empty() {
    let sway_launch = minimal_sway_launch();
    let actions = sway_launch
        .build_actions(42, true, &no_socket(), &no_socket())
        .expect("no flags set means no IPC call at all, so this can't fail");
    assert!(!actions
        .iter()
        .any(|planned| matches!(planned, PlannedAction::Run(SwayAction::Mark { .. }))));
}

#[test]
fn build_actions_propagates_the_relocation_check_error_for_new_column() {
    let mut sway_launch = minimal_sway_launch();
    sway_launch.new_column = true;
    assert!(sway_launch.build_actions(42, true, &no_socket(), &Ok(false)).is_err());
}

#[test]
fn build_actions_propagates_the_relocation_check_error_for_new_row() {
    let mut sway_launch = minimal_sway_launch();
    sway_launch.new_row = true;
    assert!(sway_launch.build_actions(42, true, &Ok(false), &no_socket()).is_err());
}

#[test]
fn build_actions_with_check_relocation_false_never_touches_ipc() {
    let mut sway_launch = minimal_sway_launch();
    sway_launch.new_column = true;
    sway_launch.new_row = true;
    let actions = sway_launch
        .build_actions(42, false, &no_socket(), &no_socket())
        .expect("check_relocation: false makes no IPC call, so this can't fail");
    assert!(actions
        .iter()
        .any(|planned| matches!(planned, PlannedAction::Run(SwayAction::NewColumn { .. }))));
    assert!(actions
        .iter()
        .any(|planned| matches!(planned, PlannedAction::Run(SwayAction::NewRow { .. }))));
    assert!(!actions
        .iter()
        .any(|planned| matches!(planned, PlannedAction::Skip(_))));
}

#[test]
fn build_actions_for_preview_never_touches_ipc_even_with_new_column_set() {
    let mut sway_launch = minimal_sway_launch();
    sway_launch.new_column = true;
    sway_launch.floating = true;
    let actions = sway_launch.build_actions_for_preview();
    assert_eq!(actions.len(), 2);
}

#[test]
fn build_actions_for_preview_verbs_are_container_id_free() {
    let mut sway_launch = minimal_sway_launch();
    sway_launch.floating = true;
    sway_launch.mark = "pinned";
    let actions = sway_launch.build_actions_for_preview();
    let verbs: Vec<String> = actions.iter().map(|a| a.sway_command_verb()).collect();
    assert_eq!(verbs, vec!["floating enable", "mark \"pinned\""]);
}
