//! What is read off the tree.

use sway_launch::confirmation::{WindowChange, WindowEvent};
use sway_launch::tree::{
    compute_center_position, contains_id, expected_position, find_containing_name, find_node,
    find_parent_layout, find_workspace_node, height_matches, is_at_the_trailing_workspace_edge,
    matching_container_ids, node_is_floating, node_is_in_scratchpad, node_position,
    resolve_matches, tree_shows_container_in_scratchpad, width_matches, window_app_id_match,
    window_class_match, window_mark_match, ContainerState, Floating, MoveDirection, Node,
    NodeLayout, NodeType, Rect, ScratchpadState, WindowProperties,
};
use sway_launch::values::Position;

fn rect(x: i32, y: i32, width: i32, height: i32) -> Rect {
    Rect { x, y, width, height }
}

fn leaf_node_value(container_id: i64, app_id: Option<&str>, class: Option<&str>) -> Node {
    Node {
        id: container_id,
        name: None,
        node_type: NodeType::Con,
        current_border_width: 0,
        layout: NodeLayout::Unset,
        rect: rect(0, 0, 0, 0),
        deco_rect: rect(0, 0, 0, 0),
        focused: false,
        floating: None,
        nodes: vec![],
        floating_nodes: vec![],
        sticky: false,
        fullscreen_mode: None,
        scratchpad_state: None,
        app_id: app_id.map(str::to_string),
        pid: None,
        window_properties: class.map(|class| WindowProperties {
            class: Some(class.to_string()),
        }),
        marks: vec![],
    }
}

fn window_event(
    change: &str,
    container_id: i64,
    app_id: Option<&str>,
    class: Option<&str>,
) -> WindowEvent {
    let change = match change {
        "new" => WindowChange::New,
        "close" => WindowChange::Close,
        "focus" => WindowChange::Focus,
        "title" => WindowChange::Title,
        "fullscreen_mode" => WindowChange::FullscreenMode,
        "move" => WindowChange::Move,
        "floating" => WindowChange::Floating,
        "urgent" => WindowChange::Urgent,
        "mark" => WindowChange::Mark,
        other => panic!("unknown change: {other}"),
    };
    WindowEvent { change, container: leaf_node_value(container_id, app_id, class) }
}

fn node_type_named(name: &str) -> NodeType {
    match name {
        "root" => NodeType::Root,
        "output" => NodeType::Output,
        "workspace" => NodeType::Workspace,
        "con" => NodeType::Con,
        "floating_con" => NodeType::FloatingCon,
        other => panic!("unknown node type: {other}"),
    }
}

fn layout_named(name: &str) -> NodeLayout {
    match name {
        "splith" => NodeLayout::SplitH,
        "splitv" => NodeLayout::SplitV,
        "stacked" => NodeLayout::Stacked,
        "tabbed" => NodeLayout::Tabbed,
        other => panic!("unknown layout: {other}"),
    }
}

fn scratchpad_named(name: &str) -> ScratchpadState {
    match name {
        "none" => ScratchpadState::Absent,
        "fresh" => ScratchpadState::Fresh,
        "changed" => ScratchpadState::Changed,
        other => panic!("unknown scratchpad state: {other}"),
    }
}

fn floating_named(name: &str) -> Floating {
    match name {
        "auto_on" => Floating::AutoOn,
        "auto_off" => Floating::AutoOff,
        "user_on" => Floating::UserOn,
        "user_off" => Floating::UserOff,
        other => panic!("unknown floating state: {other}"),
    }
}

fn container_node_value(container_id: i64, nodes: Vec<Node>, floating_nodes: Vec<Node>) -> Node {
    let mut value = leaf_node_value(container_id, None, None);
    value.nodes = nodes;
    value.floating_nodes = floating_nodes;
    value
}

fn node_tree(container_id: i64, nodes: Vec<Node>, floating_nodes: Vec<Node>) -> Node {
    container_node_value(container_id, nodes, floating_nodes)
}

fn workspace_node_tree(
    container_id: i64,
    name: &str,
    nodes: Vec<Node>,
    floating_nodes: Vec<Node>,
) -> Node {
    let mut value = container_node_value(container_id, nodes, floating_nodes);
    value.node_type = NodeType::Workspace;
    value.name = Some(name.to_string());
    value
}

fn named_node_value(container_id: i64, kind: &str, name: &str, nodes: Vec<Node>) -> Node {
    let mut value = container_node_value(container_id, nodes, vec![]);
    value.node_type = node_type_named(kind);
    value.name = Some(name.to_string());
    value
}

fn state_tree(workspace_name: &str, leaf: Node) -> Node {
    let workspace = named_node_value(2, "workspace", workspace_name, vec![leaf]);
    let output = named_node_value(1, "output", "HEADLESS-1", vec![workspace]);
    named_node_value(0, "root", "root", vec![output])
}

fn node_with_geometry(width: i32, height: i32, border_width: i32, deco_height: i32) -> Node {
    let mut value = leaf_node_value(10, Some("foot"), None);
    value.rect = rect(0, 0, width, height);
    value.deco_rect = rect(0, 0, width, deco_height);
    value.current_border_width = border_width;
    value
}

fn node_with_floating_state(node_type: &str, floating: Option<&str>) -> Node {
    let mut value = leaf_node_value(10, Some("foot"), None);
    value.node_type = node_type_named(node_type);
    if let Some(floating) = floating {
        value.floating = Some(floating_named(floating));
    }
    value
}

fn node_with_scratchpad_state(state: Option<&str>) -> Node {
    let mut value = leaf_node_value(10, Some("foot"), None);
    if let Some(state) = state {
        value.scratchpad_state = Some(scratchpad_named(state));
    }
    value
}

fn node_with_rects(rect_x: i32, rect_y: i32, deco_x: i32, deco_y: i32, deco_set: bool) -> Node {
    let mut value = leaf_node_value(10, Some("foot"), None);
    value.rect = rect(rect_x, rect_y, 400, 300);
    value.deco_rect = if deco_set {
        rect(deco_x, deco_y, 400, 25)
    } else {
        rect(0, 0, 0, 0)
    };
    value
}

fn workspace_node_tree_with_layout(
    container_id: i64,
    name: &str,
    layout: &str,
    nodes: Vec<Node>,
) -> Node {
    let mut value = container_node_value(container_id, nodes, vec![]);
    value.node_type = node_type_named("workspace");
    value.name = Some(name.to_string());
    value.layout = layout_named(layout);
    value
}

#[test]
fn tree_window_app_id_match_true_when_equal() {
    let event = window_event("new", 1, Some("foot"), None);
    assert!(window_app_id_match(&event.container, "foot"));
}

#[test]
fn tree_window_app_id_match_false_when_different() {
    let event = window_event("new", 1, Some("foot"), None);
    assert!(!window_app_id_match(&event.container, "alacritty"));
}

#[test]
fn tree_window_app_id_match_false_when_absent() {
    let event = window_event("new", 1, None, None);
    assert!(!window_app_id_match(&event.container, "foot"));
}

#[test]
fn tree_window_class_match_true_when_equal() {
    let event = window_event("new", 1, None, Some("Firefox"));
    assert!(window_class_match(&event.container, "Firefox"));
}

#[test]
fn tree_window_class_match_false_when_different() {
    let event = window_event("new", 1, None, Some("Firefox"));
    assert!(!window_class_match(&event.container, "Chromium"));
}

#[test]
fn tree_window_class_match_false_when_window_properties_absent() {
    let event = window_event("new", 1, None, None);
    assert!(!window_class_match(&event.container, "Firefox"));
}

#[test]
fn tree_window_class_match_false_when_class_absent_but_window_properties_present() {
    let mut value = leaf_node_value(1, None, None);
    value.window_properties = Some(WindowProperties { class: None });
    let node: Node = value;
    assert!(!window_class_match(&node, "Firefox"));
}

#[test]
fn tree_window_mark_match_true_when_present() {
    let mut value = leaf_node_value(1, None, None);
    value.marks = vec!["dropdown-term".to_string()];
    let node: Node = value;
    assert!(window_mark_match(&node, "dropdown-term"));
}

#[test]
fn tree_window_mark_match_false_when_different() {
    let mut value = leaf_node_value(1, None, None);
    value.marks = vec!["other-mark".to_string()];
    let node: Node = value;
    assert!(!window_mark_match(&node, "dropdown-term"));
}

#[test]
fn tree_window_mark_match_false_when_absent() {
    let event = window_event("new", 1, None, None);
    assert!(!window_mark_match(&event.container, "dropdown-term"));
}

#[test]
fn tree_matching_container_ids_finds_tiling_and_floating_matches() {
    let tree = node_tree(
        1,
        vec![
            leaf_node_value(10, Some("foot"), None),
            leaf_node_value(11, Some("firefox"), None),
        ],
        vec![leaf_node_value(20, Some("foot"), None)],
    );
    let mut ids = matching_container_ids(&tree, "foot", "", "");
    ids.sort();
    assert_eq!(ids, vec![10, 20]);
}

#[test]
fn tree_matching_container_ids_empty_when_no_match() {
    let tree = node_tree(1, vec![leaf_node_value(10, Some("foot"), None)], vec![]);
    assert_eq!(
        matching_container_ids(&tree, "nonexistent", "", ""),
        Vec::<i64>::new()
    );
}

#[test]
fn tree_matching_container_ids_matches_by_class() {
    let tree = node_tree(1, vec![leaf_node_value(10, None, Some("Firefox"))], vec![]);
    assert_eq!(matching_container_ids(&tree, "", "Firefox", ""), vec![10]);
}

#[test]
fn tree_matching_container_ids_matches_by_mark() {
    let mut value = leaf_node_value(10, None, None);
    value.marks = vec!["dropdown-term".to_string()];
    let tree = node_tree(1, vec![value], vec![]);
    assert_eq!(
        matching_container_ids(&tree, "", "", "dropdown-term"),
        vec![10]
    );
}

#[test]
fn tree_matching_container_ids_recurses_into_nested_containers() {
    let inner = container_node_value(2, vec![leaf_node_value(10, Some("foot"), None)], vec![]);
    let tree = node_tree(1, vec![inner], vec![]);
    assert_eq!(matching_container_ids(&tree, "foot", "", ""), vec![10]);
}

#[test]
fn tree_matching_container_ids_prefers_app_id_over_class_when_both_set() {
    let tree = node_tree(
        1,
        vec![leaf_node_value(10, Some("foot"), Some("NoMatch"))],
        vec![],
    );
    assert_eq!(
        matching_container_ids(&tree, "foot", "NoMatch", ""),
        vec![10]
    );
}

#[test]
fn tree_matching_container_ids_prefers_class_over_mark_when_both_set() {
    let mut value = leaf_node_value(10, None, Some("Firefox"));
    value.marks = vec!["no-match".to_string()];
    let tree = node_tree(1, vec![value], vec![]);
    assert_eq!(
        matching_container_ids(&tree, "", "Firefox", "no-match"),
        vec![10]
    );
}

#[test]
fn tree_resolve_matches_errors_on_zero_matches() {
    assert_eq!(
        resolve_matches(vec![], "app_id \"foot\""),
        Err("No existing window matches app_id \"foot\"".to_string())
    );
}

#[test]
fn tree_resolve_matches_ok_on_single_match() {
    assert_eq!(resolve_matches(vec![42], "app_id \"foot\""), Ok(42));
}

#[test]
fn tree_resolve_matches_errors_listing_ids_on_multiple_matches() {
    assert_eq!(
        resolve_matches(vec![42, 91], "app_id \"foot\""),
        Err("2 windows match app_id \"foot\": 42, 91 — retarget with --con-id".to_string())
    );
}

#[test]
fn tree_find_containing_name_finds_the_nearest_ancestor_of_kind() {
    let leaf = leaf_node_value(10, Some("foot"), None);
    let workspace = workspace_node_tree(2, "main", vec![leaf], vec![]);
    assert_eq!(
        find_containing_name(&workspace, 10, NodeType::Workspace, None),
        Some("main".to_string())
    );
}

#[test]
fn tree_find_containing_name_returns_none_when_id_not_found() {
    let tree = node_tree(1, vec![], vec![]);
    assert_eq!(
        find_containing_name(&tree, 999, NodeType::Workspace, None),
        None
    );
}

#[test]
fn the_innermost_name_around_a_container_is_found() {
    let inner = workspace_node_tree(3, "inner", vec![leaf_node_value(10, None, None)], vec![]);
    let mut unnamed = workspace_node_tree(4, "", vec![leaf_node_value(11, None, None)], vec![]);
    unnamed.name = None;
    let outer =
        workspace_node_tree(2, "outer", vec![inner, unnamed], vec![leaf_node_value(12, None, None)]);
    let tree = node_tree(1, vec![outer], vec![leaf_node_value(13, None, None)]);
    let name = |id: i64| find_containing_name(&tree, id, NodeType::Workspace, None);
    assert_eq!(name(10), Some("inner".to_string()));
    assert_eq!(name(3), Some("inner".to_string()));
    assert_eq!(name(12), Some("outer".to_string()));
    assert_eq!(name(2), Some("outer".to_string()));
    assert_eq!(name(11), None);
    assert_eq!(name(13), None);
    assert_eq!(name(1), None);
    assert_eq!(name(99), None);
    assert_eq!(find_containing_name(&tree, 10, NodeType::Output, None), None);
}

#[test]
fn tree_find_workspace_node_locates_the_workspace_containing_the_id() {
    let leaf = leaf_node_value(10, Some("foot"), None);
    let workspace = workspace_node_tree(2, "main", vec![leaf], vec![]);
    let found = find_workspace_node(&workspace, 10).expect("should find workspace");
    assert_eq!(found.name.as_deref(), Some("main"));
}

#[test]
fn tree_find_workspace_node_returns_none_when_id_not_found() {
    let leaf = leaf_node_value(10, Some("foot"), None);
    let workspace = workspace_node_tree(2, "main", vec![leaf], vec![]);
    assert!(find_workspace_node(&workspace, 999).is_none());
}

#[test]
fn tree_contains_id_true_for_self_and_descendants() {
    let leaf = leaf_node_value(10, Some("foot"), None);
    let tree = node_tree(1, vec![leaf], vec![]);
    assert!(contains_id(&tree, 1));
    assert!(contains_id(&tree, 10));
}

#[test]
fn tree_contains_id_false_when_absent() {
    let tree = node_tree(1, vec![], vec![]);
    assert!(!contains_id(&tree, 42));
}

#[test]
fn tree_find_parent_layout_returns_the_direct_parents_layout() {
    let leaf = leaf_node_value(10, Some("foot"), None);
    let mut parent_value = container_node_value(2, vec![leaf], vec![]);
    parent_value.layout = layout_named("splitv");
    let parent: Node = parent_value;
    assert_eq!(find_parent_layout(&parent, 10), Some(NodeLayout::SplitV));
}

#[test]
fn tree_find_parent_layout_finds_the_nearest_ancestor_when_nested() {
    let leaf = leaf_node_value(10, Some("foot"), None);
    let mut inner_value = container_node_value(2, vec![leaf], vec![]);
    inner_value.layout = layout_named("splith");
    let tree = node_tree(1, vec![inner_value], vec![]);
    assert_eq!(find_parent_layout(&tree, 10), Some(NodeLayout::SplitH));
}

#[test]
fn tree_find_parent_layout_checks_floating_children_too() {
    let floating = leaf_node_value(20, Some("foot"), None);
    let mut value = container_node_value(1, vec![], vec![floating]);
    value.layout = layout_named("splitv");
    let tree: Node = value;
    assert_eq!(find_parent_layout(&tree, 20), Some(NodeLayout::SplitV));
}

#[test]
fn tree_find_parent_layout_returns_none_when_id_not_found() {
    let tree = node_tree(1, vec![], vec![]);
    assert!(find_parent_layout(&tree, 42).is_none());
}

#[test]
fn tree_find_node_finds_self_and_nested_children() {
    let leaf = leaf_node_value(10, Some("foot"), None);
    let inner = container_node_value(2, vec![leaf], vec![]);
    let tree = node_tree(1, vec![inner], vec![]);
    assert_eq!(find_node(&tree, 1).map(|node| node.id), Some(1));
    assert_eq!(find_node(&tree, 2).map(|node| node.id), Some(2));
    assert_eq!(find_node(&tree, 10).map(|node| node.id), Some(10));
}

#[test]
fn tree_find_node_finds_floating_children() {
    let floating = leaf_node_value(20, Some("foot"), None);
    let tree = node_tree(1, vec![], vec![floating]);
    assert_eq!(find_node(&tree, 20).map(|node| node.id), Some(20));
}

#[test]
fn tree_find_node_returns_none_when_id_not_found() {
    let tree = node_tree(1, vec![], vec![]);
    assert!(find_node(&tree, 42).is_none());
}

#[test]
fn tree_width_matches_exact_rect_width() {
    let node = node_with_geometry(400, 300, 2, 25);
    assert!(width_matches(&node, 400));
}

#[test]
fn tree_width_matches_border_adjusted_width() {
    let node = node_with_geometry(396, 300, 2, 25);
    assert!(width_matches(&node, 400));
}

#[test]
fn tree_width_matches_false_when_neither_formula_fits() {
    let node = node_with_geometry(350, 300, 2, 25);
    assert!(!width_matches(&node, 400));
}

#[test]
fn tree_height_matches_decoration_inclusive_height() {
    let node = node_with_geometry(400, 275, 2, 25);
    assert!(height_matches(&node, 300));
}

#[test]
fn tree_height_matches_false_when_short_of_the_expected_value() {
    let node = node_with_geometry(400, 300, 2, 25);
    assert!(!height_matches(&node, 300));
}

#[test]
fn tree_node_is_floating_true_for_floating_con_type_even_without_a_floating_field() {
    let node = node_with_floating_state("floating_con", None);
    assert!(node_is_floating(&node));
}

#[test]
fn tree_node_is_floating_true_when_the_floating_field_is_set() {
    let node = node_with_floating_state("con", Some("user_on"));
    assert!(node_is_floating(&node));
}

#[test]
fn tree_node_is_floating_false_for_a_plain_tiled_node() {
    let node = node_with_floating_state("con", None);
    assert!(!node_is_floating(&node));
}

#[test]
fn tree_node_is_in_scratchpad_false_when_the_field_is_absent() {
    let node = node_with_scratchpad_state(None);
    assert!(!node_is_in_scratchpad(&node));
}

#[test]
fn tree_node_is_in_scratchpad_false_for_scratchpad_state_none() {
    let node = node_with_scratchpad_state(Some("none"));
    assert!(!node_is_in_scratchpad(&node));
}

#[test]
fn tree_node_is_in_scratchpad_true_for_fresh() {
    let node = node_with_scratchpad_state(Some("fresh"));
    assert!(node_is_in_scratchpad(&node));
}

#[test]
fn tree_node_is_in_scratchpad_true_for_changed() {
    let node = node_with_scratchpad_state(Some("changed"));
    assert!(node_is_in_scratchpad(&node));
}

#[test]
fn tree_tree_shows_container_in_scratchpad_true_via_ancestor_workspace_name() {
    let leaf = leaf_node_value(10, Some("foot"), None);
    let tree = workspace_node_tree(2, "__i3_scratch", vec![leaf], vec![]);
    assert!(tree_shows_container_in_scratchpad(&tree, 10));
}

#[test]
fn tree_tree_shows_container_in_scratchpad_true_via_scratchpad_state_fallback() {
    let mut leaf = leaf_node_value(10, Some("foot"), None);
    leaf.scratchpad_state = Some(scratchpad_named("fresh"));
    let tree = workspace_node_tree(2, "1", vec![leaf], vec![]);
    assert!(tree_shows_container_in_scratchpad(&tree, 10));
}

#[test]
fn tree_tree_shows_container_in_scratchpad_false_for_an_ordinary_window() {
    let leaf = leaf_node_value(10, Some("foot"), None);
    let tree = workspace_node_tree(2, "1", vec![leaf], vec![]);
    assert!(!tree_shows_container_in_scratchpad(&tree, 10));
}

#[test]
fn tree_container_state_from_tree_reads_the_containing_workspace_and_output() {
    let state = ContainerState::from_tree(
        &state_tree("3", leaf_node_value(10, Some("foot"), None)),
        10,
    )
    .expect("the container is in the tree");

    assert_eq!(state.workspace.as_deref(), Some("3"));
    assert_eq!(state.output.as_deref(), Some("HEADLESS-1"));
}

#[test]
fn tree_container_state_from_tree_is_none_for_a_container_not_in_the_tree() {
    let tree = state_tree("3", leaf_node_value(10, Some("foot"), None));
    assert_eq!(ContainerState::from_tree(&tree, 99), None);
}

#[test]
fn tree_container_state_from_tree_reads_the_containers_own_flags_and_marks() {
    let mut leaf = leaf_node_value(10, Some("foot"), None);
    leaf.node_type = node_type_named("floating_con");
    leaf.fullscreen_mode = Some(1);
    leaf.focused = true;
    leaf.marks = vec!["dropdown-term".to_string()];

    let state = ContainerState::from_tree(&state_tree("3", leaf), 10)
        .expect("the container is in the tree");

    assert!(state.floating);
    assert!(state.fullscreen);
    assert!(state.focused);
    assert_eq!(state.marks, vec!["dropdown-term".to_string()]);
    assert!(!state.in_scratchpad);
}

#[test]
fn tree_container_state_from_tree_defaults_a_plain_tiled_window_to_every_flag_unset() {
    let state = ContainerState::from_tree(
        &state_tree("3", leaf_node_value(10, Some("foot"), None)),
        10,
    )
    .expect("the container is in the tree");

    assert!(!state.floating);
    assert!(!state.fullscreen);
    assert!(!state.focused);
    assert!(!state.in_scratchpad);
    assert!(state.marks.is_empty());
}

#[test]
fn tree_container_state_from_tree_reports_a_scratchpadded_container() {
    let state = ContainerState::from_tree(
        &state_tree("__i3_scratch", leaf_node_value(10, Some("foot"), None)),
        10,
    )
    .expect("the container is in the tree");

    assert!(state.in_scratchpad);
}

#[test]
fn tree_container_state_from_tree_reports_fullscreen_mode_zero_as_not_fullscreen() {
    let mut leaf = leaf_node_value(10, Some("foot"), None);
    leaf.fullscreen_mode = Some(0);

    let state = ContainerState::from_tree(&state_tree("3", leaf), 10)
        .expect("the container is in the tree");

    assert!(!state.fullscreen);
}

#[test]
fn tree_compute_center_position_centers_within_a_primary_output() {
    let output_rect = rect(0, 0, 1280, 720);
    assert_eq!(compute_center_position(output_rect, 400, 300), (440, 210));
}

#[test]
fn tree_compute_center_position_accounts_for_a_non_origin_output() {
    let output_rect = rect(1920, 100, 1280, 720);
    assert_eq!(compute_center_position(output_rect, 400, 300), (2360, 310));
}

#[test]
fn tree_node_position_uses_the_decoration_frame_for_an_ordinary_window() {
    let node = node_with_rects(100, 225, 100, 200, true);
    assert_eq!(node_position(&node), (100, 200));
}

#[test]
fn tree_node_position_falls_back_to_rect_when_decoration_geometry_is_unset() {
    let node = node_with_rects(100, 200, 0, 0, false);
    assert_eq!(node_position(&node), (100, 200));
}

#[test]
fn tree_node_position_does_not_treat_a_zero_origin_decoration_as_unset() {
    let node = node_with_rects(0, 25, 0, 0, true);
    assert_eq!(node_position(&node), (0, 0));
}

#[test]
fn tree_expected_position_parses_explicit_coordinates() {
    let node = node_with_geometry(400, 300, 0, 0);
    assert_eq!(
        expected_position(&Position::Coordinates { x: 100, y: 200 }, &node, None),
        Some((100, 200))
    );
}

#[test]
fn tree_expected_position_center_without_an_output_rect_is_none() {
    let node = node_with_geometry(400, 300, 0, 0);
    assert_eq!(expected_position(&Position::Center, &node, None), None);
}

#[test]
fn tree_expected_position_centers_against_the_given_output_rect() {
    let node = node_with_geometry(400, 300, 0, 25);
    assert_eq!(
        expected_position(&Position::Center, &node, Some(rect(0, 0, 1920, 1080))),
        Some(((1920 - 400) / 2, (1080 - 325) / 2))
    );
}

#[test]
fn tree_expected_position_center_accounts_for_a_non_origin_output() {
    let node = node_with_geometry(400, 300, 0, 0);
    assert_eq!(
        expected_position(&Position::Center, &node, Some(rect(1920, 0, 1920, 1080))),
        Some((1920 + (1920 - 400) / 2, (1080 - 300) / 2))
    );
}

#[test]
fn tree_is_at_the_trailing_workspace_edge_true_for_a_solo_window() {
    let leaf = leaf_node_value(10, Some("foot"), None);
    let workspace = workspace_node_tree_with_layout(2, "main", "splith", vec![leaf]);
    assert!(is_at_the_trailing_workspace_edge(
        &workspace,
        10,
        MoveDirection::Right
    ));
}

#[test]
fn tree_is_at_the_trailing_workspace_edge_true_for_the_last_of_several_siblings() {
    let leaf1 = leaf_node_value(10, Some("foot"), None);
    let leaf2 = leaf_node_value(11, Some("foot"), None);
    let workspace = workspace_node_tree_with_layout(2, "main", "splith", vec![leaf1, leaf2]);
    assert!(is_at_the_trailing_workspace_edge(
        &workspace,
        11,
        MoveDirection::Right
    ));
}

#[test]
fn tree_is_at_the_trailing_workspace_edge_false_for_a_leading_sibling() {
    let leaf1 = leaf_node_value(10, Some("foot"), None);
    let leaf2 = leaf_node_value(11, Some("foot"), None);
    let workspace = workspace_node_tree_with_layout(2, "main", "splith", vec![leaf1, leaf2]);
    assert!(!is_at_the_trailing_workspace_edge(
        &workspace,
        10,
        MoveDirection::Right
    ));
}

#[test]
fn tree_is_at_the_trailing_workspace_edge_false_when_the_workspace_layout_does_not_match_the_axis() {
    let leaf = leaf_node_value(10, Some("foot"), None);
    let workspace = workspace_node_tree_with_layout(2, "main", "splitv", vec![leaf]);
    assert!(!is_at_the_trailing_workspace_edge(
        &workspace,
        10,
        MoveDirection::Right
    ));
}

#[test]
fn tree_is_at_the_trailing_workspace_edge_checks_the_down_axis_for_new_row() {
    let leaf1 = leaf_node_value(10, Some("foot"), None);
    let leaf2 = leaf_node_value(11, Some("foot"), None);
    let workspace = workspace_node_tree_with_layout(2, "main", "splitv", vec![leaf1, leaf2]);
    assert!(is_at_the_trailing_workspace_edge(
        &workspace,
        11,
        MoveDirection::Down
    ));
    assert!(!is_at_the_trailing_workspace_edge(
        &workspace,
        10,
        MoveDirection::Down
    ));
}

#[test]
fn tree_is_at_the_trailing_workspace_edge_false_when_id_not_found() {
    let tree = node_tree(1, vec![], vec![]);
    assert!(!is_at_the_trailing_workspace_edge(
        &tree,
        999,
        MoveDirection::Right
    ));
}
