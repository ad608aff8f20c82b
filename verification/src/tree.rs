//! The tree of containers that the compositor reports, and what can be read
//! off it.

use crate::text;
use crate::values::Position;
use vstd::prelude::*;

verus! {

broadcast use vstd::string::group_string_axioms;

/// What kind of node a node of the tree is.
#[derive(Copy, Clone, Debug, PartialEq, Eq, Structural)]
pub enum NodeType {
    Root,
    Output,
    Workspace,
    Con,
    FloatingCon,
    Dockarea,
}

/// How a node lays its children out.
#[derive(Copy, Clone, Debug, PartialEq, Eq, Structural)]
pub enum NodeLayout {
    SplitH,
    SplitV,
    Stacked,
    Tabbed,
    Output,
    Dockarea,
    Unset,
}

/// Whether a container floats, and at whose request.
#[derive(Copy, Clone, Debug, PartialEq, Eq, Structural)]
pub enum Floating {
    AutoOn,
    AutoOff,
    UserOn,
    UserOff,
}

/// Whether a window is in the scratchpad.
#[derive(Copy, Clone, Debug, PartialEq, Eq, Structural)]
pub enum ScratchpadState {
    Absent,
    Fresh,
    Changed,
}

/// A rectangle in the global coordinate space.
#[derive(Copy, Clone, Debug, PartialEq, Eq, Structural)]
pub struct Rect {
    pub x: i32,
    pub y: i32,
    pub width: i32,
    pub height: i32,
}

/// What an X11 window says of itself.
#[derive(Debug)]
pub struct WindowProperties {
    pub class: Option<String>,
}

/// A node of the tree.
#[derive(Debug)]
pub struct Node {
    pub id: i64,
    pub name: Option<String>,
    pub node_type: NodeType,
    pub current_border_width: i32,
    pub layout: NodeLayout,
    pub rect: Rect,
    pub deco_rect: Rect,
    pub focused: bool,
    pub floating: Option<Floating>,
    pub nodes: Vec<Node>,
    pub floating_nodes: Vec<Node>,
    pub sticky: bool,
    pub fullscreen_mode: Option<u8>,
    pub scratchpad_state: Option<ScratchpadState>,
    pub app_id: Option<String>,
    pub pid: Option<i32>,
    pub window_properties: Option<WindowProperties>,
    pub marks: Vec<String>,
}

/// A monitor.
#[derive(Debug)]
pub struct Output {
    pub name: String,
    pub rect: Rect,
}

/// The direction in which a window is moved within its workspace.
#[derive(Copy, Clone, Debug, PartialEq, Eq, Structural)]
pub enum MoveDirection {
    Right,
    Down,
}

/// The children of a node, tiling ones first.
pub open spec fn children(node: Node) -> Seq<Node> {
    node.nodes@ + node.floating_nodes@
}

/// A node and all its descendants, each node before its children, tiling
/// children before floating ones.
pub open spec fn preorder(node: Node) -> Seq<Node>
    decreases node,
{
    seq![node] + preorder_all(node.nodes@) + preorder_all(node.floating_nodes@)
}

/// The nodes of several trees, one tree after the other.
pub open spec fn preorder_all(nodes: Seq<Node>) -> Seq<Node>
    decreases nodes,
{
    if nodes.len() == 0 {
        Seq::empty()
    } else {
        preorder(nodes[0]) + preorder_all(nodes.drop_first())
    }
}

/// Whether some node has the given id.
pub open spec fn has_id(nodes: Seq<Node>, container_id: i64) -> bool {
    exists|i: int| 0 <= i < nodes.len() && (#[trigger] nodes[i]).id == container_id
}

/// The first of some nodes that meets a condition.
pub open spec fn first_where(nodes: Seq<Node>, condition: spec_fn(Node) -> bool) -> Option<Node>
    decreases nodes.len(),
{
    if nodes.len() == 0 {
        None
    } else if condition(nodes[0]) {
        Some(nodes[0])
    } else {
        first_where(nodes.drop_first(), condition)
    }
}

/// The first node with the given id.
pub open spec fn node_with_id(nodes: Seq<Node>, container_id: i64) -> Option<Node> {
    first_where(nodes, |node: Node| node.id == container_id)
}

proof fn lemma_has_id_concat(a: Seq<Node>, b: Seq<Node>, container_id: i64)
    ensures
        has_id(a + b, container_id) <==> has_id(a, container_id) || has_id(b, container_id),
{
    if has_id(a, container_id) {
        let i = choose|i: int| 0 <= i < a.len() && (#[trigger] a[i]).id == container_id;
        assert((a + b)[i].id == container_id);
    }
    if has_id(b, container_id) {
        let i = choose|i: int| 0 <= i < b.len() && (#[trigger] b[i]).id == container_id;
        assert((a + b)[a.len() + i].id == container_id);
    }
    if has_id(a + b, container_id) {
        let i = choose|i: int| 0 <= i < (a + b).len() && (#[trigger] (a + b)[i]).id == container_id;
        if i < a.len() {
            assert(a[i].id == container_id);
        } else {
            assert(b[i - a.len()].id == container_id);
        }
    }
}

proof fn lemma_first_where_concat(a: Seq<Node>, b: Seq<Node>, condition: spec_fn(Node) -> bool)
    ensures
        first_where(a + b, condition) == match first_where(a, condition) {
            Some(node) => Some(node),
            None => first_where(b, condition),
        },
    decreases a.len(),
{
    if a.len() == 0 {
        assert(a + b =~= b);
    } else {
        lemma_first_where_concat(a.drop_first(), b, condition);
        assert((a + b).drop_first() =~= a.drop_first() + b);
    }
}

/// A tree has a node with an id exactly where one can be found.
pub proof fn lemma_first_where_finds_id(nodes: Seq<Node>, container_id: i64)
    ensures
        has_id(nodes, container_id) <==> node_with_id(nodes, container_id) is Some,
        node_with_id(nodes, container_id) is Some ==> node_with_id(nodes, container_id)->0.id
            == container_id,
    decreases nodes.len(),
{
    if nodes.len() > 0 {
        let rest = nodes.drop_first();
        lemma_first_where_finds_id(rest, container_id);
        if has_id(rest, container_id) {
            let i = choose|i: int| 0 <= i < rest.len() && (#[trigger] rest[i]).id == container_id;
            assert(nodes[i + 1].id == container_id);
        }
        if has_id(nodes, container_id) && nodes[0].id != container_id {
            let i = choose|i: int| 0 <= i < nodes.len() && (#[trigger] nodes[i]).id == container_id;
            assert(rest[i - 1].id == container_id);
        }
    }
}

/// Whether a tree has a node with the given id.
pub fn contains_id(node: &Node, container_id: i64) -> (found: bool)
    ensures
        found == has_id(preorder(*node), container_id),
    decreases node,
{
    proof {
        let own = seq![*node];
        assert(own[0].id == node.id);
        lemma_has_id_concat(own, preorder_all(node.nodes@), container_id);
        lemma_has_id_concat(
            own + preorder_all(node.nodes@),
            preorder_all(node.floating_nodes@),
            container_id,
        );
    }
    node.id == container_id || any_contains_id(&node.nodes, container_id) || any_contains_id(
        &node.floating_nodes,
        container_id,
    )
}

fn any_contains_id(nodes: &Vec<Node>, container_id: i64) -> (found: bool)
    ensures
        found == has_id(preorder_all(nodes@), container_id),
    decreases nodes@,
{
    let mut i: usize = 0;
    proof {
        assert(nodes@.skip(0) =~= nodes@);
    }
    while i < nodes.len()
        invariant
            i <= nodes.len(),
            has_id(preorder_all(nodes@), container_id) == has_id(
                preorder_all(nodes@.skip(i as int)),
                container_id,
            ),
        decreases nodes.len() - i,
    {
        proof {
            let rest = nodes@.skip(i as int);
            assert(rest.drop_first() =~= nodes@.skip(i + 1));
            lemma_has_id_concat(preorder(rest[0]), preorder_all(rest.drop_first()), container_id);
        }
        if contains_id(&nodes[i], container_id) {
            return true;
        }
        i += 1;
    }
    false
}

/// The node with the given id: the first, where there are several.
pub fn find_node(node: &Node, container_id: i64) -> (found: Option<&Node>)
    ensures
        match found {
            Some(found) => node_with_id(preorder(*node), container_id) == Some(*found),
            None => node_with_id(preorder(*node), container_id) is None,
        },
    decreases node,
{
    proof {
        let condition = |node: Node| node.id == container_id;
        let own = seq![*node];
        let tiling = preorder_all(node.nodes@);
        lemma_first_where_concat(own, tiling, condition);
        lemma_first_where_concat(own + tiling, preorder_all(node.floating_nodes@), condition);
        reveal_with_fuel(first_where, 2);
    }
    if node.id == container_id {
        return Some(node);
    }
    match find_node_among(&node.nodes, container_id) {
        Some(found) => Some(found),
        None => find_node_among(&node.floating_nodes, container_id),
    }
}

fn find_node_among(nodes: &Vec<Node>, container_id: i64) -> (found: Option<&Node>)
    ensures
        match found {
            Some(found) => node_with_id(preorder_all(nodes@), container_id) == Some(*found),
            None => node_with_id(preorder_all(nodes@), container_id) is None,
        },
    decreases nodes@,
{
    let mut i: usize = 0;
    proof {
        assert(nodes@.skip(0) =~= nodes@);
    }
    while i < nodes.len()
        invariant
            i <= nodes.len(),
            node_with_id(preorder_all(nodes@), container_id) == node_with_id(
                preorder_all(nodes@.skip(i as int)),
                container_id,
            ),
        decreases nodes.len() - i,
    {
        proof {
            let rest = nodes@.skip(i as int);
            assert(rest.drop_first() =~= nodes@.skip(i + 1));
            lemma_first_where_concat(
                preorder(rest[0]),
                preorder_all(rest.drop_first()),
                |node: Node| node.id == container_id,
            );
        }
        if let Some(found) = find_node(&nodes[i], container_id) {
            return Some(found);
        }
        i += 1;
    }
    None
}

/// Whether a node's app id is the given one.
pub open spec fn has_app_id(node: Node, app_id: Seq<char>) -> bool {
    text::opt_text(node.app_id) == Some(app_id)
}

/// Whether a node's class is the given one.
pub open spec fn has_class(node: Node, class: Seq<char>) -> bool {
    node.window_properties matches Some(properties) && text::opt_text(properties.class) == Some(
        class,
    )
}

/// Whether a text is among some marks.
pub open spec fn marked(marks: Seq<String>, mark: Seq<char>) -> bool {
    exists|i: int| 0 <= i < marks.len() && (#[trigger] marks[i])@ == mark
}

/// Whether a node is one that is looked for: by its app id where one is given,
/// else by its class, else by its marks. Where nothing is given, no node is.
pub open spec fn sought(
    node: Node,
    app_id: Seq<char>,
    class: Seq<char>,
    mark: Seq<char>,
) -> bool {
    if app_id.len() > 0 {
        has_app_id(node, app_id)
    } else if class.len() > 0 {
        has_class(node, class)
    } else if mark.len() > 0 {
        marked(node.marks@, mark)
    } else {
        false
    }
}

/// Whether a node's app id is the given one.
pub fn window_app_id_match(node: &Node, app_id_match: &str) -> (matched: bool)
    ensures
        matched == has_app_id(*node, app_id_match@),
{
    match &node.app_id {
        Some(app_id) => text::same_text(app_id.as_str(), app_id_match),
        None => false,
    }
}

/// Whether a node's class is the given one.
pub fn window_class_match(node: &Node, class_match: &str) -> (matched: bool)
    ensures
        matched == has_class(*node, class_match@),
{
    match &node.window_properties {
        Some(properties) => match &properties.class {
            Some(class) => text::same_text(class.as_str(), class_match),
            None => false,
        },
        None => false,
    }
}

/// Whether a text is among some marks.
pub fn holds_mark(marks: &Vec<String>, mark: &str) -> (held: bool)
    ensures
        held == marked(marks@, mark@),
{
    let mut i: usize = 0;
    while i < marks.len()
        invariant
            i <= marks.len(),
            forall|j: int| 0 <= j < i ==> (#[trigger] marks@[j])@ != mark@,
        decreases marks.len() - i,
    {
        if text::same_text(marks[i].as_str(), mark) {
            assert(marks@[i as int]@ == mark@);
            return true;
        }
        i += 1;
    }
    false
}

/// Whether a node has the given mark.
pub fn window_mark_match(node: &Node, mark_match: &str) -> (matched: bool)
    ensures
        matched == marked(node.marks@, mark_match@),
{
    holds_mark(&node.marks, mark_match)
}

/// The ids of the nodes that are looked for, in the order of the nodes.
pub open spec fn sought_ids(
    nodes: Seq<Node>,
    app_id: Seq<char>,
    class: Seq<char>,
    mark: Seq<char>,
) -> Seq<i64> {
    nodes.filter(|node: Node| sought(node, app_id, class, mark)).map_values(|node: Node| node.id)
}

proof fn lemma_sought_ids_concat(
    a: Seq<Node>,
    b: Seq<Node>,
    app_id: Seq<char>,
    class: Seq<char>,
    mark: Seq<char>,
)
    ensures
        sought_ids(a + b, app_id, class, mark) == sought_ids(a, app_id, class, mark) + sought_ids(
            b,
            app_id,
            class,
            mark,
        ),
{
    let condition = |node: Node| sought(node, app_id, class, mark);
    Seq::filter_distributes_over_add(a, b, condition);
    assert(sought_ids(a + b, app_id, class, mark) =~= sought_ids(a, app_id, class, mark)
        + sought_ids(b, app_id, class, mark));
}

/// The ids of all nodes of a tree that are looked for.
pub fn matching_container_ids(
    tree: &Node,
    app_id_match: &str,
    class_match: &str,
    mark_match: &str,
) -> (ids: Vec<i64>)
    ensures
        ids@ == sought_ids(preorder(*tree), app_id_match@, class_match@, mark_match@),
    decreases tree,
{
    let matches = if !app_id_match.is_empty() {
        window_app_id_match(tree, app_id_match)
    } else if !class_match.is_empty() {
        window_class_match(tree, class_match)
    } else if !mark_match.is_empty() {
        window_mark_match(tree, mark_match)
    } else {
        false
    };
    let mut ids: Vec<i64> = Vec::new();
    if matches {
        ids.push(tree.id);
    }
    let ghost own = ids@;
    proof {
        let (a, c, m) = (app_id_match@, class_match@, mark_match@);
        let root = seq![*tree];
        let condition = |node: Node| sought(node, a, c, m);
        let tiling = preorder_all(tree.nodes@);
        assert(root.drop_last() =~= Seq::<Node>::empty());
        reveal_with_fuel(Seq::filter, 2);
        assert(sought_ids(root, a, c, m) =~= own);
        lemma_sought_ids_concat(root, tiling, a, c, m);
        lemma_sought_ids_concat(root + tiling, preorder_all(tree.floating_nodes@), a, c, m);
    }
    let mut tiling_ids = matching_container_ids_among(
        &tree.nodes,
        app_id_match,
        class_match,
        mark_match,
    );
    let mut floating_ids = matching_container_ids_among(
        &tree.floating_nodes,
        app_id_match,
        class_match,
        mark_match,
    );
    ids.append(&mut tiling_ids);
    ids.append(&mut floating_ids);
    ids
}

fn matching_container_ids_among(
    nodes: &Vec<Node>,
    app_id_match: &str,
    class_match: &str,
    mark_match: &str,
) -> (ids: Vec<i64>)
    ensures
        ids@ == sought_ids(preorder_all(nodes@), app_id_match@, class_match@, mark_match@),
    decreases nodes@,
{
    let mut ids: Vec<i64> = Vec::new();
    let mut i: usize = 0;
    proof {
        assert(nodes@.skip(0) =~= nodes@);
        assert(Seq::<i64>::empty() + sought_ids(
            preorder_all(nodes@),
            app_id_match@,
            class_match@,
            mark_match@,
        ) =~= sought_ids(preorder_all(nodes@), app_id_match@, class_match@, mark_match@));
    }
    while i < nodes.len()
        invariant
            i <= nodes.len(),
            ids@ + sought_ids(
                preorder_all(nodes@.skip(i as int)),
                app_id_match@,
                class_match@,
                mark_match@,
            ) == sought_ids(preorder_all(nodes@), app_id_match@, class_match@, mark_match@),
        decreases nodes.len() - i,
    {
        let ghost before = ids@;
        let mut child_ids = matching_container_ids(
            &nodes[i],
            app_id_match,
            class_match,
            mark_match,
        );
        let ghost child = child_ids@;
        ids.append(&mut child_ids);
        proof {
            let rest = nodes@.skip(i as int);
            let (a, c, m) = (app_id_match@, class_match@, mark_match@);
            assert(rest.drop_first() =~= nodes@.skip(i + 1));
            lemma_sought_ids_concat(preorder(rest[0]), preorder_all(rest.drop_first()), a, c, m);
            assert(before + (child + sought_ids(preorder_all(nodes@.skip(i + 1)), a, c, m))
                =~= ids@ + sought_ids(preorder_all(nodes@.skip(i + 1)), a, c, m));
        }
        i += 1;
    }
    proof {
        assert(nodes@.skip(i as int) =~= Seq::<Node>::empty());
        assert(sought_ids(Seq::<Node>::empty(), app_id_match@, class_match@, mark_match@)
            =~= Seq::<i64>::empty());
        assert(ids@ + Seq::<i64>::empty() =~= ids@);
    }
    ids
}

/// What a search that did not find exactly one window is answered.
pub open spec fn matches_error(matches: Seq<i64>, criteria: Seq<char>) -> Seq<char> {
    if matches.len() == 0 {
        "No existing window matches "@ + criteria
    } else {
        text::decimal(matches.len()) + " windows match "@ + criteria + ": "@ + text::numerals(
            matches,
        ) + " — retarget with --con-id"@
    }
}

/// The one window that a search found. Finding none, or more than one, is an
/// error: no window is picked over another.
pub fn resolve_matches(matches: Vec<i64>, criteria: &str) -> (result: Result<i64, String>)
    ensures
        match result {
            Ok(id) => matches@ == seq![id],
            Err(error) => matches.len() != 1 && error@ == matches_error(matches@, criteria@),
        },
{
    if matches.len() == 0 {
        Err(text::concat("No existing window matches ", criteria))
    } else if matches.len() == 1 {
        assert(matches@ =~= seq![matches@[0]]);
        Ok(matches[0])
    } else {
        let mut error = text::decimal_text(matches.len() as u128);
        error.append(" windows match ");
        error.append(criteria);
        error.append(": ");
        error.append(text::numerals_text(&matches).as_str());
        error.append(" — retarget with --con-id");
        Err(error)
    }
}

/// Whether a node floats.
pub open spec fn floats(node: Node) -> bool {
    node.node_type == NodeType::FloatingCon || node.floating == Some(Floating::UserOn)
        || node.floating == Some(Floating::AutoOn)
}

/// Whether a node floats. Some versions of the compositor say so by the node's
/// type alone, so either sign is enough.
pub fn node_is_floating(node: &Node) -> (floating: bool)
    ensures
        floating == floats(*node),
{
    node.node_type == NodeType::FloatingCon || matches!(
        node.floating,
        Some(Floating::UserOn) | Some(Floating::AutoOn)
    )
}

/// Whether a node is flagged as being in the scratchpad.
pub open spec fn flagged_in_scratchpad(node: Node) -> bool {
    node.scratchpad_state is Some && node.scratchpad_state != Some(ScratchpadState::Absent)
}

/// Whether a node is flagged as being in the scratchpad.
pub fn node_is_in_scratchpad(node: &Node) -> (flagged: bool)
    ensures
        flagged == flagged_in_scratchpad(*node),
{
    match node.scratchpad_state {
        None | Some(ScratchpadState::Absent) => false,
        _ => true,
    }
}

/// The name of the nearest node of a kind that a container is, or is inside of:
/// `current` is that of the nodes around the tree. A container that no named
/// node of the kind surrounds is passed over.
pub open spec fn containing_name(
    node: Node,
    container_id: i64,
    kind: NodeType,
    current: Option<Seq<char>>,
) -> Option<Seq<char>>
    decreases node,
{
    let here = if node.node_type == kind {
        text::opt_text(node.name)
    } else {
        current
    };
    if node.id == container_id {
        here
    } else {
        match containing_name_among(node.nodes@, container_id, kind, here) {
            Some(name) => Some(name),
            None => containing_name_among(node.floating_nodes@, container_id, kind, here),
        }
    }
}

/// As `containing_name`, in the first of several trees that has a name to give.
pub open spec fn containing_name_among(
    nodes: Seq<Node>,
    container_id: i64,
    kind: NodeType,
    current: Option<Seq<char>>,
) -> Option<Seq<char>>
    decreases nodes,
{
    if nodes.len() == 0 {
        None
    } else {
        match containing_name(nodes[0], container_id, kind, current) {
            Some(name) => Some(name),
            None => containing_name_among(nodes.drop_first(), container_id, kind, current),
        }
    }
}

/// The name of the nearest node of a kind that a container is, or is inside of.
pub fn find_containing_name(
    node: &Node,
    container_id: i64,
    kind: NodeType,
    current: Option<&str>,
) -> (name: Option<String>)
    ensures
        text::opt_text(name) == containing_name(
            *node,
            container_id,
            kind,
            text::opt_str(current),
        ),
    decreases node,
{
    let here = if node.node_type == kind {
        text::as_deref(&node.name)
    } else {
        current
    };
    if node.id == container_id {
        return match here {
            Some(name) => Some(name.to_owned()),
            None => None,
        };
    }
    match find_containing_name_among(&node.nodes, container_id, kind, here) {
        Some(name) => Some(name),
        None => find_containing_name_among(&node.floating_nodes, container_id, kind, here),
    }
}

fn find_containing_name_among(
    nodes: &Vec<Node>,
    container_id: i64,
    kind: NodeType,
    current: Option<&str>,
) -> (name: Option<String>)
    ensures
        text::opt_text(name) == containing_name_among(
            nodes@,
            container_id,
            kind,
            text::opt_str(current),
        ),
    decreases nodes@,
{
    let mut i: usize = 0;
    proof {
        assert(nodes@.skip(0) =~= nodes@);
    }
    while i < nodes.len()
        invariant
            i <= nodes.len(),
            containing_name_among(nodes@, container_id, kind, text::opt_str(current))
                == containing_name_among(
                nodes@.skip(i as int),
                container_id,
                kind,
                text::opt_str(current),
            ),
        decreases nodes.len() - i,
    {
        proof {
            assert(nodes@.skip(i as int).drop_first() =~= nodes@.skip(i + 1));
        }
        let name = find_containing_name(&nodes[i], container_id, kind, current);
        if name.is_some() {
            return name;
        }
        i += 1;
    }
    None
}

/// Whether no two nodes have the same id.
pub open spec fn ids_distinct(nodes: Seq<Node>) -> bool {
    forall|i: int, j: int|
        0 <= i < j < nodes.len() ==> (#[trigger] nodes[i]).id != (#[trigger] nodes[j]).id
}

/// Whether a node is of a kind and is a container, or has it among its
/// descendants.
pub open spec fn surrounds(node: Node, container_id: i64, kind: NodeType) -> bool {
    node.node_type == kind && has_id(preorder(node), container_id)
}

/// Whether some node of a kind is a container, or has it among its descendants.
pub open spec fn some_surrounds(nodes: Seq<Node>, container_id: i64, kind: NodeType) -> bool {
    exists|node: Node| #[trigger] nodes.contains(node) && surrounds(node, container_id, kind)
}

/// Whether a node is the innermost one of a kind that is a container, or has it
/// among its descendants: no other such node is among its own descendants.
pub open spec fn innermost(
    nodes: Seq<Node>,
    container_id: i64,
    kind: NodeType,
    node: Node,
) -> bool {
    &&& nodes.contains(node)
    &&& surrounds(node, container_id, kind)
    &&& forall|inner: Node| #[trigger]
        preorder(node).contains(inner) && surrounds(inner, container_id, kind) ==> inner == node
}

/// Whether the descendants of each of some nodes are among the nodes too.
spec fn holds_descendants(nodes: Seq<Node>) -> bool {
    forall|node: Node, inner: Node| #[trigger]
        nodes.contains(node) && #[trigger] preorder(node).contains(inner) ==> nodes.contains(inner)
}

/// Whether a name is that of the innermost node of a kind around a container,
/// or `current` where there is no such node; none without the container.
spec fn names_innermost(
    nodes: Seq<Node>,
    container_id: i64,
    kind: NodeType,
    current: Option<Seq<char>>,
    name: Option<Seq<char>>,
) -> bool {
    &&& !has_id(nodes, container_id) ==> name is None
    &&& has_id(nodes, container_id) && !some_surrounds(nodes, container_id, kind) ==> name
        == current
    &&& some_surrounds(nodes, container_id, kind) ==> exists|node: Node| #[trigger]
        innermost(nodes, container_id, kind, node)
    &&& forall|node: Node| #[trigger]
        innermost(nodes, container_id, kind, node) ==> name == text::opt_text(node.name)
}

proof fn lemma_contains_concat(a: Seq<Node>, b: Seq<Node>)
    ensures
        forall|node: Node| #[trigger]
            (a + b).contains(node) <==> a.contains(node) || b.contains(node),
{
    assert forall|node: Node| a.contains(node) || b.contains(node) implies #[trigger] (a
        + b).contains(node) by {
        if a.contains(node) {
            let i = choose|i: int| 0 <= i < a.len() && a[i] == node;
            assert((a + b)[i] == node);
        } else {
            let i = choose|i: int| 0 <= i < b.len() && b[i] == node;
            assert((a + b)[a.len() + i] == node);
        }
    }
    assert forall|node: Node| #[trigger] (a + b).contains(node) implies a.contains(node)
        || b.contains(node) by {
        let i = choose|i: int| 0 <= i < (a + b).len() && (a + b)[i] == node;
        if i < a.len() {
            assert(a[i] == node);
        } else {
            assert(b[i - a.len()] == node);
        }
    }
}

proof fn lemma_ids_distinct_concat(a: Seq<Node>, b: Seq<Node>, container_id: i64)
    requires
        ids_distinct(a + b),
    ensures
        ids_distinct(a),
        ids_distinct(b),
        !(has_id(a, container_id) && has_id(b, container_id)),
{
    let both = a + b;
    assert forall|i: int, j: int| 0 <= i < j < a.len() implies (#[trigger] a[i]).id != (
    #[trigger] a[j]).id by {
        assert(both[i] == a[i] && both[j] == a[j]);
    }
    assert forall|i: int, j: int| 0 <= i < j < b.len() implies (#[trigger] b[i]).id != (
    #[trigger] b[j]).id by {
        assert(both[a.len() + i] == b[i] && both[a.len() + j] == b[j]);
    }
    if has_id(a, container_id) && has_id(b, container_id) {
        let i = choose|i: int| 0 <= i < a.len() && (#[trigger] a[i]).id == container_id;
        let j = choose|j: int| 0 <= j < b.len() && (#[trigger] b[j]).id == container_id;
        assert(both[i] == a[i] && both[a.len() + j] == b[j]);
    }
}

proof fn lemma_preorder_holds_descendants(node: Node)
    ensures
        holds_descendants(preorder(node)),
    decreases node,
{
    let tiling = preorder_all(node.nodes@);
    let floating = preorder_all(node.floating_nodes@);
    lemma_preorder_all_holds_descendants(node.nodes@);
    lemma_preorder_all_holds_descendants(node.floating_nodes@);
    lemma_contains_concat(seq![node], tiling);
    lemma_contains_concat(seq![node] + tiling, floating);
}

proof fn lemma_preorder_all_holds_descendants(nodes: Seq<Node>)
    ensures
        holds_descendants(preorder_all(nodes)),
    decreases nodes,
{
    if nodes.len() > 0 {
        lemma_preorder_holds_descendants(nodes[0]);
        lemma_preorder_all_holds_descendants(nodes.drop_first());
        lemma_contains_concat(preorder(nodes[0]), preorder_all(nodes.drop_first()));
    }
}

proof fn lemma_surrounding_holds_id(nodes: Seq<Node>, container_id: i64, kind: NodeType)
    requires
        holds_descendants(nodes),
        some_surrounds(nodes, container_id, kind),
    ensures
        has_id(nodes, container_id),
{
    let node = choose|node: Node| #[trigger]
        nodes.contains(node) && surrounds(node, container_id, kind);
    let below = preorder(node);
    let i = choose|i: int| 0 <= i < below.len() && (#[trigger] below[i]).id == container_id;
    assert(below.contains(below[i]));
    assert(nodes.contains(below[i]));
}

proof fn lemma_names_innermost_concat(
    a: Seq<Node>,
    b: Seq<Node>,
    container_id: i64,
    kind: NodeType,
    current: Option<Seq<char>>,
    name_a: Option<Seq<char>>,
    name_b: Option<Seq<char>>,
)
    requires
        ids_distinct(a + b),
        holds_descendants(a),
        holds_descendants(b),
        names_innermost(a, container_id, kind, current, name_a),
        names_innermost(b, container_id, kind, current, name_b),
    ensures
        names_innermost(
            a + b,
            container_id,
            kind,
            current,
            if name_a is Some {
                name_a
            } else {
                name_b
            },
        ),
{
    lemma_contains_concat(a, b);
    lemma_has_id_concat(a, b, container_id);
    lemma_ids_distinct_concat(a, b, container_id);
    if some_surrounds(a, container_id, kind) {
        lemma_surrounding_holds_id(a, container_id, kind);
        let node = choose|node: Node| #[trigger] innermost(a, container_id, kind, node);
        assert(innermost(a + b, container_id, kind, node));
    }
    if some_surrounds(b, container_id, kind) {
        lemma_surrounding_holds_id(b, container_id, kind);
        let node = choose|node: Node| #[trigger] innermost(b, container_id, kind, node);
        assert(innermost(a + b, container_id, kind, node));
    }
    assert(some_surrounds(a + b, container_id, kind) <==> some_surrounds(a, container_id, kind)
        || some_surrounds(b, container_id, kind)) by {
        if some_surrounds(a, container_id, kind) {
            let node = choose|node: Node| #[trigger]
                a.contains(node) && surrounds(node, container_id, kind);
            assert((a + b).contains(node));
        }
        if some_surrounds(b, container_id, kind) {
            let node = choose|node: Node| #[trigger]
                b.contains(node) && surrounds(node, container_id, kind);
            assert((a + b).contains(node));
        }
    }
    assert forall|node: Node| #[trigger] innermost(a + b, container_id, kind, node) implies (
    innermost(a, container_id, kind, node) && has_id(a, container_id)) || (innermost(
        b,
        container_id,
        kind,
        node,
    ) && has_id(b, container_id)) by {
        if a.contains(node) {
            assert(some_surrounds(a, container_id, kind));
        } else {
            assert(b.contains(node));
            assert(some_surrounds(b, container_id, kind));
        }
    }
}

proof fn lemma_containing_name_is_innermost(
    node: Node,
    container_id: i64,
    kind: NodeType,
    current: Option<Seq<char>>,
)
    requires
        ids_distinct(preorder(node)),
    ensures
        names_innermost(
            preorder(node),
            container_id,
            kind,
            current,
            containing_name(node, container_id, kind, current),
        ),
    decreases node,
{
    let all = preorder(node);
    let tiling = preorder_all(node.nodes@);
    let floating = preorder_all(node.floating_nodes@);
    let below = tiling + floating;
    let here = if node.node_type == kind {
        text::opt_text(node.name)
    } else {
        current
    };
    assert(all =~= seq![node] + below);
    lemma_ids_distinct_concat(seq![node], below, container_id);
    lemma_ids_distinct_concat(tiling, floating, container_id);
    lemma_preorder_all_holds_descendants(node.nodes@);
    lemma_preorder_all_holds_descendants(node.floating_nodes@);
    lemma_contains_concat(tiling, floating);
    lemma_contains_concat(seq![node], below);
    lemma_has_id_concat(seq![node], below, container_id);
    lemma_containing_name_among_is_innermost(node.nodes@, container_id, kind, here);
    lemma_containing_name_among_is_innermost(node.floating_nodes@, container_id, kind, here);
    lemma_names_innermost_concat(
        tiling,
        floating,
        container_id,
        kind,
        here,
        containing_name_among(node.nodes@, container_id, kind, here),
        containing_name_among(node.floating_nodes@, container_id, kind, here),
    );
    assert(seq![node][0] == node);
    assert(seq![node].contains(node));
    assert(has_id(seq![node], container_id) <==> node.id == container_id);
    if some_surrounds(below, container_id, kind) {
        lemma_surrounding_holds_id(below, container_id, kind);
        let inner = choose|inner: Node| #[trigger] innermost(below, container_id, kind, inner);
        assert(innermost(all, container_id, kind, inner));
        let i = choose|i: int| 0 <= i < below.len() && below[i] == inner;
        assert(all[i + 1] == inner && all[0] == node);
        assert(inner.id != node.id);
        assert(!innermost(all, container_id, kind, node)) by {
            assert(preorder(node).contains(inner));
        }
        assert forall|other: Node| #[trigger]
            innermost(all, container_id, kind, other) implies innermost(
            below,
            container_id,
            kind,
            other,
        ) by {
            assert(other != node);
            assert(seq![node].contains(other) ==> other == node);
        }
    } else {
        assert forall|other: Node| #[trigger] all.contains(other) && surrounds(
            other,
            container_id,
            kind,
        ) implies other == node by {
            if below.contains(other) {
                assert(some_surrounds(below, container_id, kind));
            }
        }
        if surrounds(node, container_id, kind) {
            assert(innermost(all, container_id, kind, node));
        }
    }
}

proof fn lemma_containing_name_among_is_innermost(
    nodes: Seq<Node>,
    container_id: i64,
    kind: NodeType,
    current: Option<Seq<char>>,
)
    requires
        ids_distinct(preorder_all(nodes)),
    ensures
        names_innermost(
            preorder_all(nodes),
            container_id,
            kind,
            current,
            containing_name_among(nodes, container_id, kind, current),
        ),
    decreases nodes,
{
    if nodes.len() > 0 {
        let first = preorder(nodes[0]);
        let rest = preorder_all(nodes.drop_first());
        lemma_ids_distinct_concat(first, rest, container_id);
        lemma_preorder_holds_descendants(nodes[0]);
        lemma_preorder_all_holds_descendants(nodes.drop_first());
        lemma_containing_name_is_innermost(nodes[0], container_id, kind, current);
        lemma_containing_name_among_is_innermost(nodes.drop_first(), container_id, kind, current);
        lemma_names_innermost_concat(
            first,
            rest,
            container_id,
            kind,
            current,
            containing_name(nodes[0], container_id, kind, current),
            containing_name_among(nodes.drop_first(), container_id, kind, current),
        );
    }
}

/// In a tree whose ids are distinct, the name found for a container is that of
/// the innermost node of the kind that is the container or has it among its
/// descendants; where there is such a node, there is an innermost one, and
/// where there is none, no name is found.
pub proof fn law_the_innermost_name_is_found(tree: Node, container_id: i64, kind: NodeType)
    requires
        ids_distinct(preorder(tree)),
    ensures
        forall|node: Node| #[trigger]
            innermost(preorder(tree), container_id, kind, node) ==> containing_name(
                tree,
                container_id,
                kind,
                None,
            ) == text::opt_text(node.name),
        some_surrounds(preorder(tree), container_id, kind) ==> exists|node: Node| #[trigger]
            innermost(preorder(tree), container_id, kind, node),
        !some_surrounds(preorder(tree), container_id, kind) ==> containing_name(
            tree,
            container_id,
            kind,
            None,
        ) is None,
{
    lemma_containing_name_is_innermost(tree, container_id, kind, None);
}

/// The name of the workspace that holds the scratchpad.
pub const SCRATCHPAD_WORKSPACE: &'static str = "__i3_scratch";

/// Whether a tree shows a container to be in the scratchpad: by the name of
/// the workspace that it is in, or by its own flag.
pub open spec fn in_scratchpad(tree: Node, container_id: i64) -> bool {
    ||| containing_name(tree, container_id, NodeType::Workspace, None) == Some(
        SCRATCHPAD_WORKSPACE@,
    )
    ||| node_with_id(preorder(tree), container_id) matches Some(node) && flagged_in_scratchpad(node)
}

/// Whether a tree shows a container to be in the scratchpad.
pub fn tree_shows_container_in_scratchpad(tree: &Node, container_id: i64) -> (shown: bool)
    ensures
        shown == in_scratchpad(*tree, container_id),
{
    let in_scratchpad_workspace = match find_containing_name(
        tree,
        container_id,
        NodeType::Workspace,
        None,
    ) {
        Some(name) => text::same_text(name.as_str(), SCRATCHPAD_WORKSPACE),
        None => false,
    };
    let node_flagged = match find_node(tree, container_id) {
        Some(node) => node_is_in_scratchpad(node),
        None => false,
    };
    in_scratchpad_workspace || node_flagged
}

/// What actions need to know of a container's state.
#[derive(Debug, PartialEq, Eq, Default)]
pub struct ContainerState {
    pub workspace: Option<String>,
    pub output: Option<String>,
    pub floating: bool,
    pub fullscreen: bool,
    pub focused: bool,
    pub in_scratchpad: bool,
    pub marks: Vec<String>,
}

/// Whether a state is what a tree shows of a container.
pub open spec fn shows_state(tree: Node, container_id: i64, state: ContainerState) -> bool {
    &&& text::opt_text(state.workspace) == containing_name(
        tree,
        container_id,
        NodeType::Workspace,
        None,
    )
    &&& text::opt_text(state.output) == containing_name(tree, container_id, NodeType::Output, None)
    &&& state.in_scratchpad == in_scratchpad(tree, container_id)
    &&& node_with_id(preorder(tree), container_id) matches Some(node) && {
        &&& state.floating == floats(node)
        &&& state.fullscreen == (node.fullscreen_mode matches Some(mode) && mode != 0)
        &&& state.focused == node.focused
        &&& state.marks@ == node.marks@
    }
}

impl ContainerState {
    /// The state of a container, or `None` where it is not in the tree.
    pub fn from_tree(tree: &Node, container_id: i64) -> (state: Option<ContainerState>)
        ensures
            match state {
                Some(state) => shows_state(*tree, container_id, state),
                None => !has_id(preorder(*tree), container_id),
            },
    {
        proof {
            lemma_first_where_finds_id(preorder(*tree), container_id);
        }
        match find_node(tree, container_id) {
            Some(node) => Some(
                ContainerState {
                    workspace: find_containing_name(tree, container_id, NodeType::Workspace, None),
                    output: find_containing_name(tree, container_id, NodeType::Output, None),
                    floating: node_is_floating(node),
                    fullscreen: match node.fullscreen_mode {
                        Some(mode) => mode != 0,
                        None => false,
                    },
                    focused: node.focused,
                    in_scratchpad: tree_shows_container_in_scratchpad(tree, container_id),
                    marks: text::copy_texts(&node.marks),
                },
            ),
            None => None,
        }
    }
}

/// The workspaces of a tree, none of which is inside another.
pub open spec fn workspaces(node: Node) -> Seq<Node>
    decreases node,
{
    if node.node_type == NodeType::Workspace {
        seq![node]
    } else {
        workspaces_among(node.nodes@) + workspaces_among(node.floating_nodes@)
    }
}

/// The workspaces of several trees, one tree after the other.
pub open spec fn workspaces_among(nodes: Seq<Node>) -> Seq<Node>
    decreases nodes,
{
    if nodes.len() == 0 {
        Seq::empty()
    } else {
        workspaces(nodes[0]) + workspaces_among(nodes.drop_first())
    }
}

/// The first of some trees that has a node with the given id.
pub open spec fn tree_with_id(nodes: Seq<Node>, container_id: i64) -> Option<Node> {
    first_where(nodes, |node: Node| has_id(preorder(node), container_id))
}

/// The workspace that a container is in.
pub fn find_workspace_node(node: &Node, container_id: i64) -> (found: Option<&Node>)
    ensures
        match found {
            Some(found) => tree_with_id(workspaces(*node), container_id) == Some(*found),
            None => tree_with_id(workspaces(*node), container_id) is None,
        },
    decreases node,
{
    proof {
        reveal_with_fuel(first_where, 2);
        lemma_first_where_concat(
            workspaces_among(node.nodes@),
            workspaces_among(node.floating_nodes@),
            |node: Node| has_id(preorder(node), container_id),
        );
    }
    if node.node_type == NodeType::Workspace {
        return if contains_id(node, container_id) {
            Some(node)
        } else {
            None
        };
    }
    match find_workspace_node_among(&node.nodes, container_id) {
        Some(found) => Some(found),
        None => find_workspace_node_among(&node.floating_nodes, container_id),
    }
}

fn find_workspace_node_among(nodes: &Vec<Node>, container_id: i64) -> (found: Option<&Node>)
    ensures
        match found {
            Some(found) => tree_with_id(workspaces_among(nodes@), container_id) == Some(*found),
            None => tree_with_id(workspaces_among(nodes@), container_id) is None,
        },
    decreases nodes@,
{
    let mut i: usize = 0;
    proof {
        assert(nodes@.skip(0) =~= nodes@);
    }
    while i < nodes.len()
        invariant
            i <= nodes.len(),
            tree_with_id(workspaces_among(nodes@), container_id) == tree_with_id(
                workspaces_among(nodes@.skip(i as int)),
                container_id,
            ),
        decreases nodes.len() - i,
    {
        proof {
            let rest = nodes@.skip(i as int);
            assert(rest.drop_first() =~= nodes@.skip(i + 1));
            lemma_first_where_concat(
                workspaces(rest[0]),
                workspaces_among(rest.drop_first()),
                |node: Node| has_id(preorder(node), container_id),
            );
        }
        if let Some(found) = find_workspace_node(&nodes[i], container_id) {
            return Some(found);
        }
        i += 1;
    }
    None
}

/// The layout that arranges children along a direction.
pub open spec fn axis_layout(direction: MoveDirection) -> NodeLayout {
    match direction {
        MoveDirection::Right => NodeLayout::SplitH,
        MoveDirection::Down => NodeLayout::SplitV,
    }
}

/// Whether a container is the last tiling child of a workspace that is laid
/// out along a direction.
pub open spec fn at_trailing_edge(
    tree: Node,
    container_id: i64,
    direction: MoveDirection,
) -> bool {
    &&& tree_with_id(workspaces(tree), container_id) matches Some(workspace)
    &&& workspace.layout == axis_layout(direction)
    &&& workspace.nodes@.len() > 0
    &&& workspace.nodes@.last().id == container_id
}

/// Whether a container is the last tiling child of a workspace that is laid
/// out along a direction, so that moving it further would take it elsewhere.
pub fn is_at_the_trailing_workspace_edge(
    tree: &Node,
    container_id: i64,
    direction: MoveDirection,
) -> (at_edge: bool)
    ensures
        at_edge == at_trailing_edge(*tree, container_id, direction),
{
    match find_workspace_node(tree, container_id) {
        Some(workspace) => {
            let expected_layout = match direction {
                MoveDirection::Right => NodeLayout::SplitH,
                MoveDirection::Down => NodeLayout::SplitV,
            };
            if workspace.layout != expected_layout {
                return false;
            }
            let count: usize = workspace.nodes.len();
            count > 0 && workspace.nodes[count - 1].id == container_id
        },
        None => false,
    }
}

/// The first node that has a child with the given id.
pub open spec fn parent_of(nodes: Seq<Node>, container_id: i64) -> Option<Node> {
    first_where(nodes, |node: Node| has_id(children(node), container_id))
}

/// Whether one of some nodes has the given id.
fn any_has_id(nodes: &Vec<Node>, container_id: i64) -> (found: bool)
    ensures
        found == has_id(nodes@, container_id),
{
    let mut i: usize = 0;
    while i < nodes.len()
        invariant
            i <= nodes.len(),
            forall|j: int| 0 <= j < i ==> (#[trigger] nodes@[j]).id != container_id,
        decreases nodes.len() - i,
    {
        if nodes[i].id == container_id {
            assert(nodes@[i as int].id == container_id);
            return true;
        }
        i += 1;
    }
    false
}

/// The layout of the node whose child a container is.
pub fn find_parent_layout(node: &Node, container_id: i64) -> (layout: Option<NodeLayout>)
    ensures
        layout == match parent_of(preorder(*node), container_id) {
            Some(parent) => Some(parent.layout),
            None => None,
        },
    decreases node,
{
    proof {
        let condition = |node: Node| has_id(children(node), container_id);
        let own = seq![*node];
        let tiling = preorder_all(node.nodes@);
        lemma_first_where_concat(own, tiling, condition);
        lemma_first_where_concat(own + tiling, preorder_all(node.floating_nodes@), condition);
        reveal_with_fuel(first_where, 2);
        lemma_has_id_concat(node.nodes@, node.floating_nodes@, container_id);
    }
    if any_has_id(&node.nodes, container_id) || any_has_id(&node.floating_nodes, container_id) {
        return Some(node.layout);
    }
    match find_parent_layout_among(&node.nodes, container_id) {
        Some(layout) => Some(layout),
        None => find_parent_layout_among(&node.floating_nodes, container_id),
    }
}

fn find_parent_layout_among(nodes: &Vec<Node>, container_id: i64) -> (layout: Option<NodeLayout>)
    ensures
        layout == match parent_of(preorder_all(nodes@), container_id) {
            Some(parent) => Some(parent.layout),
            None => None,
        },
    decreases nodes@,
{
    let mut i: usize = 0;
    proof {
        assert(nodes@.skip(0) =~= nodes@);
    }
    while i < nodes.len()
        invariant
            i <= nodes.len(),
            parent_of(preorder_all(nodes@), container_id) == parent_of(
                preorder_all(nodes@.skip(i as int)),
                container_id,
            ),
        decreases nodes.len() - i,
    {
        proof {
            let rest = nodes@.skip(i as int);
            assert(rest.drop_first() =~= nodes@.skip(i + 1));
            lemma_first_where_concat(
                preorder(rest[0]),
                preorder_all(rest.drop_first()),
                |node: Node| has_id(children(node), container_id),
            );
        }
        if let Some(layout) = find_parent_layout(&nodes[i], container_id) {
            return Some(layout);
        }
        i += 1;
    }
    None
}

/// Whether a node's width is the one asked for, with or without its borders.
pub open spec fn has_width(node: Node, expected_px: int) -> bool {
    node.rect.width == expected_px || node.rect.width + 2 * node.current_border_width
        == expected_px
}

/// Whether a node's height, with its decoration, is the one asked for.
pub open spec fn has_height(node: Node, expected_px: int) -> bool {
    node.rect.height + node.deco_rect.height == expected_px
}

/// Whether a node's width is the one asked for. A window's borders count
/// towards its width or not, depending on how it came to float.
pub fn width_matches(node: &Node, expected_px: i32) -> (matched: bool)
    ensures
        matched == has_width(*node, expected_px as int),
{
    node.rect.width == expected_px || node.rect.width as i64 + 2 * node.current_border_width as i64
        == expected_px as i64
}

/// Whether a node's height is the one asked for. The decoration counts towards
/// it.
pub fn height_matches(node: &Node, expected_px: i32) -> (matched: bool)
    ensures
        matched == has_height(*node, expected_px as int),
{
    node.rect.height as i64 + node.deco_rect.height as i64 == expected_px as i64
}

/// Where a node's frame starts: at its decoration, or at its contents where it
/// has no decoration.
pub open spec fn frame_origin(node: Node) -> (i32, i32) {
    if node.deco_rect.width == 0 && node.deco_rect.height == 0 {
        (node.rect.x, node.rect.y)
    } else {
        (node.deco_rect.x, node.deco_rect.y)
    }
}

/// Where a node's frame starts.
pub fn node_position(node: &Node) -> (origin: (i32, i32))
    ensures
        origin == frame_origin(*node),
{
    if node.deco_rect.width == 0 && node.deco_rect.height == 0 {
        (node.rect.x, node.rect.y)
    } else {
        (node.deco_rect.x, node.deco_rect.y)
    }
}

/// Half of a number, rounded towards zero.
pub open spec fn half(n: int) -> int {
    if n >= 0 {
        n / 2
    } else {
        -((-n) / 2)
    }
}

/// Whether a number fits in an `i32`.
pub open spec fn fits_i32(n: int) -> bool {
    i32::MIN <= n <= i32::MAX
}

/// The coordinate at which something of the given length is centred in a span.
pub open spec fn centred(start: int, length: int, inner: int) -> int {
    start + half(length - inner)
}

/// Whether a centred coordinate, and what it is computed from, fit in an `i32`.
pub open spec fn centred_fits(start: int, length: int, inner: int) -> bool {
    fits_i32(length - inner) && fits_i32(centred(start, length, inner))
}

/// The coordinate at which something of the given length is centred in a span.
fn centre(start: i32, length: i32, inner: i32) -> (coordinate: i32)
    requires
        centred_fits(start as int, length as int, inner as int),
    ensures
        coordinate == centred(start as int, length as int, inner as int),
{
    let margin: i64 = length as i64 - inner as i64;
    let half_margin: i64 = if margin >= 0 {
        margin / 2
    } else {
        -((-margin) / 2)
    };
    (start as i64 + half_margin) as i32
}

/// Where a window of the given size starts when it is centred in an output.
pub fn compute_center_position(
    output_rect: Rect,
    window_width: i32,
    window_height: i32,
) -> (origin: (i32, i32))
    requires
        centred_fits(output_rect.x as int, output_rect.width as int, window_width as int),
        centred_fits(output_rect.y as int, output_rect.height as int, window_height as int),
    ensures
        origin.0 == centred(output_rect.x as int, output_rect.width as int, window_width as int),
        origin.1 == centred(output_rect.y as int, output_rect.height as int, window_height as int),
{
    (
        centre(output_rect.x, output_rect.width, window_width),
        centre(output_rect.y, output_rect.height, window_height),
    )
}

/// The height of a node with its decoration.
pub open spec fn outer_height(node: Node) -> int {
    node.rect.height + node.deco_rect.height
}

/// Whether all that goes into centring a node in an output fits in an `i32`.
pub open spec fn centring_fits(node: Node, output_rect: Rect) -> bool {
    &&& fits_i32(outer_height(node))
    &&& centred_fits(output_rect.x as int, output_rect.width as int, node.rect.width as int)
    &&& centred_fits(output_rect.y as int, output_rect.height as int, outer_height(node))
}

/// Where a node's frame is when it is centred in an output.
pub open spec fn centred_origin(node: Node, output_rect: Rect) -> (i32, i32) {
    (
        centred(output_rect.x as int, output_rect.width as int, node.rect.width as int) as i32,
        centred(output_rect.y as int, output_rect.height as int, outer_height(node)) as i32,
    )
}

/// Whether all that goes into centring a node in an output fits in an `i32`.
pub fn can_center(node: &Node, output_rect: Rect) -> (fits: bool)
    ensures
        fits == centring_fits(*node, output_rect),
{
    let height: i64 = node.rect.height as i64 + node.deco_rect.height as i64;
    fits_in_i32(height) && can_centre_span(
        output_rect.x as i64,
        output_rect.width as i64,
        node.rect.width as i64,
    ) && can_centre_span(output_rect.y as i64, output_rect.height as i64, height)
}

fn fits_in_i32(n: i64) -> (fits: bool)
    ensures
        fits == fits_i32(n as int),
{
    i32::MIN as i64 <= n && n <= i32::MAX as i64
}

fn can_centre_span(start: i64, length: i64, inner: i64) -> (fits: bool)
    requires
        fits_i32(start as int),
        fits_i32(length as int),
        fits_i32(inner as int),
    ensures
        fits == centred_fits(start as int, length as int, inner as int),
{
    let margin: i64 = length - inner;
    let half_margin: i64 = if margin >= 0 {
        margin / 2
    } else {
        -((-margin) / 2)
    };
    fits_in_i32(margin) && fits_in_i32(start + half_margin)
}

/// Where a node's frame is when it is positioned as asked: nowhere known where
/// it is to be centred in an output that is not known.
pub open spec fn expected_origin(
    position: Position,
    node: Node,
    output_rect: Option<Rect>,
) -> Option<(i32, i32)> {
    match position {
        Position::Center => match output_rect {
            Some(rect) => Some(centred_origin(node, rect)),
            None => None,
        },
        Position::Coordinates { x, y } => Some((x, y)),
    }
}

/// Where a node's frame is when it is positioned as asked.
pub fn expected_position(
    position: &Position,
    node: &Node,
    output_rect: Option<Rect>,
) -> (origin: Option<(i32, i32)>)
    requires
        *position == Position::Center && output_rect is Some ==> centring_fits(
            *node,
            output_rect->0,
        ),
    ensures
        origin == expected_origin(*position, *node, output_rect),
{
    match position {
        Position::Center => match output_rect {
            Some(rect) => Some(
                compute_center_position(
                    rect,
                    node.rect.width,
                    node.rect.height + node.deco_rect.height,
                ),
            ),
            None => None,
        },
        Position::Coordinates { x, y } => Some((*x, *y)),
    }
}

/// Every window that a search finds is in the tree that was searched, and a
/// search by nothing finds nothing.
pub proof fn law_found_windows_are_in_the_tree(
    tree: Node,
    app_id: Seq<char>,
    class: Seq<char>,
    mark: Seq<char>,
)
    ensures
        forall|i: int|
            0 <= i < sought_ids(preorder(tree), app_id, class, mark).len() ==> has_id(
                preorder(tree),
                #[trigger] sought_ids(preorder(tree), app_id, class, mark)[i],
            ),
        app_id.len() == 0 && class.len() == 0 && mark.len() == 0 ==> sought_ids(
            preorder(tree),
            app_id,
            class,
            mark,
        ).len() == 0,
{
    broadcast use vstd::seq_lib::group_filter_ensures;

    let nodes = preorder(tree);
    let condition = |node: Node| sought(node, app_id, class, mark);
    let found = nodes.filter(condition);
    text::lemma_filter_members(nodes, condition);
    assert forall|i: int| 0 <= i < sought_ids(nodes, app_id, class, mark).len() implies has_id(
        nodes,
        #[trigger] sought_ids(nodes, app_id, class, mark)[i],
    ) by {
        assert(nodes.contains(found[i]));
    }
    if found.len() > 0 {
        assert(condition(found[0]));
    }
}

/// Whether a node is a child of another, tiling or floating.
pub open spec fn is_child(parent: Node, child: Node) -> bool {
    parent.nodes@.contains(child) || parent.floating_nodes@.contains(child)
}

proof fn lemma_roots_are_in(nodes: Seq<Node>)
    ensures
        forall|child: Node| #[trigger]
            nodes.contains(child) ==> preorder_all(nodes).contains(child),
    decreases nodes.len(),
{
    if nodes.len() > 0 {
        let first = preorder(nodes[0]);
        let rest = nodes.drop_first();
        lemma_roots_are_in(rest);
        lemma_contains_concat(first, preorder_all(rest));
        assert(first[0] == nodes[0]);
        assert forall|child: Node| #[trigger] nodes.contains(child) implies preorder_all(
            nodes,
        ).contains(child) by {
            let i = choose|i: int| 0 <= i < nodes.len() && nodes[i] == child;
            if i == 0 {
                assert(first.contains(child));
            } else {
                assert(rest[i - 1] == child);
                assert(rest.contains(child));
            }
        }
    }
}

proof fn lemma_children_are_in(node: Node)
    ensures
        forall|child: Node| #[trigger] is_child(node, child) ==> preorder(node).contains(child),
{
    let tiling = preorder_all(node.nodes@);
    let floating = preorder_all(node.floating_nodes@);
    lemma_roots_are_in(node.nodes@);
    lemma_roots_are_in(node.floating_nodes@);
    lemma_contains_concat(seq![node], tiling);
    lemma_contains_concat(seq![node] + tiling, floating);
}

proof fn lemma_each_has_a_parent(node: Node)
    ensures
        forall|inner: Node| #[trigger]
            preorder(node).contains(inner) ==> inner == node || exists|parent: Node| #[trigger]
                preorder(node).contains(parent) && is_child(parent, inner),
    decreases node,
{
    let all = preorder(node);
    let tiling = preorder_all(node.nodes@);
    let floating = preorder_all(node.floating_nodes@);
    lemma_each_among_has_a_parent(node.nodes@);
    lemma_each_among_has_a_parent(node.floating_nodes@);
    lemma_contains_concat(seq![node], tiling);
    lemma_contains_concat(seq![node] + tiling, floating);
    assert(all[0] == node);
    assert forall|inner: Node| #[trigger] all.contains(inner) implies inner == node || exists|
        parent: Node,
    | #[trigger]
        all.contains(parent) && is_child(parent, inner) by {
        if inner != node {
            assert(tiling.contains(inner) || floating.contains(inner));
            if is_child(node, inner) {
                assert(all.contains(node));
            } else if tiling.contains(inner) {
                let parent = choose|parent: Node| #[trigger]
                    tiling.contains(parent) && is_child(parent, inner);
                assert(all.contains(parent));
            } else {
                let parent = choose|parent: Node| #[trigger]
                    floating.contains(parent) && is_child(parent, inner);
                assert(all.contains(parent));
            }
        }
    }
}

proof fn lemma_each_among_has_a_parent(nodes: Seq<Node>)
    ensures
        forall|inner: Node| #[trigger]
            preorder_all(nodes).contains(inner) ==> nodes.contains(inner) || exists|parent: Node|
                #[trigger]
                preorder_all(nodes).contains(parent) && is_child(parent, inner),
    decreases nodes,
{
    if nodes.len() > 0 {
        let all = preorder_all(nodes);
        let first = preorder(nodes[0]);
        let rest = nodes.drop_first();
        lemma_each_has_a_parent(nodes[0]);
        lemma_each_among_has_a_parent(rest);
        lemma_contains_concat(first, preorder_all(rest));
        assert forall|inner: Node| #[trigger] all.contains(inner) implies nodes.contains(inner)
            || exists|parent: Node| #[trigger] all.contains(parent) && is_child(parent, inner) by {
            if first.contains(inner) {
                if inner == nodes[0] {
                    assert(nodes.contains(inner));
                } else {
                    let parent = choose|parent: Node| #[trigger]
                        first.contains(parent) && is_child(parent, inner);
                    assert(all.contains(parent));
                }
            } else if rest.contains(inner) {
                let i = choose|i: int| 0 <= i < rest.len() && rest[i] == inner;
                assert(nodes[i + 1] == inner);
            } else {
                let parent = choose|parent: Node| #[trigger]
                    preorder_all(rest).contains(parent) && is_child(parent, inner);
                assert(all.contains(parent));
            }
        }
    }
}

/// The nodes that are gone through are the whole tree: its root, with each node
/// all of that node's children, tiling and floating, and nothing else.
pub proof fn law_the_whole_tree_is_gone_through(tree: Node)
    ensures
        preorder(tree).len() > 0,
        preorder(tree)[0] == tree,
        forall|node: Node, child: Node| #[trigger]
            preorder(tree).contains(node) && #[trigger] is_child(node, child) ==> preorder(
                tree,
            ).contains(child),
        forall|inner: Node| #[trigger]
            preorder(tree).contains(inner) ==> inner == tree || exists|parent: Node| #[trigger]
                preorder(tree).contains(parent) && is_child(parent, inner),
{
    lemma_preorder_holds_descendants(tree);
    lemma_each_has_a_parent(tree);
    assert forall|node: Node, child: Node| #[trigger]
        preorder(tree).contains(node) && #[trigger] is_child(node, child) implies preorder(
        tree,
    ).contains(child) by {
        lemma_children_are_in(node);
        assert(preorder(node).contains(child));
    }
}

/// The first of some nodes that meets a condition is one of them and meets it;
/// none is found only where none of them does.
proof fn lemma_first_where(nodes: Seq<Node>, condition: spec_fn(Node) -> bool)
    ensures
        match first_where(nodes, condition) {
            Some(node) => nodes.contains(node) && condition(node),
            None => forall|node: Node| #[trigger] nodes.contains(node) ==> !condition(node),
        },
    decreases nodes.len(),
{
    if nodes.len() > 0 {
        let rest = nodes.drop_first();
        lemma_first_where(rest, condition);
        match first_where(nodes, condition) {
            Some(node) => {
                if condition(nodes[0]) {
                    assert(nodes[0] == node);
                } else {
                    let i = choose|i: int| 0 <= i < rest.len() && rest[i] == node;
                    assert(nodes[i + 1] == node);
                }
            },
            None => {
                assert forall|node: Node| #[trigger] nodes.contains(node) implies !condition(
                    node,
                ) by {
                    let i = choose|i: int| 0 <= i < nodes.len() && nodes[i] == node;
                    if i > 0 {
                        assert(rest[i - 1] == node);
                        assert(rest.contains(node));
                    }
                }
            },
        }
    }
}

proof fn lemma_same_id_same_node(nodes: Seq<Node>, a: Node, b: Node)
    requires
        ids_distinct(nodes),
        nodes.contains(a),
        nodes.contains(b),
        a.id == b.id,
    ensures
        a == b,
{
    let i = choose|i: int| 0 <= i < nodes.len() && nodes[i] == a;
    let j = choose|j: int| 0 <= j < nodes.len() && nodes[j] == b;
    if i < j {
        assert(nodes[i].id != nodes[j].id);
    } else if j < i {
        assert(nodes[j].id != nodes[i].id);
    }
}

/// What is found under an id is a node of the tree with that id, and none is
/// found only where no node of the tree has it; where the ids are distinct,
/// each node is the one that is found under its id.
pub proof fn law_a_node_is_found_by_its_id(tree: Node, container_id: i64)
    ensures
        match node_with_id(preorder(tree), container_id) {
            Some(node) => preorder(tree).contains(node) && node.id == container_id,
            None => forall|node: Node| #[trigger]
                preorder(tree).contains(node) ==> node.id != container_id,
        },
        ids_distinct(preorder(tree)) ==> forall|node: Node| #[trigger]
            preorder(tree).contains(node) ==> node_with_id(preorder(tree), node.id) == Some(node),
{
    lemma_first_where(preorder(tree), |node: Node| node.id == container_id);
    if ids_distinct(preorder(tree)) {
        assert forall|node: Node| #[trigger] preorder(tree).contains(node) implies node_with_id(
            preorder(tree),
            node.id,
        ) == Some(node) by {
            lemma_first_where(preorder(tree), |other: Node| other.id == node.id);
            if let Some(found) = node_with_id(preorder(tree), node.id) {
                lemma_same_id_same_node(preorder(tree), found, node);
            }
        }
    }
}

/// A container is said to be in a tree exactly where a node of the tree has its
/// id.
pub proof fn law_a_container_is_there_where_a_node_has_its_id(tree: Node, container_id: i64)
    ensures
        has_id(preorder(tree), container_id) <==> exists|node: Node| #[trigger]
            preorder(tree).contains(node) && node.id == container_id,
{
    let all = preorder(tree);
    if has_id(all, container_id) {
        let i = choose|i: int| 0 <= i < all.len() && (#[trigger] all[i]).id == container_id;
        assert(all.contains(all[i]));
    }
}

/// Whether a node has a child with an id.
spec fn has_child(node: Node, container_id: i64) -> bool {
    has_id(children(node), container_id)
}

proof fn lemma_child_is_below(node: Node, container_id: i64)
    requires
        has_child(node, container_id),
    ensures
        has_id(preorder_all(node.nodes@) + preorder_all(node.floating_nodes@), container_id),
{
    let all = children(node);
    let i = choose|i: int| 0 <= i < all.len() && (#[trigger] all[i]).id == container_id;
    let tiling = preorder_all(node.nodes@);
    let floating = preorder_all(node.floating_nodes@);
    lemma_roots_are_in(node.nodes@);
    lemma_roots_are_in(node.floating_nodes@);
    lemma_contains_concat(tiling, floating);
    if i < node.nodes@.len() {
        assert(node.nodes@.contains(all[i]));
    } else {
        assert(node.floating_nodes@[i - node.nodes@.len()] == all[i]);
        assert(node.floating_nodes@.contains(all[i]));
    }
    let below = tiling + floating;
    assert(below.contains(all[i]));
    let k = choose|k: int| 0 <= k < below.len() && below[k] == all[i];
    assert(below[k].id == container_id);
}

proof fn lemma_child_is_among(nodes: Seq<Node>, node: Node, container_id: i64)
    requires
        holds_descendants(nodes),
        nodes.contains(node),
        has_child(node, container_id),
    ensures
        has_id(nodes, container_id),
{
    let all = children(node);
    let i = choose|i: int| 0 <= i < all.len() && (#[trigger] all[i]).id == container_id;
    lemma_children_are_in(node);
    if i < node.nodes@.len() {
        assert(node.nodes@.contains(all[i]));
    } else {
        assert(node.floating_nodes@[i - node.nodes@.len()] == all[i]);
        assert(node.floating_nodes@.contains(all[i]));
    }
    assert(is_child(node, all[i]));
    assert(preorder(node).contains(all[i]));
    assert(nodes.contains(all[i]));
    let k = choose|k: int| 0 <= k < nodes.len() && nodes[k] == all[i];
    assert(nodes[k].id == container_id);
}

/// A node that stands at the top of one of some trees is no other node's child.
proof fn lemma_a_root_has_no_parent(nodes: Seq<Node>, container_id: i64)
    requires
        ids_distinct(preorder_all(nodes)),
        has_id(nodes, container_id),
    ensures
        forall|node: Node| #[trigger]
            preorder_all(nodes).contains(node) ==> !has_child(node, container_id),
    decreases nodes.len(),
{
    let at = choose|at: int| 0 <= at < nodes.len() && (#[trigger] nodes[at]).id == container_id;
    let root = nodes[0];
    let first = preorder(root);
    let rest = nodes.drop_first();
    let below = preorder_all(root.nodes@) + preorder_all(root.floating_nodes@);
    lemma_ids_distinct_concat(first, preorder_all(rest), container_id);
    lemma_contains_concat(first, preorder_all(rest));
    lemma_preorder_holds_descendants(root);
    lemma_preorder_all_holds_descendants(rest);
    if at > 0 {
        assert(rest[at - 1].id == container_id);
        lemma_a_root_has_no_parent(rest, container_id);
        lemma_roots_are_in(rest);
        assert(rest.contains(rest[at - 1]));
        let all = preorder_all(rest);
        let k = choose|k: int| 0 <= k < all.len() && all[k] == rest[at - 1];
        assert(all[k].id == container_id);
    } else {
        assert(first[0].id == container_id);
    }
    assert forall|node: Node| #[trigger] preorder_all(nodes).contains(node) implies !has_child(
        node,
        container_id,
    ) by {
        if has_child(node, container_id) {
            if first.contains(node) {
                lemma_child_is_among(first, node, container_id);
                if at == 0 {
                    assert(first =~= seq![root] + below);
                    lemma_ids_distinct_concat(seq![root], below, container_id);
                    assert(seq![root][0].id == container_id);
                    lemma_contains_concat(seq![root], below);
                    if node == root {
                        lemma_child_is_below(root, container_id);
                    } else {
                        assert(below.contains(node));
                        lemma_preorder_all_holds_descendants(root.nodes@);
                        lemma_preorder_all_holds_descendants(root.floating_nodes@);
                        lemma_contains_concat(
                            preorder_all(root.nodes@),
                            preorder_all(root.floating_nodes@),
                        );
                        lemma_child_is_among(below, node, container_id);
                    }
                }
            } else {
                lemma_child_is_among(preorder_all(rest), node, container_id);
            }
        }
    }
}

/// Whether no two of some nodes have a child with an id.
spec fn one_parent(nodes: Seq<Node>, container_id: i64) -> bool {
    forall|a: Node, b: Node| #[trigger]
        nodes.contains(a) && #[trigger] nodes.contains(b) && has_child(a, container_id)
            && has_child(b, container_id) ==> a == b
}

proof fn lemma_one_parent_concat(a: Seq<Node>, b: Seq<Node>, container_id: i64)
    requires
        ids_distinct(a + b),
        holds_descendants(a),
        holds_descendants(b),
        one_parent(a, container_id),
        one_parent(b, container_id),
    ensures
        one_parent(a + b, container_id),
{
    lemma_contains_concat(a, b);
    lemma_ids_distinct_concat(a, b, container_id);
    assert forall|x: Node, y: Node| #[trigger]
        (a + b).contains(x) && #[trigger] (a + b).contains(y) && has_child(x, container_id)
            && has_child(y, container_id) implies x == y by {
        if a.contains(x) {
            lemma_child_is_among(a, x, container_id);
        } else {
            lemma_child_is_among(b, x, container_id);
        }
        if a.contains(y) {
            lemma_child_is_among(a, y, container_id);
        } else {
            lemma_child_is_among(b, y, container_id);
        }
    }
}

proof fn lemma_one_parent(node: Node, container_id: i64)
    requires
        ids_distinct(preorder(node)),
    ensures
        one_parent(preorder(node), container_id),
    decreases node,
{
    let tiling = preorder_all(node.nodes@);
    let floating = preorder_all(node.floating_nodes@);
    let below = tiling + floating;
    assert(preorder(node) =~= seq![node] + below);
    lemma_ids_distinct_concat(seq![node], below, container_id);
    lemma_ids_distinct_concat(tiling, floating, container_id);
    lemma_preorder_all_holds_descendants(node.nodes@);
    lemma_preorder_all_holds_descendants(node.floating_nodes@);
    lemma_contains_concat(tiling, floating);
    lemma_contains_concat(seq![node], below);
    lemma_one_parent_among(node.nodes@, container_id);
    lemma_one_parent_among(node.floating_nodes@, container_id);
    lemma_one_parent_concat(tiling, floating, container_id);
    if has_child(node, container_id) {
        lemma_has_id_concat(node.nodes@, node.floating_nodes@, container_id);
        assert forall|inner: Node| #[trigger] below.contains(inner) implies !has_child(
            inner,
            container_id,
        ) by {
            if has_child(inner, container_id) {
                lemma_roots_are_in(node.nodes@);
                lemma_roots_are_in(node.floating_nodes@);
                if has_id(node.nodes@, container_id) {
                    let roots = node.nodes@;
                    let i = choose|i: int|
                        0 <= i < roots.len() && (#[trigger] roots[i]).id == container_id;
                    assert(roots.contains(roots[i]));
                    let k = choose|k: int| 0 <= k < tiling.len() && tiling[k] == roots[i];
                    assert(tiling[k].id == container_id);
                    lemma_a_root_has_no_parent(roots, container_id);
                    if floating.contains(inner) {
                        lemma_child_is_among(floating, inner, container_id);
                    }
                } else {
                    let roots = node.floating_nodes@;
                    let i = choose|i: int|
                        0 <= i < roots.len() && (#[trigger] roots[i]).id == container_id;
                    assert(roots.contains(roots[i]));
                    let k = choose|k: int| 0 <= k < floating.len() && floating[k] == roots[i];
                    assert(floating[k].id == container_id);
                    lemma_a_root_has_no_parent(roots, container_id);
                    if tiling.contains(inner) {
                        lemma_child_is_among(tiling, inner, container_id);
                    }
                }
            }
        }
    }
    assert forall|x: Node, y: Node| #[trigger]
        preorder(node).contains(x) && #[trigger] preorder(node).contains(y) && has_child(
            x,
            container_id,
        ) && has_child(y, container_id) implies x == y by {
        assert(x == node || below.contains(x));
        assert(y == node || below.contains(y));
    }
}

proof fn lemma_one_parent_among(nodes: Seq<Node>, container_id: i64)
    requires
        ids_distinct(preorder_all(nodes)),
    ensures
        one_parent(preorder_all(nodes), container_id),
    decreases nodes,
{
    if nodes.len() > 0 {
        let first = preorder(nodes[0]);
        let rest = preorder_all(nodes.drop_first());
        lemma_ids_distinct_concat(first, rest, container_id);
        lemma_preorder_holds_descendants(nodes[0]);
        lemma_preorder_all_holds_descendants(nodes.drop_first());
        lemma_one_parent(nodes[0], container_id);
        lemma_one_parent_among(nodes.drop_first(), container_id);
        lemma_one_parent_concat(first, rest, container_id);
    }
}

/// In a tree whose ids are distinct, what is found as the parent of a container
/// is the node of the tree that has the container among its children, tiling or
/// floating; none is found where no node of the tree has it as a child.
pub proof fn law_the_parent_is_found(tree: Node, parent: Node, child: Node)
    requires
        ids_distinct(preorder(tree)),
        preorder(tree).contains(parent),
        is_child(parent, child),
    ensures
        parent_of(preorder(tree), child.id) == Some(parent),
{
    let all = children(parent);
    if parent.nodes@.contains(child) {
        let i = choose|i: int| 0 <= i < parent.nodes@.len() && parent.nodes@[i] == child;
        assert(all[i].id == child.id);
    } else {
        let i = choose|i: int|
            0 <= i < parent.floating_nodes@.len() && parent.floating_nodes@[i] == child;
        assert(all[parent.nodes@.len() + i].id == child.id);
    }
    assert(has_child(parent, child.id));
    lemma_one_parent(tree, child.id);
    lemma_first_where(preorder(tree), |node: Node| has_id(children(node), child.id));
    if let Some(found) = parent_of(preorder(tree), child.id) {
        assert(has_child(found, child.id));
    }
}

/// What is found as the parent of a container has a child with its id.
pub proof fn law_a_found_parent_has_the_child(tree: Node, container_id: i64)
    ensures
        match parent_of(preorder(tree), container_id) {
            Some(parent) => preorder(tree).contains(parent) && exists|child: Node| #[trigger]
                is_child(parent, child) && child.id == container_id,
            None => forall|parent: Node, child: Node| #[trigger]
                preorder(tree).contains(parent) && #[trigger] is_child(parent, child) ==> child.id
                    != container_id,
        },
{
    lemma_first_where(preorder(tree), |node: Node| has_id(children(node), container_id));
    match parent_of(preorder(tree), container_id) {
        Some(parent) => {
            let all = children(parent);
            let i = choose|i: int| 0 <= i < all.len() && (#[trigger] all[i]).id == container_id;
            if i < parent.nodes@.len() {
                assert(parent.nodes@.contains(all[i]));
            } else {
                assert(parent.floating_nodes@[i - parent.nodes@.len()] == all[i]);
            }
            assert(is_child(parent, all[i]));
        },
        None => {
            assert forall|parent: Node, child: Node| #[trigger]
                preorder(tree).contains(parent) && #[trigger] is_child(parent, child) implies
                child.id != container_id by {
                let all = children(parent);
                if parent.nodes@.contains(child) {
                    let i = choose|i: int|
                        0 <= i < parent.nodes@.len() && parent.nodes@[i] == child;
                    assert(all[i] == child);
                } else {
                    let i = choose|i: int|
                        0 <= i < parent.floating_nodes@.len() && parent.floating_nodes@[i] == child;
                    assert(all[parent.nodes@.len() + i] == child);
                }
            }
        },
    }
}

/// Whether no workspace is inside another.
pub open spec fn workspaces_apart(nodes: Seq<Node>) -> bool {
    forall|outer: Node, inner: Node| #[trigger]
        nodes.contains(outer) && #[trigger] preorder(outer).contains(inner) && outer.node_type
            == NodeType::Workspace && inner.node_type == NodeType::Workspace ==> inner == outer
}

proof fn lemma_workspaces(node: Node)
    ensures
        forall|workspace: Node| #[trigger]
            workspaces(node).contains(workspace) ==> preorder(node).contains(workspace)
                && workspace.node_type == NodeType::Workspace,
        workspaces_apart(preorder(node)) ==> forall|workspace: Node| #[trigger]
            preorder(node).contains(workspace) && workspace.node_type == NodeType::Workspace
                ==> workspaces(node).contains(workspace),
    decreases node,
{
    let all = preorder(node);
    let tiling = preorder_all(node.nodes@);
    let floating = preorder_all(node.floating_nodes@);
    lemma_contains_concat(seq![node], tiling);
    lemma_contains_concat(seq![node] + tiling, floating);
    assert(all[0] == node);
    assert(all.contains(node));
    if node.node_type == NodeType::Workspace {
        assert(workspaces(node)[0] == node);
        assert(workspaces(node).contains(node));
    } else {
        lemma_workspaces_among(node.nodes@);
        lemma_workspaces_among(node.floating_nodes@);
        lemma_contains_concat(
            workspaces_among(node.nodes@),
            workspaces_among(node.floating_nodes@),
        );
        if workspaces_apart(all) {
            assert forall|outer: Node, inner: Node| #[trigger]
                tiling.contains(outer) && #[trigger] preorder(outer).contains(inner)
                    && outer.node_type == NodeType::Workspace && inner.node_type
                    == NodeType::Workspace implies inner == outer by {
                assert(all.contains(outer));
            }
            assert forall|outer: Node, inner: Node| #[trigger]
                floating.contains(outer) && #[trigger] preorder(outer).contains(inner)
                    && outer.node_type == NodeType::Workspace && inner.node_type
                    == NodeType::Workspace implies inner == outer by {
                assert(all.contains(outer));
            }
        }
    }
}

proof fn lemma_workspaces_among(nodes: Seq<Node>)
    ensures
        forall|workspace: Node| #[trigger]
            workspaces_among(nodes).contains(workspace) ==> preorder_all(nodes).contains(workspace)
                && workspace.node_type == NodeType::Workspace,
        workspaces_apart(preorder_all(nodes)) ==> forall|workspace: Node| #[trigger]
            preorder_all(nodes).contains(workspace) && workspace.node_type == NodeType::Workspace
                ==> workspaces_among(nodes).contains(workspace),
    decreases nodes,
{
    if nodes.len() > 0 {
        let all = preorder_all(nodes);
        let first = preorder(nodes[0]);
        let rest = nodes.drop_first();
        lemma_workspaces(nodes[0]);
        lemma_workspaces_among(rest);
        lemma_contains_concat(first, preorder_all(rest));
        lemma_contains_concat(workspaces(nodes[0]), workspaces_among(rest));
        if workspaces_apart(all) {
            assert forall|outer: Node, inner: Node| #[trigger]
                first.contains(outer) && #[trigger] preorder(outer).contains(inner)
                    && outer.node_type == NodeType::Workspace && inner.node_type
                    == NodeType::Workspace implies inner == outer by {
                assert(all.contains(outer));
            }
            assert forall|outer: Node, inner: Node| #[trigger]
                preorder_all(rest).contains(outer) && #[trigger] preorder(outer).contains(inner)
                    && outer.node_type == NodeType::Workspace && inner.node_type
                    == NodeType::Workspace implies inner == outer by {
                assert(all.contains(outer));
            }
        }
    }
}

/// Whether, of any two of some nodes that have a container among their
/// descendants, one is inside the other.
spec fn in_line(nodes: Seq<Node>, container_id: i64) -> bool {
    forall|a: Node, b: Node| #[trigger]
        nodes.contains(a) && #[trigger] nodes.contains(b) && has_id(preorder(a), container_id)
            && has_id(preorder(b), container_id) ==> preorder(a).contains(b) || preorder(
            b,
        ).contains(a)
}

proof fn lemma_id_is_among(nodes: Seq<Node>, node: Node, container_id: i64)
    requires
        holds_descendants(nodes),
        nodes.contains(node),
        has_id(preorder(node), container_id),
    ensures
        has_id(nodes, container_id),
{
    let below = preorder(node);
    let i = choose|i: int| 0 <= i < below.len() && (#[trigger] below[i]).id == container_id;
    assert(below.contains(below[i]));
    assert(nodes.contains(below[i]));
    let k = choose|k: int| 0 <= k < nodes.len() && nodes[k] == below[i];
    assert(nodes[k].id == container_id);
}

proof fn lemma_in_line_concat(a: Seq<Node>, b: Seq<Node>, container_id: i64)
    requires
        ids_distinct(a + b),
        holds_descendants(a),
        holds_descendants(b),
        in_line(a, container_id),
        in_line(b, container_id),
    ensures
        in_line(a + b, container_id),
{
    lemma_contains_concat(a, b);
    lemma_ids_distinct_concat(a, b, container_id);
    assert forall|x: Node, y: Node| #[trigger]
        (a + b).contains(x) && #[trigger] (a + b).contains(y) && has_id(preorder(x), container_id)
            && has_id(preorder(y), container_id) implies preorder(x).contains(y) || preorder(
        y,
    ).contains(x) by {
        if a.contains(x) {
            lemma_id_is_among(a, x, container_id);
        } else {
            lemma_id_is_among(b, x, container_id);
        }
        if a.contains(y) {
            lemma_id_is_among(a, y, container_id);
        } else {
            lemma_id_is_among(b, y, container_id);
        }
    }
}

proof fn lemma_in_line(node: Node, container_id: i64)
    requires
        ids_distinct(preorder(node)),
    ensures
        in_line(preorder(node), container_id),
    decreases node,
{
    let all = preorder(node);
    let tiling = preorder_all(node.nodes@);
    let floating = preorder_all(node.floating_nodes@);
    let below = tiling + floating;
    assert(all =~= seq![node] + below);
    lemma_ids_distinct_concat(seq![node], below, container_id);
    lemma_ids_distinct_concat(tiling, floating, container_id);
    lemma_preorder_all_holds_descendants(node.nodes@);
    lemma_preorder_all_holds_descendants(node.floating_nodes@);
    lemma_contains_concat(seq![node], below);
    lemma_in_line_among(node.nodes@, container_id);
    lemma_in_line_among(node.floating_nodes@, container_id);
    lemma_in_line_concat(tiling, floating, container_id);
    assert forall|x: Node, y: Node| #[trigger]
        all.contains(x) && #[trigger] all.contains(y) && has_id(preorder(x), container_id)
            && has_id(preorder(y), container_id) implies preorder(x).contains(y) || preorder(
        y,
    ).contains(x) by {
        assert(x == node || below.contains(x));
        assert(y == node || below.contains(y));
    }
}

proof fn lemma_in_line_among(nodes: Seq<Node>, container_id: i64)
    requires
        ids_distinct(preorder_all(nodes)),
    ensures
        in_line(preorder_all(nodes), container_id),
    decreases nodes,
{
    if nodes.len() > 0 {
        let first = preorder(nodes[0]);
        let rest = preorder_all(nodes.drop_first());
        lemma_ids_distinct_concat(first, rest, container_id);
        lemma_preorder_holds_descendants(nodes[0]);
        lemma_preorder_all_holds_descendants(nodes.drop_first());
        lemma_in_line(nodes[0], container_id);
        lemma_in_line_among(nodes.drop_first(), container_id);
        lemma_in_line_concat(first, rest, container_id);
    }
}

/// In a tree whose ids are distinct and whose workspaces are not inside each
/// other, all of its workspaces are searched, wherever in the tree they are; the
/// workspace that is found is the one that a container is in; and a container is
/// at the trailing edge exactly where some workspace of the tree is laid out
/// along the move, from left to right or from top to bottom, and has the
/// container as its last tiling child.
pub proof fn law_the_trailing_edge_is_that_of_the_containers_workspace(
    tree: Node,
    container_id: i64,
    direction: MoveDirection,
)
    requires
        ids_distinct(preorder(tree)),
        workspaces_apart(preorder(tree)),
    ensures
        forall|node: Node| #[trigger]
            workspaces(tree).contains(node) <==> preorder(tree).contains(node) && node.node_type
                == NodeType::Workspace,
        forall|node: Node| #[trigger]
            preorder(tree).contains(node) && node.node_type == NodeType::Workspace && has_id(
                preorder(node),
                container_id,
            ) ==> tree_with_id(workspaces(tree), container_id) == Some(node),
        at_trailing_edge(tree, container_id, direction) <==> exists|node: Node| #[trigger]
            preorder(tree).contains(node) && node.node_type == NodeType::Workspace && has_id(
                preorder(node),
                container_id,
            ) && node.layout == (match direction {
                MoveDirection::Right => NodeLayout::SplitH,
                MoveDirection::Down => NodeLayout::SplitV,
            }) && node.nodes@.len() > 0 && node.nodes@[node.nodes@.len() - 1].id == container_id,
{
    let all = preorder(tree);
    lemma_workspaces(tree);
    lemma_in_line(tree, container_id);
    lemma_first_where(workspaces(tree), |node: Node| has_id(preorder(node), container_id));
    assert forall|node: Node| #[trigger]
        all.contains(node) && node.node_type == NodeType::Workspace && has_id(
            preorder(node),
            container_id,
        ) implies tree_with_id(workspaces(tree), container_id) == Some(node) by {
        assert(workspaces(tree).contains(node));
        let found = tree_with_id(workspaces(tree), container_id)->0;
        assert(all.contains(found));
        assert(preorder(found).contains(node) || preorder(node).contains(found));
    }
    if at_trailing_edge(tree, container_id, direction) {
        let found = tree_with_id(workspaces(tree), container_id)->0;
        assert(all.contains(found));
    }
}

/// Whether a node has the app id, the class or the mark that is looked for: the
/// first of them that is given counts, and it has to be the same text.
pub open spec fn is_looked_for(
    node: Node,
    app_id: Seq<char>,
    class: Seq<char>,
    mark: Seq<char>,
) -> bool {
    ||| app_id.len() > 0 && node.app_id is Some && node.app_id->0@ == app_id
    ||| app_id.len() == 0 && class.len() > 0 && node.window_properties is Some
        && node.window_properties->0.class is Some && node.window_properties->0.class->0@ == class
    ||| app_id.len() == 0 && class.len() == 0 && mark.len() > 0 && exists|i: int|
        0 <= i < node.marks@.len() && (#[trigger] node.marks@[i])@ == mark
}

/// A search finds the ids of just those nodes of the tree that are looked for;
/// where the ids are distinct, each once, and exactly one where exactly one node
/// is looked for.
pub proof fn law_a_search_finds_what_is_looked_for(
    tree: Node,
    app_id: Seq<char>,
    class: Seq<char>,
    mark: Seq<char>,
)
    ensures
        forall|id: i64| #[trigger]
            sought_ids(preorder(tree), app_id, class, mark).contains(id) <==> exists|node: Node|
                #[trigger]
                preorder(tree).contains(node) && node.id == id && is_looked_for(
                    node,
                    app_id,
                    class,
                    mark,
                ),
        ids_distinct(preorder(tree)) ==> sought_ids(
            preorder(tree),
            app_id,
            class,
            mark,
        ).no_duplicates(),
{
    let nodes = preorder(tree);
    let found = sought_ids(nodes, app_id, class, mark);
    lemma_sought_ids(nodes, app_id, class, mark);
    assert forall|node: Node| sought(node, app_id, class, mark) <==> #[trigger] is_looked_for(
        node,
        app_id,
        class,
        mark,
    ) by {}
    assert forall|id: i64| #[trigger] found.contains(id) <==> exists|node: Node| #[trigger]
        nodes.contains(node) && node.id == id && is_looked_for(node, app_id, class, mark) by {
        if exists|node: Node| #[trigger]
            nodes.contains(node) && node.id == id && sought(node, app_id, class, mark) {
            let node = choose|node: Node| #[trigger]
                nodes.contains(node) && node.id == id && sought(node, app_id, class, mark);
            assert(is_looked_for(node, app_id, class, mark));
        }
        if exists|node: Node| #[trigger]
            nodes.contains(node) && node.id == id && is_looked_for(node, app_id, class, mark) {
            let node = choose|node: Node| #[trigger]
                nodes.contains(node) && node.id == id && is_looked_for(node, app_id, class, mark);
            assert(sought(node, app_id, class, mark));
        }
    }
}

proof fn lemma_sought_ids(
    nodes: Seq<Node>,
    app_id: Seq<char>,
    class: Seq<char>,
    mark: Seq<char>,
)
    ensures
        forall|id: i64| #[trigger]
            sought_ids(nodes, app_id, class, mark).contains(id) <==> exists|node: Node| #[trigger]
                nodes.contains(node) && node.id == id && sought(node, app_id, class, mark),
        ids_distinct(nodes) ==> sought_ids(nodes, app_id, class, mark).no_duplicates(),
    decreases nodes.len(),
{
    let all = sought_ids(nodes, app_id, class, mark);
    if nodes.len() == 0 {
        reveal(Seq::filter);
        assert(all =~= Seq::<i64>::empty());
    } else {
        let init = nodes.drop_last();
        let last = nodes.last();
        let one = seq![last];
        let before = sought_ids(init, app_id, class, mark);
        lemma_sought_ids(init, app_id, class, mark);
        assert(nodes =~= init + one);
        lemma_sought_ids_concat(init, one, app_id, class, mark);
        lemma_contains_concat(init, one);
        reveal_with_fuel(Seq::filter, 2);
        assert(one.drop_last() =~= Seq::<Node>::empty());
        let own = sought_ids(one, app_id, class, mark);
        if sought(last, app_id, class, mark) {
            assert(own =~= seq![last.id]);
        } else {
            assert(own =~= Seq::<i64>::empty());
        }
        assert(all == before + own);
        assert(one[0] == last);
        assert(one.contains(last));
        assert forall|id: i64| #[trigger] all.contains(id) <==> exists|node: Node| #[trigger]
            nodes.contains(node) && node.id == id && sought(node, app_id, class, mark) by {
            if all.contains(id) {
                let k = choose|k: int| 0 <= k < all.len() && all[k] == id;
                if k < before.len() {
                    assert(before[k] == id);
                    assert(before.contains(id));
                    let node = choose|node: Node| #[trigger]
                        init.contains(node) && node.id == id && sought(node, app_id, class, mark);
                    assert(nodes.contains(node));
                } else {
                    assert(own[k - before.len()] == id);
                    assert(nodes.contains(last));
                }
            }
            if exists|node: Node| #[trigger]
                nodes.contains(node) && node.id == id && sought(node, app_id, class, mark) {
                let node = choose|node: Node| #[trigger]
                    nodes.contains(node) && node.id == id && sought(node, app_id, class, mark);
                if init.contains(node) {
                    assert(before.contains(id));
                    let k = choose|k: int| 0 <= k < before.len() && before[k] == id;
                    assert(all[k] == id);
                } else {
                    assert(node == last);
                    assert(all[before.len() as int] == id);
                }
            }
        }
        if ids_distinct(nodes) {
            lemma_ids_distinct_concat(init, one, last.id);
            assert(one[0].id == last.id);
            if before.contains(last.id) {
                let node = choose|node: Node| #[trigger]
                    init.contains(node) && node.id == last.id && sought(node, app_id, class, mark);
                let i = choose|i: int| 0 <= i < init.len() && init[i] == node;
                assert(init[i].id == last.id);
            }
            assert forall|i: int, j: int| 0 <= i < all.len() && 0 <= j < all.len() && i
                != j implies all[i] != all[j] by {
                if i < before.len() && j < before.len() {
                    assert(before[i] != before[j]);
                } else if i < before.len() {
                    assert(before.contains(before[i]));
                } else if j < before.len() {
                    assert(before.contains(before[j]));
                }
            }
        }
    }
}

/// One window is what a search comes to exactly where one node of the tree is
/// looked for and no other is.
pub proof fn law_one_window_is_found_where_one_is_looked_for(
    tree: Node,
    app_id: Seq<char>,
    class: Seq<char>,
    mark: Seq<char>,
    id: i64,
)
    requires
        ids_distinct(preorder(tree)),
    ensures
        sought_ids(preorder(tree), app_id, class, mark) == seq![id] <==> {
            &&& exists|node: Node| #[trigger]
                preorder(tree).contains(node) && node.id == id && is_looked_for(
                    node,
                    app_id,
                    class,
                    mark,
                )
            &&& forall|node: Node| #[trigger]
                preorder(tree).contains(node) && is_looked_for(node, app_id, class, mark)
                    ==> node.id == id
        },
{
    let nodes = preorder(tree);
    let found = sought_ids(nodes, app_id, class, mark);
    law_a_search_finds_what_is_looked_for(tree, app_id, class, mark);
    if found == seq![id] {
        assert(found[0] == id);
        assert(found.contains(id));
        assert forall|node: Node| #[trigger]
            nodes.contains(node) && is_looked_for(node, app_id, class, mark) implies node.id
            == id by {
            assert(found.contains(node.id));
        }
    }
    if (exists|node: Node| #[trigger]
        nodes.contains(node) && node.id == id && is_looked_for(node, app_id, class, mark)) && (
    forall|node: Node| #[trigger]
        nodes.contains(node) && is_looked_for(node, app_id, class, mark) ==> node.id == id) {
        assert(found.contains(id));
        assert forall|i: int| 0 <= i < found.len() implies found[i] == id by {
            assert(found.contains(found[i]));
        }
        if found.len() > 1 {
            assert(found[0] != found[1]);
        }
        assert(found =~= seq![id]);
    }
}

/// What is centred in a span has the same room on both sides, but for the one
/// pixel that may be left over; that pixel is behind it where it fits in the
/// span, and in front of it where it does not.
pub proof fn law_what_is_centred_has_the_same_room_on_both_sides(
    start: int,
    length: int,
    inner: int,
)
    ensures
        ({
            let front = centred(start, length, inner) - start;
            let behind = (start + length) - (centred(start, length, inner) + inner);
            if length >= inner {
                0 <= front && front <= behind <= front + 1
            } else {
                front <= 0 && behind <= front <= behind + 1
            }
        }),
{
}

/// A window is centred in an output by its width and by its height with its
/// decoration, each along its own axis; coordinates are taken as they are.
pub proof fn law_a_position_is_where_it_says(
    position: Position,
    node: Node,
    output_rect: Option<Rect>,
)
    requires
        output_rect is Some ==> centring_fits(node, output_rect->0),
    ensures
        match position {
            Position::Coordinates { x, y } => expected_origin(position, node, output_rect) == Some(
                (x, y),
            ),
            Position::Center => match output_rect {
                None => expected_origin(position, node, output_rect) is None,
                Some(rect) => {
                    &&& expected_origin(position, node, output_rect) matches Some((x, y))
                    &&& x == centred(rect.x as int, rect.width as int, node.rect.width as int)
                    &&& y == centred(
                        rect.y as int,
                        rect.height as int,
                        node.rect.height + node.deco_rect.height,
                    )
                },
            },
        },
{
}

/// A search that does not find one window says what it looked for, and, where
/// it found several, how many and all of them.
pub proof fn law_a_search_that_fails_says_what_it_found(matches: Seq<i64>, criteria: Seq<char>)
    ensures
        matches.len() == 0 ==> matches_error(matches, criteria) == "No existing window matches "@
            + criteria,
        matches.len() > 0 ==> matches_error(matches, criteria) == text::decimal(matches.len())
            + " windows match "@ + criteria + ": "@ + text::joined(
            Seq::new(matches.len(), |i: int| text::signed_decimal(matches[i] as int)),
            ", "@,
        ) + " — retarget with --con-id"@,
{
    assert(matches.map_values(|id: i64| text::signed_decimal(id as int)) =~= Seq::new(
        matches.len(),
        |i: int| text::signed_decimal(matches[i] as int),
    ));
}

/// Nothing stands in the way of centring a window of an ordinary size in an
/// output of an ordinary size.
pub proof fn law_ordinary_windows_can_be_centred(node: Node, output_rect: Rect)
    requires
        0 <= node.rect.width <= 0x1000_0000,
        0 <= node.rect.height <= 0x1000_0000,
        0 <= node.deco_rect.height <= 0x1000_0000,
        0 <= output_rect.width <= 0x1000_0000,
        0 <= output_rect.height <= 0x1000_0000,
        -0x1000_0000 <= output_rect.x <= 0x1000_0000,
        -0x1000_0000 <= output_rect.y <= 0x1000_0000,
    ensures
        centring_fits(node, output_rect),
{
}

/// As for a whole tree, with what the nodes around it say: the innermost name in
/// the tree counts first, the name around the tree only where the container is
/// in the tree and no node of the kind is around it there.
pub proof fn law_the_name_around_a_tree_is_a_fallback(
    tree: Node,
    container_id: i64,
    kind: NodeType,
    current: Option<Seq<char>>,
)
    requires
        ids_distinct(preorder(tree)),
    ensures
        forall|node: Node| #[trigger]
            innermost(preorder(tree), container_id, kind, node) ==> containing_name(
                tree,
                container_id,
                kind,
                current,
            ) == text::opt_text(node.name),
        !has_id(preorder(tree), container_id) ==> containing_name(
            tree,
            container_id,
            kind,
            current,
        ) is None,
        has_id(preorder(tree), container_id) && !some_surrounds(
            preorder(tree),
            container_id,
            kind,
        ) ==> containing_name(tree, container_id, kind, current) == current,
{
    lemma_containing_name_is_innermost(tree, container_id, kind, current);
}

/// A node floats, and is in the scratchpad, by its own signs alone.
pub proof fn law_a_node_floats_by_its_own_signs(node: Node)
    ensures
        floats(node) <==> node.node_type is FloatingCon || (node.floating is Some && (
        node.floating->0 is UserOn || node.floating->0 is AutoOn)),
        flagged_in_scratchpad(node) <==> node.scratchpad_state is Some && (node.scratchpad_state->0
            is Fresh || node.scratchpad_state->0 is Changed),
{
    if let Some(floating) = node.floating {
        match floating {
            Floating::AutoOn => {},
            Floating::AutoOff => {},
            Floating::UserOn => {},
            Floating::UserOff => {},
        }
    }
    if let Some(state) = node.scratchpad_state {
        match state {
            ScratchpadState::Absent => {},
            ScratchpadState::Fresh => {},
            ScratchpadState::Changed => {},
        }
    }
    match node.node_type {
        NodeType::Root => {},
        NodeType::Output => {},
        NodeType::Workspace => {},
        NodeType::Con => {},
        NodeType::FloatingCon => {},
        NodeType::Dockarea => {},
    }
}

/// A window has a width with or without its borders, one on each side, and a
/// height with its decoration.
pub proof fn law_what_counts_towards_a_windows_size(node: Node, pixels: int)
    ensures
        has_width(node, pixels) <==> node.rect.width == pixels || node.rect.width
            + node.current_border_width + node.current_border_width == pixels,
        has_height(node, pixels) <==> node.rect.height + node.deco_rect.height == pixels,
{
}

/// The nodes of a tree come in one order: the root first, then the nodes of each
/// child's tree, tiling children before floating ones, each kind in its order.
pub proof fn law_the_order_in_which_a_tree_is_gone_through(node: Node)
    ensures
        preorder(node) == seq![node] + node.nodes@.map_values(
            |child: Node| preorder(child),
        ).flatten() + node.floating_nodes@.map_values(|child: Node| preorder(child)).flatten(),
{
    lemma_preorder_all_flattens(node.nodes@);
    lemma_preorder_all_flattens(node.floating_nodes@);
}

proof fn lemma_preorder_all_flattens(nodes: Seq<Node>)
    ensures
        preorder_all(nodes) == nodes.map_values(|child: Node| preorder(child)).flatten(),
    decreases nodes.len(),
{
    let trees = nodes.map_values(|child: Node| preorder(child));
    if nodes.len() == 0 {
        assert(trees =~= Seq::<Seq<Node>>::empty());
        assert(preorder_all(nodes) =~= trees.flatten());
    } else {
        let rest = nodes.drop_first();
        lemma_preorder_all_flattens(rest);
        assert(trees.drop_first() =~= rest.map_values(|child: Node| preorder(child)));
        assert(trees.first() == preorder(nodes[0]));
    }
}

/// What is found in one group of nodes and then in another comes in that order:
/// the ids that a search finds are in the order of the nodes.
pub proof fn law_a_search_keeps_the_order_of_the_nodes(
    a: Seq<Node>,
    b: Seq<Node>,
    app_id: Seq<char>,
    class: Seq<char>,
    mark: Seq<char>,
)
    ensures
        sought_ids(a + b, app_id, class, mark) == sought_ids(a, app_id, class, mark) + sought_ids(
            b,
            app_id,
            class,
            mark,
        ),
{
    lemma_sought_ids_concat(a, b, app_id, class, mark);
}

} // verus!
