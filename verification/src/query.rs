//! What the compositor's answers say of a container. Each function takes the
//! replies to the requests that its question needs.

use crate::ipc::Reply;
use crate::text;
use crate::tree::{
    can_center, contains_id, expected_position, find_containing_name, find_node, find_parent_layout,
    is_at_the_trailing_workspace_edge, matching_container_ids, node_position, resolve_matches,
    ContainerState, MoveDirection, Node, NodeLayout, NodeType, Output, Rect,
};
use crate::tree;
use crate::values::Position;
use vstd::prelude::*;

verus! {

broadcast use vstd::string::group_string_axioms;

/// The search by which a window is looked for, in words.
pub open spec fn criteria(
    app_id: Seq<char>,
    class: Seq<char>,
    mark: Seq<char>,
) -> Seq<char> {
    if app_id.len() > 0 {
        "app_id \""@ + app_id + "\""@
    } else if class.len() > 0 {
        "class \""@ + class + "\""@
    } else {
        "mark \""@ + mark + "\""@
    }
}

/// Finds the one open window that matches. Finding none, or more than one, is
/// an error.
pub fn find_existing_container_id(
    tree: Reply<Node>,
    app_id_match: &str,
    class_match: &str,
    mark_match: &str,
) -> (result: Result<i64, String>)
    ensures
        match tree {
            Reply::Answer(tree) => {
                let matches = tree::sought_ids(
                    tree::preorder(tree),
                    app_id_match@,
                    class_match@,
                    mark_match@,
                );
                match result {
                    Ok(id) => matches == seq![id],
                    Err(error) => matches.len() != 1 && error@ == tree::matches_error(
                        matches,
                        criteria(app_id_match@, class_match@, mark_match@),
                    ),
                }
            },
            _ => result matches Err(error) && tree.error() == Some(error@),
        },
{
    match tree.into_result() {
        Ok(tree) => {
            let criteria = if !app_id_match.is_empty() {
                text::concat3("app_id \"", app_id_match, "\"")
            } else if !class_match.is_empty() {
                text::concat3("class \"", class_match, "\"")
            } else {
                text::concat3("mark \"", mark_match, "\"")
            };
            resolve_matches(
                matching_container_ids(&tree, app_id_match, class_match, mark_match),
                criteria.as_str(),
            )
        },
        Err(error) => Err(error),
    }
}

/// The state of a container, or `None` where it is not in the tree. A failed
/// read is an error, not an absent container.
pub fn container_state(tree: Reply<Node>, container_id: i64) -> (result: Result<
    Option<ContainerState>,
    String,
>)
    ensures
        match tree {
            Reply::Answer(tree) => match result {
                Ok(Some(state)) => tree::shows_state(tree, container_id, state),
                Ok(None) => !tree::has_id(tree::preorder(tree), container_id),
                Err(_) => false,
            },
            _ => result matches Err(error) && tree.error() == Some(error@),
        },
{
    match tree.into_result() {
        Ok(tree) => Ok(ContainerState::from_tree(&tree, container_id)),
        Err(error) => Err(error),
    }
}

/// Whether a container is in the tree. A failed read is an error.
pub fn container_exists(tree: Reply<Node>, container_id: i64) -> (result: Result<bool, String>)
    ensures
        match tree {
            Reply::Answer(tree) => result == Ok::<bool, String>(
                tree::has_id(tree::preorder(tree), container_id),
            ),
            _ => result matches Err(error) && tree.error() == Some(error@),
        },
{
    match tree.into_result() {
        Ok(tree) => Ok(contains_id(&tree, container_id)),
        Err(error) => Err(error),
    }
}

/// Whether there is more than one output.
pub open spec fn several_outputs(outputs: Reply<Vec<Output>>) -> bool {
    outputs matches Reply::Answer(outputs) && outputs.len() >= 2
}

/// Whether the tree has to be read to tell whether a move would take a window
/// to another output.
pub fn relocation_needs_tree(outputs: &Reply<Vec<Output>>) -> (needed: bool)
    ensures
        needed == several_outputs(*outputs),
{
    match outputs {
        Reply::Answer(outputs) => outputs.len() >= 2,
        _ => false,
    }
}

/// Whether moving a container in a direction would take it to another output:
/// there is one, and the container is at the trailing edge of its workspace.
/// The tree is asked for only where there is more than one output.
pub fn relocates_to_another_output(
    outputs: Reply<Vec<Output>>,
    tree: Option<Reply<Node>>,
    container_id: i64,
    direction: MoveDirection,
) -> (result: Result<bool, String>)
    requires
        several_outputs(outputs) ==> tree is Some,
    ensures
        match outputs {
            Reply::Answer(outputs) => if outputs.len() < 2 {
                result == Ok::<bool, String>(false)
            } else {
                match tree->0 {
                    Reply::Answer(tree) => result == Ok::<bool, String>(
                        tree::at_trailing_edge(tree, container_id, direction),
                    ),
                    _ => result matches Err(error) && tree->0.error() == Some(error@),
                }
            },
            _ => result matches Err(error) && outputs.error() == Some(error@),
        },
        result matches Ok(relocates) ==> (relocates <==> several_outputs(outputs) && (
        tree matches Some(Reply::Answer(tree)) && tree::at_trailing_edge(
            tree,
            container_id,
            direction,
        ))),
{
    let outputs = match outputs.into_result() {
        Ok(outputs) => outputs,
        Err(error) => {
            return Err(error);
        },
    };
    if outputs.len() < 2 {
        return Ok(false);
    }
    match tree.unwrap().into_result() {
        Ok(tree) => Ok(is_at_the_trailing_workspace_edge(&tree, container_id, direction)),
        Err(error) => Err(error),
    }
}

/// The tree, where it could be read.
pub open spec fn read_tree(tree: Reply<Node>) -> Seq<Node> {
    match tree {
        Reply::Answer(tree) => tree::preorder(tree),
        _ => Seq::empty(),
    }
}

/// The layout of the node whose child a container is. A failed read leaves it
/// unknown.
pub fn parent_node_layout(tree: &Reply<Node>, container_id: i64) -> (layout: Option<NodeLayout>)
    ensures
        layout == match tree::parent_of(read_tree(*tree), container_id) {
            Some(parent) => Some(parent.layout),
            None => None,
        },
{
    match tree {
        Reply::Answer(tree) => find_parent_layout(tree, container_id),
        _ => None,
    }
}

/// The node of a container. A failed read leaves it unknown.
pub fn node_by_id(tree: &Reply<Node>, container_id: i64) -> (node: Option<&Node>)
    ensures
        match node {
            Some(node) => tree::node_with_id(read_tree(*tree), container_id) == Some(*node),
            None => tree::node_with_id(read_tree(*tree), container_id) is None,
        },
{
    match tree {
        Reply::Answer(tree) => find_node(tree, container_id),
        _ => None,
    }
}

/// The name of the output that a container is on, where the tree could be read.
pub open spec fn output_name(tree: Reply<Node>, container_id: i64) -> Option<Seq<char>> {
    match tree {
        Reply::Answer(tree) => tree::containing_name(tree, container_id, NodeType::Output, None),
        _ => None,
    }
}

/// The node of a container and the name of the output that it is on.
pub fn node_and_output_name(tree: &Reply<Node>, container_id: i64) -> (found: Option<
    (&Node, Option<String>),
>)
    ensures
        match found {
            Some((node, name)) => tree::node_with_id(read_tree(*tree), container_id) == Some(*node)
                && text::opt_text(name) == output_name(*tree, container_id),
            None => tree::node_with_id(read_tree(*tree), container_id) is None,
        },
{
    match tree {
        Reply::Answer(tree) => match find_node(tree, container_id) {
            Some(node) => Some(
                (node, find_containing_name(tree, container_id, NodeType::Output, None)),
            ),
            None => None,
        },
        _ => None,
    }
}

/// The geometry of the first output with a name.
pub open spec fn rect_of_output(outputs: Seq<Output>, name: Seq<char>) -> Option<Rect>
    decreases outputs.len(),
{
    if outputs.len() == 0 {
        None
    } else if outputs[0].name@ == name {
        Some(outputs[0].rect)
    } else {
        rect_of_output(outputs.drop_first(), name)
    }
}

/// The outputs, where they could be read.
pub open spec fn read_outputs(outputs: Reply<Vec<Output>>) -> Seq<Output> {
    match outputs {
        Reply::Answer(outputs) => outputs@,
        _ => Seq::empty(),
    }
}

/// The geometry of the output with a name. A failed read leaves it unknown.
pub fn output_rect(outputs: &Reply<Vec<Output>>, output_name: &str) -> (rect: Option<Rect>)
    ensures
        rect == rect_of_output(read_outputs(*outputs), output_name@),
{
    match outputs {
        Reply::Answer(outputs) => find_output_rect(outputs, output_name),
        _ => None,
    }
}

fn find_output_rect(outputs: &Vec<Output>, output_name: &str) -> (rect: Option<Rect>)
    ensures
        rect == rect_of_output(outputs@, output_name@),
{
    let mut i: usize = 0;
    proof {
        assert(outputs@.skip(0) =~= outputs@);
    }
    while i < outputs.len()
        invariant
            i <= outputs.len(),
            rect_of_output(outputs@, output_name@) == rect_of_output(
                outputs@.skip(i as int),
                output_name@,
            ),
        decreases outputs.len() - i,
    {
        proof {
            assert(outputs@.skip(i as int).drop_first() =~= outputs@.skip(i + 1));
        }
        if text::same_text(outputs[i].name.as_str(), output_name) {
            return Some(outputs[i].rect);
        }
        i += 1;
    }
    None
}

/// The geometry of the output in which a container is to be centred: that of
/// the output it is on, where it and the outputs are known.
pub open spec fn centring_rect(
    tree: Reply<Node>,
    outputs: Option<Reply<Vec<Output>>>,
    container_id: i64,
) -> Option<Rect> {
    match (output_name(tree, container_id), outputs) {
        (Some(name), Some(outputs)) => rect_of_output(read_outputs(outputs), name),
        _ => None,
    }
}

/// Whether a container's frame is where it was asked to be. What cannot be
/// read cannot be confirmed.
pub open spec fn positioned(
    tree: Reply<Node>,
    outputs: Option<Reply<Vec<Output>>>,
    container_id: i64,
    position: Position,
) -> bool {
    tree::node_with_id(read_tree(tree), container_id) matches Some(node) && tree::expected_origin(
        position,
        node,
        centring_rect(tree, outputs, container_id),
    ) == Some(tree::frame_origin(node))
}

/// Whether the arithmetic behind `positioned` fits in an `i32`.
pub open spec fn position_fits(
    tree: Reply<Node>,
    outputs: Option<Reply<Vec<Output>>>,
    container_id: i64,
    position: Position,
) -> bool {
    match (
        tree::node_with_id(read_tree(tree), container_id),
        centring_rect(tree, outputs, container_id),
    ) {
        (Some(node), Some(rect)) => position == Position::Center ==> tree::centring_fits(node, rect),
        _ => true,
    }
}

fn find_centring_rect(
    output_name: &Option<String>,
    outputs: &Option<Reply<Vec<Output>>>,
) -> (rect: Option<Rect>)
    ensures
        rect == match (text::opt_text(*output_name), *outputs) {
            (Some(name), Some(outputs)) => rect_of_output(read_outputs(outputs), name),
            _ => None,
        },
{
    match (output_name, outputs) {
        (Some(name), Some(outputs)) => output_rect(outputs, name.as_str()),
        _ => None,
    }
}

/// Whether the arithmetic behind `position_matches` fits in an `i32`.
pub fn position_computable(
    tree: &Reply<Node>,
    outputs: &Option<Reply<Vec<Output>>>,
    container_id: i64,
    position: &Position,
) -> (fits: bool)
    ensures
        fits == position_fits(*tree, *outputs, container_id, *position),
{
    match node_and_output_name(tree, container_id) {
        Some((node, output_name)) => match find_centring_rect(&output_name, outputs) {
            Some(rect) => match position {
                Position::Center => can_center(node, rect),
                Position::Coordinates { .. } => true,
            },
            None => true,
        },
        None => true,
    }
}

/// Whether a container's frame is where it was asked to be. The outputs are
/// needed only to centre it.
pub fn position_matches(
    tree: &Reply<Node>,
    outputs: &Option<Reply<Vec<Output>>>,
    container_id: i64,
    position: &Position,
) -> (matched: bool)
    requires
        position_fits(*tree, *outputs, container_id, *position),
    ensures
        matched == positioned(*tree, *outputs, container_id, *position),
{
    match node_and_output_name(tree, container_id) {
        Some((node, output_name)) => {
            let rect = find_centring_rect(&output_name, outputs);
            match expected_position(position, node, rect) {
                Some((x, y)) => {
                    let (at_x, at_y): (i32, i32) = node_position(node);
                    x == at_x && y == at_y
                },
                None => false,
            }
        },
        None => false,
    }
}

/// The geometry of an output is that of the first output with its name, and is
/// not known where no output has that name.
pub proof fn law_an_outputs_place_is_that_of_the_first_with_its_name(
    outputs: Seq<Output>,
    name: Seq<char>,
    i: int,
)
    ensures
        0 <= i < outputs.len() && outputs[i].name@ == name && (forall|j: int|
            0 <= j < i ==> (#[trigger] outputs[j]).name@ != name) ==> rect_of_output(outputs, name)
            == Some(outputs[i].rect),
        (forall|j: int| 0 <= j < outputs.len() ==> (#[trigger] outputs[j]).name@ != name)
            ==> rect_of_output(outputs, name) is None,
    decreases outputs.len(),
{
    if outputs.len() > 0 {
        let rest = outputs.drop_first();
        law_an_outputs_place_is_that_of_the_first_with_its_name(rest, name, i - 1);
        assert forall|j: int| 0 <= j < rest.len() implies (#[trigger] rest[j]) == outputs[j + 1] by {}
        if 0 < i < outputs.len() && (forall|j: int|
            0 <= j < i ==> (#[trigger] outputs[j]).name@ != name) {
            assert(outputs[0].name@ != name);
            assert forall|j: int| 0 <= j < i - 1 implies (#[trigger] rest[j]).name@ != name by {
                assert(outputs[j + 1].name@ != name);
            }
        }
        if forall|j: int| 0 <= j < outputs.len() ==> (#[trigger] outputs[j]).name@ != name {
            assert(outputs[0].name@ != name);
            assert forall|j: int| 0 <= j < rest.len() implies (#[trigger] rest[j]).name@
                != name by {
                assert(outputs[j + 1].name@ != name);
            }
        }
    }
}

/// A search is named by what it goes by: the app id where one is given, else
/// the class where one is given, else the mark.
pub proof fn law_a_search_is_named_by_what_it_goes_by(
    app_id: Seq<char>,
    class: Seq<char>,
    mark: Seq<char>,
)
    ensures
        app_id.len() > 0 ==> criteria(app_id, class, mark) == "app_id \""@ + app_id + "\""@,
        app_id.len() == 0 && class.len() > 0 ==> criteria(app_id, class, mark) == "class \""@ + class
            + "\""@,
        app_id.len() == 0 && class.len() == 0 ==> criteria(app_id, class, mark) == "mark \""@ + mark
            + "\""@,
{
}

/// What was read is the whole tree and all outputs; what could not be read has
/// nothing in it, and shows no second output.
pub proof fn law_what_could_not_be_read_shows_nothing(
    tree: Reply<Node>,
    outputs: Reply<Vec<Output>>,
)
    ensures
        !(tree is Answer) ==> read_tree(tree).len() == 0,
        tree matches Reply::Answer(root) ==> read_tree(tree) == tree::preorder(root),
        !(outputs is Answer) ==> read_outputs(outputs).len() == 0 && !several_outputs(outputs),
        outputs matches Reply::Answer(all) ==> read_outputs(outputs) == all@ && (several_outputs(
            outputs,
        ) <==> all@.len() > 1),
{
}

/// Coordinates can always be compared; a centre can be where the output is not
/// known, or where the window can be centred in it.
pub proof fn law_when_a_position_can_be_compared(
    tree: Reply<Node>,
    outputs: Option<Reply<Vec<Output>>>,
    container_id: i64,
    position: Position,
)
    ensures
        position is Coordinates ==> position_fits(tree, outputs, container_id, position),
        centring_rect(tree, outputs, container_id) is None ==> position_fits(
            tree,
            outputs,
            container_id,
            position,
        ),
        (tree::node_with_id(read_tree(tree), container_id) matches Some(node) && centring_rect(
            tree,
            outputs,
            container_id,
        ) matches Some(rect) && position == Position::Center) ==> (position_fits(
            tree,
            outputs,
            container_id,
            position,
        ) <==> tree::centring_fits(
            tree::node_with_id(read_tree(tree), container_id)->0,
            centring_rect(tree, outputs, container_id)->0,
        )),
{
}

/// The output that a container is on is the innermost output node around it, by
/// its name; where the tree could not be read it is not known.
pub proof fn law_the_output_of_a_container_is_the_one_around_it(
    tree: Reply<Node>,
    container_id: i64,
    around: Node,
)
    ensures
        !(tree is Answer) ==> output_name(tree, container_id) is None,
        (tree matches Reply::Answer(root) && tree::ids_distinct(tree::preorder(root))
            && tree::innermost(tree::preorder(root), container_id, NodeType::Output, around))
            ==> output_name(tree, container_id) == text::opt_text(around.name),
{
    if let Reply::Answer(root) = tree {
        if tree::ids_distinct(tree::preorder(root)) {
            tree::law_the_innermost_name_is_found(root, container_id, NodeType::Output);
        }
    }
}

} // verus!
