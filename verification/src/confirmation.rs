//! How it is told that an action has taken effect: by an event together with
//! the container's state, or, where there is no event, by polling the tree.

use crate::action::SwayAction;
use crate::ipc::Reply;
use crate::query::{
    container_state, node_by_id, parent_node_layout, position_computable, position_matches,
};
use crate::query;
use crate::text;
use crate::time::Duration;
use crate::time;
use crate::tree::{
    height_matches, holds_mark, width_matches, window_app_id_match, window_class_match,
    ContainerState, Node, NodeLayout, Output, Rect,
};
use crate::tree;
use crate::values::{Position, Size, Split};
use vstd::prelude::*;

verus! {

broadcast use vstd::string::group_string_axioms;

/// How long the tree is polled for an action's effect at most, in
/// milliseconds.
pub const WAIT_TIME_POLL_GRACE: u64 = 200;

/// How long the tree is polled for the effect of a move at most, in
/// milliseconds. A move has no fixed target, so that any change of the window
/// counts as its effect; the shorter the look, the less is credited to it that
/// was not its doing.
pub const MOVE_POLL_GRACE: u64 = 25;

/// How long to pause between two polls, in milliseconds.
pub const WAIT_TIME_POLL_INTERVAL: u64 = 10;

/// What happened to a window.
#[derive(Copy, Clone, Debug, PartialEq, Eq, Structural)]
pub enum WindowChange {
    New,
    Close,
    Focus,
    Title,
    FullscreenMode,
    Move,
    Floating,
    Urgent,
    Mark,
}

/// Something happened to a window.
#[derive(Debug)]
pub struct WindowEvent {
    pub change: WindowChange,
    pub container: Node,
}

/// How an event matches an action.
#[derive(Copy, Clone, Debug, PartialEq, Eq, Structural)]
pub enum WindowEventMatch {
    WindowAppId,
    WindowClass,
    NewWindowMatchWithoutCheck,
    WindowContainerIdMatch,
}

/// Why an event does not match an action.
#[derive(Copy, Clone, Debug, PartialEq, Eq, Structural)]
pub enum WindowEventMatchError {
    EventChangeTypeMismatch,
    WindowAppIdMismatch,
    WindowClassMismatch,
    NoMatchingEvent,
}

impl WindowChange {
    /// The name of this change.
    pub open spec fn display(self) -> Seq<char> {
        match self {
            WindowChange::New => "New"@,
            WindowChange::Close => "Close"@,
            WindowChange::Focus => "Focus"@,
            WindowChange::Title => "Title"@,
            WindowChange::FullscreenMode => "FullscreenMode"@,
            WindowChange::Move => "Move"@,
            WindowChange::Floating => "Floating"@,
            WindowChange::Urgent => "Urgent"@,
            WindowChange::Mark => "Mark"@,
        }
    }

    /// The name of this change.
    pub fn to_string(&self) -> (text: String)
        ensures
            text@ == self.display(),
    {
        match self {
            WindowChange::New => "New".to_owned(),
            WindowChange::Close => "Close".to_owned(),
            WindowChange::Focus => "Focus".to_owned(),
            WindowChange::Title => "Title".to_owned(),
            WindowChange::FullscreenMode => "FullscreenMode".to_owned(),
            WindowChange::Move => "Move".to_owned(),
            WindowChange::Floating => "Floating".to_owned(),
            WindowChange::Urgent => "Urgent".to_owned(),
            WindowChange::Mark => "Mark".to_owned(),
        }
    }
}

/// What is told of an event: what happened to which container, and what that
/// means.
pub open spec fn event_line(
    label: Seq<char>,
    change: WindowChange,
    container_id: int,
    meaning: Seq<char>,
) -> Seq<char> {
    label + change.display() + text::around(" container id "@, container_id, " ("@) + meaning
        + ")"@
}

/// What is told of an event.
pub(crate) fn tell_event(
    label: &str,
    change: WindowChange,
    container_id: i64,
    meaning: &str,
) -> (line: String)
    ensures
        line@ == event_line(label@, change, container_id as int, meaning@),
{
    text::concat3(
        label,
        change.to_string().as_str(),
        text::around_number(" container id ", container_id, " (").as_str(),
    ).concat(meaning).concat(")")
}

impl WindowEventMatch {
    /// This match in words.
    pub open spec fn display(self) -> Seq<char> {
        match self {
            WindowEventMatch::WindowAppId => "Window app_id match"@,
            WindowEventMatch::WindowClass => "Window class match"@,
            WindowEventMatch::NewWindowMatchWithoutCheck =>
                "New window without app_id or class check"@,
            WindowEventMatch::WindowContainerIdMatch => "Window container id match"@,
        }
    }

    /// This match in words.
    pub fn to_string(&self) -> (text: String)
        ensures
            text@ == self.display(),
    {
        match self {
            WindowEventMatch::WindowAppId => "Window app_id match".to_owned(),
            WindowEventMatch::WindowClass => "Window class match".to_owned(),
            WindowEventMatch::NewWindowMatchWithoutCheck =>
                "New window without app_id or class check".to_owned(),
            WindowEventMatch::WindowContainerIdMatch => "Window container id match".to_owned(),
        }
    }
}

impl WindowEventMatchError {
    /// This mismatch in words.
    pub open spec fn display(self) -> Seq<char> {
        match self {
            WindowEventMatchError::EventChangeTypeMismatch =>
                "Event does not match action event matches"@,
            WindowEventMatchError::WindowAppIdMismatch => "app_id mismatch"@,
            WindowEventMatchError::WindowClassMismatch => "class mismatch"@,
            WindowEventMatchError::NoMatchingEvent => "No matching event"@,
        }
    }

    /// This mismatch in words.
    pub fn to_string(&self) -> (text: String)
        ensures
            text@ == self.display(),
    {
        match self {
            WindowEventMatchError::EventChangeTypeMismatch =>
                "Event does not match action event matches".to_owned(),
            WindowEventMatchError::WindowAppIdMismatch => "app_id mismatch".to_owned(),
            WindowEventMatchError::WindowClassMismatch => "class mismatch".to_owned(),
            WindowEventMatchError::NoMatchingEvent => "No matching event".to_owned(),
        }
    }
}

/// The report of a container that is gone.
pub open spec fn gone_error(container_id: int) -> Seq<char> {
    "container id "@ + text::signed_decimal(container_id)
        + " no longer exists — window may have closed"@
}

/// The report of a container that is gone.
pub fn container_gone(container_id: i64) -> (error: String)
    ensures
        error@ == gone_error(container_id as int),
{
    text::concat3(
        "container id ",
        text::signed_decimal_text(container_id).as_str(),
        " no longer exists — window may have closed",
    )
}

/// The report of a time limit that was reached, in whole seconds.
pub open spec fn timeout_error(nanos: nat) -> Seq<char> {
    text::decimal(nanos / 1_000_000_000) + " sec timeout reached"@
}

/// The report of a time limit that was reached.
pub fn timeout_reached(timeout: Duration) -> (error: String)
    ensures
        error@ == timeout_error(timeout@),
{
    text::concat(text::decimal_text(timeout.as_secs() as u128).as_str(), " sec timeout reached")
}

/// What a stream of events that ended is reported as.
pub const STREAM_CLOSED_ERROR: &'static str = "Event stream closed unexpectedly";

impl<'a> SwayAction<'a> {
    /// The change of a window that can confirm this action: none where no
    /// event does.
    pub open spec fn confirming_change(self) -> Option<WindowChange> {
        match self {
            SwayAction::Exec { .. } => Some(WindowChange::New),
            SwayAction::Floating { .. } => Some(WindowChange::Floating),
            SwayAction::Fullscreen { .. } => Some(WindowChange::FullscreenMode),
            SwayAction::Focus { .. } => Some(WindowChange::Focus),
            SwayAction::Workspace { .. } | SwayAction::Output { .. } => Some(WindowChange::Move),
            SwayAction::Mark { .. } => Some(WindowChange::Mark),
            SwayAction::Scratchpad { .. } => Some(WindowChange::Move),
            _ => None,
        }
    }

    /// The changes of a window that can confirm this action.
    pub fn matching_window_change_events(&self) -> (changes: Option<Vec<WindowChange>>)
        ensures
            match self.confirming_change() {
                Some(change) => changes matches Some(changes) && changes@ == seq![change],
                None => changes is None,
            },
    {
        match self {
            SwayAction::Exec { .. } => Some(vec![WindowChange::New]),
            SwayAction::Floating { .. } => Some(vec![WindowChange::Floating]),
            SwayAction::Fullscreen { .. } => Some(vec![WindowChange::FullscreenMode]),
            SwayAction::Focus { .. } => Some(vec![WindowChange::Focus]),
            SwayAction::Workspace { .. } | SwayAction::Output { .. } => Some(
                vec![WindowChange::Move],
            ),
            SwayAction::Mark { .. } => Some(vec![WindowChange::Mark]),
            SwayAction::Scratchpad { .. } => Some(vec![WindowChange::Move]),
            _ => None,
        }
    }

    /// Whether a state is the one that this action asks for.
    pub open spec fn wants(self, state: ContainerState) -> bool {
        match self {
            SwayAction::Workspace { workspace, .. } => text::opt_text(state.workspace) == Some(
                workspace@,
            ),
            SwayAction::Output { output, .. } => text::opt_text(state.output) == Some(output@),
            SwayAction::Floating { .. } => state.floating,
            SwayAction::Fullscreen { .. } => state.fullscreen,
            SwayAction::Focus { .. } => state.focused,
            SwayAction::Scratchpad { .. } => state.in_scratchpad,
            SwayAction::Mark { mark, .. } => tree::marked(state.marks@, mark@),
            _ => false,
        }
    }

    /// Whether a state is the one that this action asks for. A container that
    /// is not there has no state that could be.
    pub fn state_satisfies(&self, state: Option<&ContainerState>) -> (satisfied: bool)
        ensures
            satisfied == (state matches Some(state) && self.wants(*state)),
    {
        match state {
            Some(state) => match self {
                SwayAction::Workspace { workspace, .. } => match &state.workspace {
                    Some(name) => text::same_text(name.as_str(), workspace),
                    None => false,
                },
                SwayAction::Output { output, .. } => match &state.output {
                    Some(name) => text::same_text(name.as_str(), output),
                    None => false,
                },
                SwayAction::Floating { .. } => state.floating,
                SwayAction::Fullscreen { .. } => state.fullscreen,
                SwayAction::Focus { .. } => state.focused,
                SwayAction::Scratchpad { .. } => state.in_scratchpad,
                SwayAction::Mark { mark, .. } => holds_mark(&state.marks, mark),
                _ => false,
            },
            None => false,
        }
    }

    /// Whether a tree shows this action's container in the state that the
    /// action asks for.
    pub open spec fn holds_in(self, tree: Node) -> bool {
        self.target() matches Some(container_id) && tree::node_with_id(
            tree::preorder(tree),
            container_id,
        ) matches Some(node) && match self {
            SwayAction::Workspace { workspace, .. } => tree::containing_name(
                tree,
                container_id,
                tree::NodeType::Workspace,
                None,
            ) == Some(workspace@),
            SwayAction::Output { output, .. } => tree::containing_name(
                tree,
                container_id,
                tree::NodeType::Output,
                None,
            ) == Some(output@),
            SwayAction::Floating { .. } => tree::floats(node),
            SwayAction::Fullscreen { .. } => node.fullscreen_mode matches Some(mode) && mode != 0,
            SwayAction::Focus { .. } => node.focused,
            SwayAction::Scratchpad { .. } => tree::in_scratchpad(tree, container_id),
            SwayAction::Mark { mark, .. } => tree::marked(node.marks@, mark@),
            _ => false,
        }
    }

    /// Whether the tree says whether the state that this action asks for is in
    /// effect.
    pub open spec fn has_state(self) -> bool {
        self.target() is Some && self.confirming_change() is Some
    }

    /// Whether the state that this action asks for is in effect. A failed read
    /// is an error; an action without such a state needs no read.
    pub fn state_satisfied(&self, tree: Reply<Node>) -> (result: Result<bool, String>)
        ensures
            match tree {
                Reply::Answer(tree) => result == Ok::<bool, String>(self.holds_in(tree)),
                _ => if self.has_state() {
                    result matches Err(error) && tree.error() == Some(error@)
                } else {
                    result == Ok::<bool, String>(false)
                },
            },
    {
        let container_id = match self.container_id() {
            Some(container_id) => container_id,
            None => {
                return Ok(false);
            },
        };
        if self.matching_window_change_events().is_none() {
            return Ok(false);
        }
        proof {
            if tree is Answer {
                tree::lemma_first_where_finds_id(tree::preorder(tree->Answer_0), container_id);
            }
        }
        match container_state(tree, container_id) {
            Ok(state) => Ok(self.state_satisfies(state.as_ref())),
            Err(error) => Err(error),
        }
    }

    /// Whether a tree shows this action's container in the state that the
    /// action asks for.
    pub(crate) fn holds(&self, tree: &Node) -> (held: bool)
        ensures
            held == self.holds_in(*tree),
    {
        match self.container_id() {
            Some(container_id) => {
                proof {
                    tree::lemma_first_where_finds_id(tree::preorder(*tree), container_id);
                }
                self.state_satisfies(ContainerState::from_tree(tree, container_id).as_ref())
            },
            None => false,
        }
    }

    /// Whether this action is left out where the state it asks for holds
    /// already. Marking is not: an event confirms it either way.
    pub open spec fn skips_if_satisfied(self) -> bool {
        self.has_state() && !(self is Mark)
    }

    /// Whether this action is left out where the state it asks for holds
    /// already.
    pub fn may_be_satisfied(&self) -> (skips: bool)
        ensures
            skips == self.skips_if_satisfied(),
            skips == (self is Workspace || self is Output || self is Floating || self is Fullscreen
                || self is Focus || self is Scratchpad),
    {
        match self {
            SwayAction::Mark { .. } => false,
            _ => self.container_id().is_some() && self.matching_window_change_events().is_some(),
        }
    }

    /// The container of this action, where it is in the asked-for state
    /// already, so that the command would change nothing and no event would
    /// come of it.
    pub fn already_at_target(&self, tree: Reply<Node>) -> (result: Result<Option<i64>, String>)
        ensures
            if !self.skips_if_satisfied() {
                result == Ok::<Option<i64>, String>(None)
            } else {
                match tree {
                    Reply::Answer(tree) => result == Ok::<Option<i64>, String>(
                        if self.holds_in(tree) {
                            self.target()
                        } else {
                            None
                        },
                    ),
                    _ => result matches Err(error) && tree.error() == Some(error@),
                }
            },
            (self is Workspace || self is Output || self is Floating || self is Fullscreen
                || self is Focus || self is Scratchpad) && (tree matches Reply::Answer(tree)
                && self.holds_in(tree)) ==> result == Ok::<Option<i64>, String>(self.target()),
    {
        if !self.may_be_satisfied() {
            return Ok(None);
        }
        match self.state_satisfied(tree) {
            Ok(true) => Ok(self.container_id()),
            Ok(false) => Ok(None),
            Err(error) => Err(error),
        }
    }

    /// How long the tree is polled for this action's effect at most.
    pub open spec fn grace(self) -> nat {
        if self is NewColumn || self is NewRow {
            time::millis_as_nanos(MOVE_POLL_GRACE as nat)
        } else {
            time::millis_as_nanos(WAIT_TIME_POLL_GRACE as nat)
        }
    }

    /// How long the tree is polled for this action's effect at most.
    pub fn poll_grace(&self) -> (grace: Duration)
        ensures
            grace@ == self.grace(),
    {
        match self {
            SwayAction::NewColumn { .. } | SwayAction::NewRow { .. } => Duration::from_millis(
                MOVE_POLL_GRACE,
            ),
            _ => Duration::from_millis(WAIT_TIME_POLL_GRACE),
        }
    }

    /// Whether this action moves its window relative to where it is.
    pub open spec fn moves(self) -> bool {
        self is NewColumn || self is NewRow
    }

    /// Whether this action's effect can be seen in the tree. A move shows only
    /// against what was before; a percentage has no pixels to look for.
    pub open spec fn is_polled(self, baseline: Option<Rect>) -> bool {
        match self {
            SwayAction::Split { .. } | SwayAction::Sticky { .. } | SwayAction::Position { .. } => true,
            SwayAction::Height { height, .. } => height is Pixels,
            SwayAction::Width { width, .. } => width is Pixels,
            SwayAction::NewColumn { .. } | SwayAction::NewRow { .. } => baseline is Some,
            _ => false,
        }
    }

    /// Whether this action's effect can be seen in the tree.
    pub fn polls(&self, baseline: Option<Rect>) -> (polled: bool)
        ensures
            polled == self.is_polled(baseline),
    {
        match self {
            SwayAction::Split { .. } | SwayAction::Sticky { .. } | SwayAction::Position { .. } => true,
            SwayAction::Height { height, .. } => match height {
                Size::Pixels(_) => true,
                Size::Percent(_) => false,
            },
            SwayAction::Width { width, .. } => match width {
                Size::Pixels(_) => true,
                Size::Percent(_) => false,
            },
            SwayAction::NewColumn { .. } | SwayAction::NewRow { .. } => baseline.is_some(),
            _ => false,
        }
    }

    /// Whether the tree shows this action's effect. What cannot be read is not
    /// shown.
    pub open spec fn visible_in(
        self,
        tree: Reply<Node>,
        outputs: Option<Reply<Vec<Output>>>,
        container_id: i64,
        baseline: Option<Rect>,
    ) -> bool {
        let node = tree::node_with_id(query::read_tree(tree), container_id);
        match self {
            SwayAction::Split { split, .. } => tree::parent_of(
                query::read_tree(tree),
                container_id,
            ) matches Some(parent) && parent.layout == match split {
                Split::V => NodeLayout::SplitV,
                Split::H => NodeLayout::SplitH,
            },
            SwayAction::Height { height, .. } => node matches Some(node)
                && height matches Size::Pixels(pixels) && tree::has_height(node, pixels as int),
            SwayAction::Width { width, .. } => node matches Some(node)
                && width matches Size::Pixels(pixels) && tree::has_width(node, pixels as int),
            SwayAction::Position { position, .. } => query::positioned(
                tree,
                outputs,
                container_id,
                position,
            ),
            SwayAction::Sticky { .. } => node matches Some(node) && node.sticky,
            SwayAction::NewColumn { .. } | SwayAction::NewRow { .. } => node matches Some(node)
                && baseline matches Some(baseline) && node.rect != baseline,
            _ => false,
        }
    }

    /// Whether the arithmetic behind `visible_in` fits in an `i32`.
    pub open spec fn poll_fits(
        self,
        tree: Reply<Node>,
        outputs: Option<Reply<Vec<Output>>>,
        container_id: i64,
    ) -> bool {
        self matches SwayAction::Position { position, .. } ==> query::position_fits(
            tree,
            outputs,
            container_id,
            position,
        )
    }

    /// Whether the arithmetic behind `poll_matches` fits in an `i32`.
    pub fn poll_computable(
        &self,
        tree: &Reply<Node>,
        outputs: &Option<Reply<Vec<Output>>>,
        container_id: i64,
    ) -> (fits: bool)
        ensures
            fits == self.poll_fits(*tree, *outputs, container_id),
    {
        match self {
            SwayAction::Position { position, .. } => position_computable(
                tree,
                outputs,
                container_id,
                position,
            ),
            _ => true,
        }
    }

    /// Whether this action's effect shows in the outputs as well as the tree.
    pub open spec fn reads_outputs(self) -> bool {
        self matches SwayAction::Position { position, .. } && position == Position::Center
    }

    /// Whether this action's effect shows in the outputs as well as the tree.
    pub fn polls_outputs(&self) -> (read: bool)
        ensures
            read == self.reads_outputs(),
    {
        match self {
            SwayAction::Position { position, .. } => match position {
                Position::Center => true,
                Position::Coordinates { .. } => false,
            },
            _ => false,
        }
    }

    /// Whether the tree shows this action's effect.
    pub fn poll_matches(
        &self,
        tree: &Reply<Node>,
        outputs: &Option<Reply<Vec<Output>>>,
        container_id: i64,
        baseline: Option<Rect>,
    ) -> (matched: bool)
        requires
            self.poll_fits(*tree, *outputs, container_id),
        ensures
            matched == self.visible_in(*tree, *outputs, container_id, baseline),
    {
        match self {
            SwayAction::Split { split, .. } => {
                let expected = match split {
                    Split::V => NodeLayout::SplitV,
                    Split::H => NodeLayout::SplitH,
                };
                match parent_node_layout(tree, container_id) {
                    Some(layout) => layout == expected,
                    None => false,
                }
            },
            SwayAction::Height { height, .. } => match (node_by_id(tree, container_id), height) {
                (Some(node), Size::Pixels(pixels)) => height_matches(node, *pixels),
                _ => false,
            },
            SwayAction::Width { width, .. } => match (node_by_id(tree, container_id), width) {
                (Some(node), Size::Pixels(pixels)) => width_matches(node, *pixels),
                _ => false,
            },
            SwayAction::Position { position, .. } => position_matches(
                tree,
                outputs,
                container_id,
                position,
            ),
            SwayAction::Sticky { .. } => match node_by_id(tree, container_id) {
                Some(node) => node.sticky,
                None => false,
            },
            SwayAction::NewColumn { .. } | SwayAction::NewRow { .. } => match (
                node_by_id(tree, container_id),
                baseline,
            ) {
                (Some(node), Some(baseline)) => node.rect != baseline,
                _ => false,
            },
            _ => false,
        }
    }

    /// What this action's effect is to be told from: for a move, where the
    /// window is before it.
    pub open spec fn baseline_in(self, tree: Reply<Node>, container_id: i64) -> Option<Rect> {
        if self.moves() {
            match tree::node_with_id(query::read_tree(tree), container_id) {
                Some(node) => Some(node.rect),
                None => None,
            }
        } else {
            None
        }
    }

    /// Whether this action's effect is to be told from what was before.
    pub fn needs_baseline(&self) -> (needed: bool)
        ensures
            needed == self.moves(),
    {
        match self {
            SwayAction::NewColumn { .. } | SwayAction::NewRow { .. } => true,
            _ => false,
        }
    }

    /// What this action's effect is to be told from.
    pub fn poll_baseline(&self, tree: &Reply<Node>, container_id: i64) -> (baseline: Option<Rect>)
        ensures
            baseline == self.baseline_in(*tree, container_id),
    {
        match self {
            SwayAction::NewColumn { .. } | SwayAction::NewRow { .. } => match node_by_id(
                tree,
                container_id,
            ) {
                Some(node) => Some(node.rect),
                None => None,
            },
            _ => None,
        }
    }

    /// How an event matches this action, or why it does not.
    pub open spec fn event_match(self, window: WindowEvent) -> Result<
        WindowEventMatch,
        WindowEventMatchError,
    > {
        if self.confirming_change() != Some(window.change) {
            Err(WindowEventMatchError::EventChangeTypeMismatch)
        } else {
            match self {
                SwayAction::Exec { app_id_match, class_match, .. } => if app_id_match@.len() > 0 {
                    if tree::has_app_id(window.container, app_id_match@) {
                        Ok(WindowEventMatch::WindowAppId)
                    } else {
                        Err(WindowEventMatchError::WindowAppIdMismatch)
                    }
                } else if class_match@.len() > 0 {
                    if tree::has_class(window.container, class_match@) {
                        Ok(WindowEventMatch::WindowClass)
                    } else {
                        Err(WindowEventMatchError::WindowClassMismatch)
                    }
                } else {
                    Ok(WindowEventMatch::NewWindowMatchWithoutCheck)
                },
                _ => if self.target() == Some(window.container.id) {
                    Ok(WindowEventMatch::WindowContainerIdMatch)
                } else {
                    Err(WindowEventMatchError::NoMatchingEvent)
                },
            }
        }
    }

    /// How an event matches this action, or why it does not: by what happened,
    /// and then by the window's app id or class for a launch, by the container
    /// for any other action.
    pub fn matches_window_event(&self, window: &WindowEvent) -> (result: Result<
        WindowEventMatch,
        WindowEventMatchError,
    >)
        requires
            self.confirming_change() is Some,
        ensures
            result == self.event_match(*window),
    {
        let changes = self.matching_window_change_events().unwrap();
        if changes[0] != window.change {
            return Err(WindowEventMatchError::EventChangeTypeMismatch);
        }
        match self {
            SwayAction::Exec { app_id_match, class_match, .. } => {
                if !app_id_match.is_empty() {
                    return if window_app_id_match(&window.container, app_id_match) {
                        Ok(WindowEventMatch::WindowAppId)
                    } else {
                        Err(WindowEventMatchError::WindowAppIdMismatch)
                    };
                }
                if !class_match.is_empty() {
                    return if window_class_match(&window.container, class_match) {
                        Ok(WindowEventMatch::WindowClass)
                    } else {
                        Err(WindowEventMatchError::WindowClassMismatch)
                    };
                }
                Ok(WindowEventMatch::NewWindowMatchWithoutCheck)
            },
            _ => {
                if self.container_id().unwrap() == window.container.id {
                    Ok(WindowEventMatch::WindowContainerIdMatch)
                } else {
                    Err(WindowEventMatchError::NoMatchingEvent)
                }
            },
        }
    }
}

/// No action is confirmed both by an event and by polling the tree.
pub proof fn law_an_action_is_confirmed_in_one_way(action: SwayAction, baseline: Option<Rect>)
    ensures
        !(action.confirming_change() is Some && action.is_polled(baseline)),
{
}

/// A container that is not in the tree is in no state that an action asks for.
pub proof fn law_a_closed_window_satisfies_nothing(action: SwayAction, tree: Node)
    requires
        action.target() matches Some(container_id) && !tree::has_id(
            tree::preorder(tree),
            container_id,
        ),
    ensures
        !action.holds_in(tree),
{
    tree::lemma_first_where_finds_id(tree::preorder(tree), action.target()->0);
}

/// Nothing is seen of an action in a tree that could not be read.
pub proof fn law_an_unreadable_tree_confirms_nothing(
    action: SwayAction,
    tree: Reply<Node>,
    outputs: Option<Reply<Vec<Output>>>,
    container_id: i64,
    baseline: Option<Rect>,
)
    requires
        !(tree is Answer),
    ensures
        !action.visible_in(tree, outputs, container_id, baseline),
{
}

/// A move is looked for during a shorter time than any other action.
pub proof fn law_moves_are_polled_for_a_shorter_time(a: SwayAction, b: SwayAction)
    requires
        a.moves(),
        !b.moves(),
    ensures
        a.grace() < b.grace(),
{
}

/// Each action that an event confirms waits for its own event: moving to a
/// workspace, to an output or to the scratchpad for a move. No event confirms
/// the others.
pub proof fn law_each_action_waits_for_its_own_event(action: SwayAction)
    ensures
        action.confirming_change() == Some(WindowChange::New) <==> action is Exec,
        action.confirming_change() == Some(WindowChange::Floating) <==> action is Floating,
        action.confirming_change() == Some(WindowChange::FullscreenMode) <==> action is Fullscreen,
        action.confirming_change() == Some(WindowChange::Focus) <==> action is Focus,
        action.confirming_change() == Some(WindowChange::Mark) <==> action is Mark,
        action.confirming_change() == Some(WindowChange::Move) <==> action is Workspace
            || action is Output || action is Scratchpad,
        action.confirming_change() is None <==> action is Split || action is Sticky
            || action is NewColumn || action is NewRow || action is Height || action is Width
            || action is Position,
{
}

/// Every action that an event confirms is left out where its state holds
/// already, but for a launch, which has no window yet, and a mark, for which an
/// event comes either way.
pub proof fn law_what_holds_already_is_left_out(action: SwayAction)
    ensures
        action is Workspace ==> action.skips_if_satisfied(),
        action is Output ==> action.skips_if_satisfied(),
        action is Floating ==> action.skips_if_satisfied(),
        action is Fullscreen ==> action.skips_if_satisfied(),
        action is Focus ==> action.skips_if_satisfied(),
        action is Scratchpad ==> action.skips_if_satisfied(),
        action.skips_if_satisfied() ==> action.has_state(),
        action is Mark ==> !action.skips_if_satisfied() && action.has_state(),
        action is Exec ==> !action.skips_if_satisfied() && !action.has_state(),
        action.confirming_change() is None ==> !action.skips_if_satisfied() && !action.has_state(),
{
}

/// Whether a node is the innermost workspace around a container and is that of
/// the scratchpad.
pub open spec fn in_scratchpad_workspace(tree: Node, container_id: i64, workspace: Node) -> bool {
    tree::innermost(tree::preorder(tree), container_id, tree::NodeType::Workspace, workspace)
        && workspace.name is Some && workspace.name->0@ == "__i3_scratch"@
}

/// What the state that an action asks for is, read off the container's own node
/// and the nodes around it, in a tree whose ids are distinct: it is on the
/// workspace or the output of that name, it floats, it is fullscreen, it has
/// the focus, it has the mark, or it is in the scratchpad. An action without
/// such a state has none in any tree.
pub proof fn law_the_state_that_an_action_asks_for(action: SwayAction, tree: Node, node: Node)
    requires
        tree::ids_distinct(tree::preorder(tree)),
        tree::preorder(tree).contains(node),
        action.target() == Some(node.id),
    ensures
        match action {
            SwayAction::Workspace { workspace, .. } => {
                &&& forall|around: Node| #[trigger]
                    tree::innermost(
                        tree::preorder(tree),
                        node.id,
                        tree::NodeType::Workspace,
                        around,
                    ) ==> (action.holds_in(tree) <==> around.name is Some && around.name->0@
                        == workspace@)
                &&& !tree::some_surrounds(
                    tree::preorder(tree),
                    node.id,
                    tree::NodeType::Workspace,
                ) ==> !action.holds_in(tree)
            },
            SwayAction::Output { output, .. } => {
                &&& forall|around: Node| #[trigger]
                    tree::innermost(
                        tree::preorder(tree),
                        node.id,
                        tree::NodeType::Output,
                        around,
                    ) ==> (action.holds_in(tree) <==> around.name is Some && around.name->0@
                        == output@)
                &&& !tree::some_surrounds(
                    tree::preorder(tree),
                    node.id,
                    tree::NodeType::Output,
                ) ==> !action.holds_in(tree)
            },
            SwayAction::Floating { .. } => action.holds_in(tree) <==> node.node_type
                == tree::NodeType::FloatingCon || node.floating == Some(tree::Floating::UserOn)
                || node.floating == Some(tree::Floating::AutoOn),
            SwayAction::Fullscreen { .. } => action.holds_in(tree) <==> node.fullscreen_mode is Some
                && node.fullscreen_mode->0 != 0,
            SwayAction::Focus { .. } => action.holds_in(tree) <==> node.focused,
            SwayAction::Mark { mark, .. } => action.holds_in(tree) <==> exists|i: int|
                0 <= i < node.marks@.len() && (#[trigger] node.marks@[i])@ == mark@,
            SwayAction::Scratchpad { .. } => action.holds_in(tree) <==> {
                ||| node.scratchpad_state == Some(tree::ScratchpadState::Fresh)
                ||| node.scratchpad_state == Some(tree::ScratchpadState::Changed)
                ||| exists|around: Node| #[trigger] in_scratchpad_workspace(tree, node.id, around)
            },
            _ => !action.holds_in(tree),
        },
{
    tree::law_a_node_is_found_by_its_id(tree, node.id);
    tree::law_the_innermost_name_is_found(tree, node.id, tree::NodeType::Workspace);
    tree::law_the_innermost_name_is_found(tree, node.id, tree::NodeType::Output);
    assert(tree::node_with_id(tree::preorder(tree), node.id) == Some(node));
    if let SwayAction::Scratchpad { .. } = action {
        let all = tree::preorder(tree);
        let kind = tree::NodeType::Workspace;
        assert(tree::SCRATCHPAD_WORKSPACE@ == "__i3_scratch"@);
        assert(tree::flagged_in_scratchpad(node) <==> node.scratchpad_state == Some(
            tree::ScratchpadState::Fresh,
        ) || node.scratchpad_state == Some(tree::ScratchpadState::Changed)) by {
            if let Some(state) = node.scratchpad_state {
                match state {
                    tree::ScratchpadState::Absent => {},
                    tree::ScratchpadState::Fresh => {},
                    tree::ScratchpadState::Changed => {},
                }
            }
        }
        assert(action.holds_in(tree) <==> tree::in_scratchpad(tree, node.id));
        if exists|around: Node| #[trigger] in_scratchpad_workspace(tree, node.id, around) {
            let around = choose|around: Node| #[trigger]
                in_scratchpad_workspace(tree, node.id, around);
            assert(tree::innermost(all, node.id, kind, around));
        }
        if tree::containing_name(tree, node.id, kind, None) == Some("__i3_scratch"@) {
            let around = choose|around: Node| #[trigger]
                tree::innermost(all, node.id, kind, around);
            assert(in_scratchpad_workspace(tree, node.id, around));
        }
    }
}

/// Whether a state satisfies an action does not depend on whether it was read
/// off a tree first: what a tree shows of a container satisfies the action
/// exactly where the asked-for state holds in the tree.
pub proof fn law_a_state_satisfies_as_its_tree_does(
    action: SwayAction,
    tree: Node,
    state: ContainerState,
)
    requires
        action.target() is Some,
        tree::shows_state(tree, action.target()->0, state),
    ensures
        action.wants(state) <==> action.holds_in(tree),
{
}

/// What is looked for after each command that no event confirms, read off the
/// container's own node and its parent, in a tree whose ids are distinct: a
/// split shows in the layout of the parent, a size in the window's own size,
/// being sticky in its flag, and a move in any change of where the window is.
pub proof fn law_the_effect_that_is_looked_for(
    action: SwayAction,
    tree: Node,
    outputs: Option<Reply<Vec<Output>>>,
    node: Node,
    baseline: Option<Rect>,
)
    requires
        tree::ids_distinct(tree::preorder(tree)),
        tree::preorder(tree).contains(node),
    ensures
        ({
            let seen = action.visible_in(Reply::Answer(tree), outputs, node.id, baseline);
            match action {
                SwayAction::Split { split, .. } => {
                    &&& forall|parent: Node| #[trigger]
                        tree::preorder(tree).contains(parent) && tree::is_child(parent, node) ==> (
                        seen <==> {
                            ||| split == Split::V && parent.layout == NodeLayout::SplitV
                            ||| split == Split::H && parent.layout == NodeLayout::SplitH
                        })
                },
                SwayAction::Sticky { .. } => seen <==> node.sticky,
                SwayAction::Height { height, .. } => seen <==> match height {
                    Size::Pixels(n) => node.rect.height + node.deco_rect.height == n,
                    Size::Percent(_) => false,
                },
                SwayAction::Width { width, .. } => seen <==> match width {
                    Size::Pixels(n) => node.rect.width == n || node.rect.width
                        + node.current_border_width + node.current_border_width == n,
                    Size::Percent(_) => false,
                },
                SwayAction::NewColumn { .. } | SwayAction::NewRow { .. } => seen <==> baseline
                    is Some && (node.rect.x != baseline->0.x || node.rect.y != baseline->0.y
                    || node.rect.width != baseline->0.width || node.rect.height
                    != baseline->0.height),
                SwayAction::Position { position: Position::Coordinates { x, y }, .. } => seen <==> {
                    if node.deco_rect.width == 0 && node.deco_rect.height == 0 {
                        node.rect.x == x && node.rect.y == y
                    } else {
                        node.deco_rect.x == x && node.deco_rect.y == y
                    }
                },
                SwayAction::Position { position: Position::Center, .. } => true,
                _ => !seen,
            }
        }),
{
    tree::law_a_node_is_found_by_its_id(tree, node.id);
    if let SwayAction::Split { .. } = action {
        assert forall|parent: Node| #[trigger]
            tree::preorder(tree).contains(parent) && tree::is_child(parent, node) implies
            tree::parent_of(tree::preorder(tree), node.id) == Some(parent) by {
            tree::law_the_parent_is_found(tree, parent, node);
        }
    }
}

/// A window that was to be centred is seen to be where its frame has the same
/// room on both sides, along both axes, in the output that it is on: that of
/// its innermost output node, by its name. Where that output is not known, it
/// is not seen.
pub proof fn law_a_centred_window_is_seen_in_the_middle_of_its_output(
    action: SwayAction,
    tree: Node,
    outputs: Vec<Output>,
    node: Node,
    around: Node,
    baseline: Option<Rect>,
)
    requires
        action matches SwayAction::Position { position, .. } && position == Position::Center,
        tree::ids_distinct(tree::preorder(tree)),
        tree::preorder(tree).contains(node),
        tree::innermost(tree::preorder(tree), node.id, tree::NodeType::Output, around),
    ensures
        ({
            let seen = action.visible_in(
                Reply::Answer(tree),
                Some(Reply::Answer(outputs)),
                node.id,
                baseline,
            );
            let at = tree::frame_origin(node);
            forall|i: int|
                #![trigger outputs@[i]]
                0 <= i < outputs@.len() && around.name is Some && outputs@[i].name@
                    == around.name->0@ && (forall|j: int|
                    0 <= j < i ==> (#[trigger] outputs@[j]).name@ != around.name->0@)
                    && tree::centring_fits(node, outputs@[i].rect) ==> (seen <==> {
                    &&& at.0 == tree::centred(
                        outputs@[i].rect.x as int,
                        outputs@[i].rect.width as int,
                        node.rect.width as int,
                    )
                    &&& at.1 == tree::centred(
                        outputs@[i].rect.y as int,
                        outputs@[i].rect.height as int,
                        node.rect.height + node.deco_rect.height,
                    )
                })
        }),
        around.name is None ==> !action.visible_in(
            Reply::Answer(tree),
            Some(Reply::Answer(outputs)),
            node.id,
            baseline,
        ),
        !action.visible_in(Reply::Answer(tree), None, node.id, baseline),
{
    tree::law_a_node_is_found_by_its_id(tree, node.id);
    tree::law_the_innermost_name_is_found(tree, node.id, tree::NodeType::Output);
    assert forall|i: int|
        #![trigger outputs@[i]]
        0 <= i < outputs@.len() && around.name is Some && outputs@[i].name@ == around.name->0@ && (
        forall|j: int| 0 <= j < i ==> (#[trigger] outputs@[j]).name@ != around.name->0@) implies
        query::rect_of_output(outputs@, around.name->0@) == Some(outputs@[i].rect) by {
        query::law_an_outputs_place_is_that_of_the_first_with_its_name(
            outputs@,
            around.name->0@,
            i,
        );
    }
}

/// A frame starts at the window's decoration, or at its contents where it has
/// none; and a window is where it was put exactly where its frame starts there.
pub proof fn law_a_frame_starts_at_the_decoration(node: Node)
    ensures
        node.deco_rect.width == 0 && node.deco_rect.height == 0 ==> tree::frame_origin(node) == (
            node.rect.x,
            node.rect.y,
        ),
        node.deco_rect.width != 0 || node.deco_rect.height != 0 ==> tree::frame_origin(node) == (
            node.deco_rect.x,
            node.deco_rect.y,
        ),
{
}

/// Which effects can be looked for at all: a size only where it is in pixels, a
/// move only where it is known where the window was.
pub proof fn law_which_effects_are_looked_for(action: SwayAction, baseline: Option<Rect>)
    ensures
        action is Split || action is Sticky || action is Position ==> action.is_polled(baseline),
        action matches SwayAction::Height { height, .. } ==> (action.is_polled(baseline)
            <==> height is Pixels),
        action matches SwayAction::Width { width, .. } ==> (action.is_polled(baseline)
            <==> width is Pixels),
        action is NewColumn || action is NewRow ==> (action.is_polled(baseline) <==> baseline
            is Some),
        action.confirming_change() is Some ==> !action.is_polled(baseline),
        action.reads_outputs() <==> (action matches SwayAction::Position { position, .. }
            && position == Position::Center),
{
}

/// What a move is told from is where its window is in the tree; nothing else is
/// told from what was before.
pub proof fn law_a_move_is_told_from_where_the_window_was(
    action: SwayAction,
    tree: Node,
    node: Node,
)
    requires
        tree::ids_distinct(tree::preorder(tree)),
        tree::preorder(tree).contains(node),
    ensures
        action.moves() <==> action is NewColumn || action is NewRow,
        action.baseline_in(Reply::Answer(tree), node.id) == if action is NewColumn
            || action is NewRow {
            Some(node.rect)
        } else {
            None
        },
{
    tree::law_a_node_is_found_by_its_id(tree, node.id);
}

/// A move is looked for during 25 milliseconds, everything else during 200.
pub proof fn law_how_long_an_effect_is_looked_for(action: SwayAction)
    ensures
        action.grace() == if action is NewColumn || action is NewRow {
            25_000_000nat
        } else {
            200_000_000nat
        },
{
}

/// An event matches an action other than a launch exactly where it is the event
/// that confirms the action and is of the action's own container.
pub proof fn law_an_event_matches_by_its_kind_and_container(
    action: SwayAction,
    window: WindowEvent,
)
    requires
        !(action is Exec),
    ensures
        action.event_match(window) is Ok <==> action.confirming_change() == Some(window.change)
            && action.target() == Some(window.container.id),
        action.event_match(window) matches Ok(way) ==> way
            == WindowEventMatch::WindowContainerIdMatch,
        action.confirming_change() != Some(window.change) ==> action.event_match(window) == Err::<
            WindowEventMatch,
            WindowEventMatchError,
        >(WindowEventMatchError::EventChangeTypeMismatch),
        action.confirming_change() == Some(window.change) && action.target() != Some(
            window.container.id,
        ) ==> action.event_match(window) == Err::<WindowEventMatch, WindowEventMatchError>(
            WindowEventMatchError::NoMatchingEvent,
        ),
{
}

/// An event matches a launch exactly where it is of a new window that has the
/// app id, where one is asked for, or else the class, where one is asked for.
pub proof fn law_an_event_matches_a_launch_by_app_id_or_class(
    action: SwayAction,
    app_id: Seq<char>,
    class: Seq<char>,
    window: WindowEvent,
)
    requires
        action matches SwayAction::Exec { app_id_match, class_match, .. } && app_id_match@
            == app_id && class_match@ == class,
    ensures
        window.change != WindowChange::New ==> action.event_match(window) == Err::<
            WindowEventMatch,
            WindowEventMatchError,
        >(WindowEventMatchError::EventChangeTypeMismatch),
        window.change == WindowChange::New ==> (action.event_match(window) is Ok <==> {
            ||| app_id.len() > 0 && window.container.app_id is Some
                && window.container.app_id->0@ == app_id
            ||| app_id.len() == 0 && class.len() > 0 && window.container.window_properties is Some
                && window.container.window_properties->0.class is Some
                && window.container.window_properties->0.class->0@ == class
            ||| app_id.len() == 0 && class.len() == 0
        }),
        action.event_match(window) matches Ok(way) ==> way == if app_id.len() > 0 {
            WindowEventMatch::WindowAppId
        } else if class.len() > 0 {
            WindowEventMatch::WindowClass
        } else {
            WindowEventMatch::NewWindowMatchWithoutCheck
        },
        window.change == WindowChange::New && action.event_match(window) is Err
            ==> action.event_match(window)->Err_0 == if app_id.len() > 0 {
            WindowEventMatchError::WindowAppIdMismatch
        } else {
            WindowEventMatchError::WindowClassMismatch
        },
{
}

/// A time limit is reported in whole seconds, whatever is beyond them, and a
/// container that is gone by its id.
pub proof fn law_what_is_reported_of_a_failure(secs: nat, nanos: nat, container_id: int)
    requires
        nanos < 1_000_000_000,
    ensures
        timeout_error(secs * 1_000_000_000 + nanos) == text::decimal(secs)
            + " sec timeout reached"@,
        gone_error(container_id) == "container id "@ + text::signed_decimal(container_id)
            + " no longer exists — window may have closed"@,
{
    assert((secs * 1_000_000_000 + nanos) / 1_000_000_000 == secs) by (nonlinear_arith)
        requires
            nanos < 1_000_000_000,
    ;
}

/// The names of what happens to a window, and the words for how an event
/// matches and why it does not.
pub proof fn law_events_have_their_own_names()
    ensures
        WindowChange::New.display() == "New"@,
        WindowChange::Close.display() == "Close"@,
        WindowChange::Focus.display() == "Focus"@,
        WindowChange::Title.display() == "Title"@,
        WindowChange::FullscreenMode.display() == "FullscreenMode"@,
        WindowChange::Move.display() == "Move"@,
        WindowChange::Floating.display() == "Floating"@,
        WindowChange::Urgent.display() == "Urgent"@,
        WindowChange::Mark.display() == "Mark"@,
        WindowEventMatch::WindowAppId.display() == "Window app_id match"@,
        WindowEventMatch::WindowClass.display() == "Window class match"@,
        WindowEventMatch::NewWindowMatchWithoutCheck.display()
            == "New window without app_id or class check"@,
        WindowEventMatch::WindowContainerIdMatch.display() == "Window container id match"@,
        WindowEventMatchError::EventChangeTypeMismatch.display()
            == "Event does not match action event matches"@,
        WindowEventMatchError::WindowAppIdMismatch.display() == "app_id mismatch"@,
        WindowEventMatchError::WindowClassMismatch.display() == "class mismatch"@,
        WindowEventMatchError::NoMatchingEvent.display() == "No matching event"@,
{
}

/// A window that is not in the tree shows no effect of any action, and gives
/// nothing to tell a move from.
pub proof fn law_a_window_that_is_gone_shows_no_effect(
    action: SwayAction,
    tree: Node,
    outputs: Option<Reply<Vec<Output>>>,
    container_id: i64,
    baseline: Option<Rect>,
)
    requires
        forall|node: Node| #[trigger]
            tree::preorder(tree).contains(node) ==> node.id != container_id,
    ensures
        !action.visible_in(Reply::Answer(tree), outputs, container_id, baseline),
        action.baseline_in(Reply::Answer(tree), container_id) is None,
{
    tree::law_a_node_is_found_by_its_id(tree, container_id);
    tree::law_a_found_parent_has_the_child(tree, container_id);
    if let Some(parent) = tree::parent_of(tree::preorder(tree), container_id) {
        let child = choose|child: Node| #[trigger]
            tree::is_child(parent, child) && child.id == container_id;
        tree::law_the_whole_tree_is_gone_through(tree);
        assert(tree::preorder(tree).contains(child));
    }
}

} // verus!
