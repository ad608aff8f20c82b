//! The actions that can be run on a window, and the commands that run them.

use crate::ipc::{directed_command, quote_sway_string};
use crate::ipc;
use crate::process_marker::PID_MARKER_VAR;
use crate::text;
use crate::time::Duration;
use crate::values::{Position, Size, Split};
use crate::values;
use vstd::prelude::*;

verus! {

broadcast use vstd::string::group_string_axioms;

/// An action. One that an event confirms has a time limit for the event; one
/// that no event confirms has a time to wait.
#[derive(Copy, Clone, Debug)]
pub enum SwayAction<'a> {
    /// Launches a command and waits for its window.
    Exec {
        command: &'a str,
        app_id_match: &'a str,
        class_match: &'a str,
        verbose: bool,
        timeout: Duration,
    },
    /// Splits the window's container.
    Split { container_id: i64, split: Split, verbose: bool, wait_time: Duration },
    /// Makes the window float.
    Floating { container_id: i64, verbose: bool, timeout: Duration },
    /// Makes the window sticky.
    Sticky { container_id: i64, verbose: bool, wait_time: Duration },
    /// Makes the window fullscreen.
    Fullscreen { container_id: i64, verbose: bool, timeout: Duration },
    /// Focuses the window.
    Focus { container_id: i64, verbose: bool, timeout: Duration },
    /// Moves the window to the right.
    NewColumn { container_id: i64, verbose: bool, wait_time: Duration },
    /// Moves the window down.
    NewRow { container_id: i64, verbose: bool, wait_time: Duration },
    /// Moves the window to a workspace.
    Workspace { container_id: i64, workspace: &'a str, verbose: bool, timeout: Duration },
    /// Moves the window to an output.
    Output { container_id: i64, output: &'a str, verbose: bool, timeout: Duration },
    /// Marks the window.
    Mark { container_id: i64, mark: &'a str, verbose: bool, timeout: Duration },
    /// Sets the window's height.
    Height { container_id: i64, height: Size, verbose: bool, wait_time: Duration },
    /// Sets the window's width.
    Width { container_id: i64, width: Size, verbose: bool, wait_time: Duration },
    /// Puts the window somewhere.
    Position { container_id: i64, position: Position, verbose: bool, wait_time: Duration },
    /// Moves the window to the scratchpad.
    Scratchpad { container_id: i64, verbose: bool, timeout: Duration },
}

/// What is shown of an action on a container.
pub open spec fn shown(label: Seq<char>, container_id: int) -> Seq<char> {
    label + text::signed_decimal(container_id) + ")"@
}

/// What is shown of an action on a container that has a value of its own.
pub open spec fn shown_with(
    label: Seq<char>,
    container_id: int,
    value_label: Seq<char>,
    value: Seq<char>,
) -> Seq<char> {
    label + text::signed_decimal(container_id) + value_label + value + ")"@
}

fn show(label: &str, container_id: i64) -> (text: String)
    ensures
        text@ == shown(label@, container_id as int),
{
    text::concat3(label, text::signed_decimal_text(container_id).as_str(), ")")
}

fn show_with(label: &str, container_id: i64, value_label: &str, value: &str) -> (text: String)
    ensures
        text@ == shown_with(label@, container_id as int, value_label@, value@),
{
    text::concat3(
        label,
        text::signed_decimal_text(container_id).as_str(),
        value_label,
    ).concat(value).concat(")")
}

impl<'a> SwayAction<'a> {
    /// This action in words.
    pub open spec fn display(self) -> Seq<char> {
        match self {
            SwayAction::Exec { command, app_id_match, class_match, .. } => "Exec \""@ + command@
                + "\" (app_id_match: \""@ + app_id_match@ + "\") (class_match: \""@ + class_match@
                + "\")"@,
            SwayAction::Split { container_id, split, .. } => shown_with(
                "Split (container id: "@,
                container_id as int,
                ") (split: "@,
                split.display(),
            ),
            SwayAction::Floating { container_id, .. } => shown(
                "Floating (container_id: "@,
                container_id as int,
            ),
            SwayAction::Sticky { container_id, .. } => shown(
                "Sticky (container_id: "@,
                container_id as int,
            ),
            SwayAction::Fullscreen { container_id, .. } => shown(
                "Fullscreen (container_id: "@,
                container_id as int,
            ),
            SwayAction::Focus { container_id, .. } => shown(
                "Focus (container_id: "@,
                container_id as int,
            ),
            SwayAction::NewColumn { container_id, .. } => shown(
                "New column (container_id: "@,
                container_id as int,
            ),
            SwayAction::NewRow { container_id, .. } => shown(
                "New row (container_id: "@,
                container_id as int,
            ),
            SwayAction::Workspace { container_id, workspace, .. } => shown_with(
                "Workspace (container id: "@,
                container_id as int,
                ") (workspace: "@,
                workspace@,
            ),
            SwayAction::Output { container_id, output, .. } => shown_with(
                "Output (container id: "@,
                container_id as int,
                ") (output: "@,
                output@,
            ),
            SwayAction::Mark { container_id, mark, .. } => shown_with(
                "Mark (container id: "@,
                container_id as int,
                ") (mark: "@,
                mark@,
            ),
            SwayAction::Height { container_id, height, .. } => shown_with(
                "Height (container id: "@,
                container_id as int,
                ") (height: "@,
                height.display(),
            ),
            SwayAction::Width { container_id, width, .. } => shown_with(
                "Width (container id: "@,
                container_id as int,
                ") (width: "@,
                width.display(),
            ),
            SwayAction::Position { container_id, position, .. } => shown_with(
                "Position (container id: "@,
                container_id as int,
                ") (position: "@,
                position.display(),
            ),
            SwayAction::Scratchpad { container_id, .. } => shown(
                "Scratchpad (container_id: "@,
                container_id as int,
            ),
        }
    }

    /// This action in words.
    pub fn to_string(&self) -> (text: String)
        ensures
            text@ == self.display(),
    {
        match self {
            SwayAction::Exec { command, app_id_match, class_match, .. } => {
                let mut text = text::concat3("Exec \"", command, "\" (app_id_match: \"");
                text.append(app_id_match);
                text.append("\") (class_match: \"");
                text.append(class_match);
                text.append("\")");
                text
            },
            SwayAction::Split { container_id, split, .. } => show_with(
                "Split (container id: ",
                *container_id,
                ") (split: ",
                split.to_string().as_str(),
            ),
            SwayAction::Floating { container_id, .. } => show("Floating (container_id: ", *container_id),
            SwayAction::Sticky { container_id, .. } => show("Sticky (container_id: ", *container_id),
            SwayAction::Fullscreen { container_id, .. } => show("Fullscreen (container_id: ", *container_id),
            SwayAction::Focus { container_id, .. } => show("Focus (container_id: ", *container_id),
            SwayAction::NewColumn { container_id, .. } => show("New column (container_id: ", *container_id),
            SwayAction::NewRow { container_id, .. } => show("New row (container_id: ", *container_id),
            SwayAction::Workspace { container_id, workspace, .. } => show_with(
                "Workspace (container id: ",
                *container_id,
                ") (workspace: ",
                workspace,
            ),
            SwayAction::Output { container_id, output, .. } => show_with(
                "Output (container id: ",
                *container_id,
                ") (output: ",
                output,
            ),
            SwayAction::Mark { container_id, mark, .. } => show_with(
                "Mark (container id: ",
                *container_id,
                ") (mark: ",
                mark,
            ),
            SwayAction::Height { container_id, height, .. } => show_with(
                "Height (container id: ",
                *container_id,
                ") (height: ",
                height.to_string().as_str(),
            ),
            SwayAction::Width { container_id, width, .. } => show_with(
                "Width (container id: ",
                *container_id,
                ") (width: ",
                width.to_string().as_str(),
            ),
            SwayAction::Position { container_id, position, .. } => show_with(
                "Position (container id: ",
                *container_id,
                ") (position: ",
                position.to_string().as_str(),
            ),
            SwayAction::Scratchpad { container_id, .. } => show("Scratchpad (container_id: ", *container_id),
        }
    }

    /// Whether this action launches a command, so that it has no window yet.
    pub open spec fn launches(self) -> bool {
        self is Exec
    }

    /// The container that this action is for.
    pub open spec fn target(self) -> Option<i64> {
        match self {
            SwayAction::Exec { .. } => None,
            SwayAction::Split { container_id, .. } => Some(container_id),
            SwayAction::Floating { container_id, .. } => Some(container_id),
            SwayAction::Sticky { container_id, .. } => Some(container_id),
            SwayAction::Fullscreen { container_id, .. } => Some(container_id),
            SwayAction::Focus { container_id, .. } => Some(container_id),
            SwayAction::NewColumn { container_id, .. } => Some(container_id),
            SwayAction::NewRow { container_id, .. } => Some(container_id),
            SwayAction::Workspace { container_id, .. } => Some(container_id),
            SwayAction::Output { container_id, .. } => Some(container_id),
            SwayAction::Mark { container_id, .. } => Some(container_id),
            SwayAction::Height { container_id, .. } => Some(container_id),
            SwayAction::Width { container_id, .. } => Some(container_id),
            SwayAction::Position { container_id, .. } => Some(container_id),
            SwayAction::Scratchpad { container_id, .. } => Some(container_id),
        }
    }

    /// The container that this action is for: none where it launches one.
    pub fn container_id(&self) -> (container_id: Option<i64>)
        ensures
            container_id == self.target(),
            container_id is None <==> self.launches(),
    {
        match self {
            SwayAction::Exec { .. } => None,
            SwayAction::Split { container_id, .. } => Some(*container_id),
            SwayAction::Floating { container_id, .. } => Some(*container_id),
            SwayAction::Sticky { container_id, .. } => Some(*container_id),
            SwayAction::Fullscreen { container_id, .. } => Some(*container_id),
            SwayAction::Focus { container_id, .. } => Some(*container_id),
            SwayAction::NewColumn { container_id, .. } => Some(*container_id),
            SwayAction::NewRow { container_id, .. } => Some(*container_id),
            SwayAction::Workspace { container_id, .. } => Some(*container_id),
            SwayAction::Output { container_id, .. } => Some(*container_id),
            SwayAction::Mark { container_id, .. } => Some(*container_id),
            SwayAction::Height { container_id, .. } => Some(*container_id),
            SwayAction::Width { container_id, .. } => Some(*container_id),
            SwayAction::Position { container_id, .. } => Some(*container_id),
            SwayAction::Scratchpad { container_id, .. } => Some(*container_id),
        }
    }

    /// Whether this action is to be commented on.
    pub open spec fn is_verbose(self) -> bool {
        match self {
            SwayAction::Exec { verbose, .. } => verbose,
            SwayAction::Split { verbose, .. } => verbose,
            SwayAction::Floating { verbose, .. } => verbose,
            SwayAction::Sticky { verbose, .. } => verbose,
            SwayAction::Fullscreen { verbose, .. } => verbose,
            SwayAction::Focus { verbose, .. } => verbose,
            SwayAction::NewColumn { verbose, .. } => verbose,
            SwayAction::NewRow { verbose, .. } => verbose,
            SwayAction::Workspace { verbose, .. } => verbose,
            SwayAction::Output { verbose, .. } => verbose,
            SwayAction::Mark { verbose, .. } => verbose,
            SwayAction::Height { verbose, .. } => verbose,
            SwayAction::Width { verbose, .. } => verbose,
            SwayAction::Position { verbose, .. } => verbose,
            SwayAction::Scratchpad { verbose, .. } => verbose,
        }
    }

    /// Whether this action is to be commented on.
    pub fn verbose(&self) -> (verbose: bool)
        ensures
            verbose == self.is_verbose(),
    {
        match self {
            SwayAction::Exec { verbose, .. } => *verbose,
            SwayAction::Split { verbose, .. } => *verbose,
            SwayAction::Floating { verbose, .. } => *verbose,
            SwayAction::Sticky { verbose, .. } => *verbose,
            SwayAction::Fullscreen { verbose, .. } => *verbose,
            SwayAction::Focus { verbose, .. } => *verbose,
            SwayAction::NewColumn { verbose, .. } => *verbose,
            SwayAction::NewRow { verbose, .. } => *verbose,
            SwayAction::Workspace { verbose, .. } => *verbose,
            SwayAction::Output { verbose, .. } => *verbose,
            SwayAction::Mark { verbose, .. } => *verbose,
            SwayAction::Height { verbose, .. } => *verbose,
            SwayAction::Width { verbose, .. } => *verbose,
            SwayAction::Position { verbose, .. } => *verbose,
            SwayAction::Scratchpad { verbose, .. } => *verbose,
        }
    }

    /// The time limit of an action that an event confirms, or the time to wait
    /// of one that no event confirms.
    pub open spec fn time(self) -> Duration {
        match self {
            SwayAction::Exec { timeout, .. } => timeout,
            SwayAction::Split { wait_time, .. } => wait_time,
            SwayAction::Floating { timeout, .. } => timeout,
            SwayAction::Sticky { wait_time, .. } => wait_time,
            SwayAction::Fullscreen { timeout, .. } => timeout,
            SwayAction::Focus { timeout, .. } => timeout,
            SwayAction::NewColumn { wait_time, .. } => wait_time,
            SwayAction::NewRow { wait_time, .. } => wait_time,
            SwayAction::Workspace { timeout, .. } => timeout,
            SwayAction::Output { timeout, .. } => timeout,
            SwayAction::Mark { timeout, .. } => timeout,
            SwayAction::Height { wait_time, .. } => wait_time,
            SwayAction::Width { wait_time, .. } => wait_time,
            SwayAction::Position { wait_time, .. } => wait_time,
            SwayAction::Scratchpad { timeout, .. } => timeout,
        }
    }

    /// The time limit of an action that an event confirms, or the time to wait
    /// of one that no event confirms.
    pub fn duration(&self) -> (duration: Duration)
        ensures
            duration == self.time(),
    {
        match self {
            SwayAction::Exec { timeout, .. } => *timeout,
            SwayAction::Split { wait_time, .. } => *wait_time,
            SwayAction::Floating { timeout, .. } => *timeout,
            SwayAction::Sticky { wait_time, .. } => *wait_time,
            SwayAction::Fullscreen { timeout, .. } => *timeout,
            SwayAction::Focus { timeout, .. } => *timeout,
            SwayAction::NewColumn { wait_time, .. } => *wait_time,
            SwayAction::NewRow { wait_time, .. } => *wait_time,
            SwayAction::Workspace { timeout, .. } => *timeout,
            SwayAction::Output { timeout, .. } => *timeout,
            SwayAction::Mark { timeout, .. } => *timeout,
            SwayAction::Height { wait_time, .. } => *wait_time,
            SwayAction::Width { wait_time, .. } => *wait_time,
            SwayAction::Position { wait_time, .. } => *wait_time,
            SwayAction::Scratchpad { timeout, .. } => *timeout,
        }
    }

    /// The command of this action without its target: for a launch, none.
    pub open spec fn verb(self) -> Seq<char> {
        match self {
            SwayAction::Exec { .. } => Seq::empty(),
            SwayAction::Split { split, .. } => match split {
                Split::V => "splitv"@,
                Split::H => "splith"@,
            },
            SwayAction::Floating { .. } => "floating enable"@,
            SwayAction::Sticky { .. } => "sticky enable"@,
            SwayAction::Fullscreen { .. } => "fullscreen enable"@,
            SwayAction::Focus { .. } => "focus"@,
            SwayAction::NewColumn { .. } => "move right"@,
            SwayAction::NewRow { .. } => "move down"@,
            SwayAction::Scratchpad { .. } => "move scratchpad"@,
            SwayAction::Mark { mark, .. } => "mark "@ + ipc::quoted(mark@),
            SwayAction::Workspace { workspace, .. } => "move workspace "@ + ipc::quoted(workspace@),
            SwayAction::Output { output, .. } => "move container to output "@ + ipc::quoted(
                output@,
            ),
            SwayAction::Height { height, .. } => "resize set height "@ + height.display(),
            SwayAction::Width { width, .. } => "resize set width "@ + width.display(),
            SwayAction::Position { position, .. } => "move position "@ + match position {
                Position::Center => "center"@,
                Position::Coordinates { x, y } => text::signed_decimal(x as int) + " "@
                    + text::signed_decimal(y as int),
            },
        }
    }

    /// The command of this action without its target.
    pub fn sway_command_verb(&self) -> (verb: String)
        requires
            !self.launches(),
        ensures
            verb@ == self.verb(),
    {
        match self {
            SwayAction::Exec { .. } => String::new(),
            SwayAction::Split { split, .. } => match split {
                Split::V => "splitv".to_owned(),
                Split::H => "splith".to_owned(),
            },
            SwayAction::Floating { .. } => "floating enable".to_owned(),
            SwayAction::Sticky { .. } => "sticky enable".to_owned(),
            SwayAction::Fullscreen { .. } => "fullscreen enable".to_owned(),
            SwayAction::Focus { .. } => "focus".to_owned(),
            SwayAction::NewColumn { .. } => "move right".to_owned(),
            SwayAction::NewRow { .. } => "move down".to_owned(),
            SwayAction::Scratchpad { .. } => "move scratchpad".to_owned(),
            SwayAction::Mark { mark, .. } => text::concat(
                "mark ",
                quote_sway_string(mark).as_str(),
            ),
            SwayAction::Workspace { workspace, .. } => text::concat(
                "move workspace ",
                quote_sway_string(workspace).as_str(),
            ),
            SwayAction::Output { output, .. } => text::concat(
                "move container to output ",
                quote_sway_string(output).as_str(),
            ),
            SwayAction::Height { height, .. } => text::concat(
                "resize set height ",
                height.to_string().as_str(),
            ),
            SwayAction::Width { width, .. } => text::concat(
                "resize set width ",
                width.to_string().as_str(),
            ),
            SwayAction::Position { position, .. } => {
                let place = match position {
                    Position::Center => "center".to_owned(),
                    Position::Coordinates { x, y } => text::concat3(
                        text::signed_decimal_text(*x as i64).as_str(),
                        " ",
                        text::signed_decimal_text(*y as i64).as_str(),
                    ),
                };
                text::concat("move position ", place.as_str())
            },
        }
    }

    /// The command of this action.
    pub open spec fn command(self) -> Seq<char> {
        match self {
            SwayAction::Exec { command, .. } => "exec "@ + command@,
            _ => ipc::directed(self.target()->0 as int, self.verb()),
        }
    }

    /// The command of this action: directed at its container, or the launch of
    /// one.
    pub fn sway_command(&self) -> (command: String)
        ensures
            command@ == self.command(),
    {
        match self {
            SwayAction::Exec { command, .. } => text::concat("exec ", command),
            _ => directed_command(
                self.container_id().unwrap(),
                self.sway_command_verb().as_str(),
            ),
        }
    }

    /// The command of a launch whose process is to carry a marker.
    pub open spec fn marked_command(self, token: Seq<char>) -> Seq<char> {
        match self {
            SwayAction::Exec { command, .. } => "exec env "@ + PID_MARKER_VAR@ + "="@ + token + " "@
                + command@,
            _ => Seq::empty(),
        }
    }

    /// The command of a launch whose process is to carry a marker in its
    /// environment. Apart from that the command is the user's own.
    pub fn exec_sway_command(&self, token: &str) -> (command: String)
        requires
            self.launches(),
        ensures
            command@ == self.marked_command(token@),
            *self matches SwayAction::Exec { command: launched, .. } ==> command@
                == "exec env SWAY_LAUNCH_PID_MARKER="@ + token@ + " "@ + launched@,
    {
        proof {
            lemma_marker_prefix();
        }
        match self {
            SwayAction::Exec { command, .. } => {
                text::concat3("exec env ", PID_MARKER_VAR, "=").concat(token).concat(" ").concat(
                    command,
                )
            },
            _ => String::new(),
        }
    }
}

/// A launch sends the user's whole command, unchanged, behind the assignment of
/// the marker: all that stands in front of it is the same for every command.
pub proof fn law_a_launch_sends_the_whole_command(
    action: SwayAction,
    token: Seq<char>,
    command: Seq<char>,
)
    requires
        action matches SwayAction::Exec { command: launched, .. } && launched@ == command,
    ensures
        action.marked_command(token) == "exec env SWAY_LAUNCH_PID_MARKER="@ + token + " "@ + command,
        action.marked_command(token).len() >= command.len(),
        action.marked_command(token).skip(action.marked_command(token).len() - command.len())
            == command,
{
    lemma_marker_prefix();
    let sent = action.marked_command(token);
    assert(sent =~= "exec env SWAY_LAUNCH_PID_MARKER="@ + token + " "@ + command);
    assert(sent.skip(sent.len() - command.len()) =~= command);
}

proof fn lemma_marker_prefix()
    ensures
        "exec env "@ + PID_MARKER_VAR@ + "="@ == "exec env SWAY_LAUNCH_PID_MARKER="@,
{
    reveal_strlit("exec env ");
    reveal_strlit("SWAY_LAUNCH_PID_MARKER");
    reveal_strlit("=");
    reveal_strlit("exec env SWAY_LAUNCH_PID_MARKER=");
}

/// An action is for the container that it was made for, is commented on where
/// that was asked for, and takes the time that it was given: the time limit
/// where an event confirms it, the time to wait where none does. Only a launch
/// has no container.
pub proof fn law_an_action_has_what_it_was_given(action: SwayAction)
    ensures
        match action {
            SwayAction::Exec { verbose, timeout, .. } => {
                &&& action.target() is None
                &&& action.is_verbose() == verbose
                &&& action.time() == timeout
            },
            SwayAction::Split { container_id, verbose, wait_time, .. } => {
                &&& action.target() == Some(container_id)
                &&& action.is_verbose() == verbose
                &&& action.time() == wait_time
            },
            SwayAction::Floating { container_id, verbose, timeout, .. } => {
                &&& action.target() == Some(container_id)
                &&& action.is_verbose() == verbose
                &&& action.time() == timeout
            },
            SwayAction::Sticky { container_id, verbose, wait_time, .. } => {
                &&& action.target() == Some(container_id)
                &&& action.is_verbose() == verbose
                &&& action.time() == wait_time
            },
            SwayAction::Fullscreen { container_id, verbose, timeout, .. } => {
                &&& action.target() == Some(container_id)
                &&& action.is_verbose() == verbose
                &&& action.time() == timeout
            },
            SwayAction::Focus { container_id, verbose, timeout, .. } => {
                &&& action.target() == Some(container_id)
                &&& action.is_verbose() == verbose
                &&& action.time() == timeout
            },
            SwayAction::NewColumn { container_id, verbose, wait_time, .. } => {
                &&& action.target() == Some(container_id)
                &&& action.is_verbose() == verbose
                &&& action.time() == wait_time
            },
            SwayAction::NewRow { container_id, verbose, wait_time, .. } => {
                &&& action.target() == Some(container_id)
                &&& action.is_verbose() == verbose
                &&& action.time() == wait_time
            },
            SwayAction::Workspace { container_id, verbose, timeout, .. } => {
                &&& action.target() == Some(container_id)
                &&& action.is_verbose() == verbose
                &&& action.time() == timeout
            },
            SwayAction::Output { container_id, verbose, timeout, .. } => {
                &&& action.target() == Some(container_id)
                &&& action.is_verbose() == verbose
                &&& action.time() == timeout
            },
            SwayAction::Mark { container_id, verbose, timeout, .. } => {
                &&& action.target() == Some(container_id)
                &&& action.is_verbose() == verbose
                &&& action.time() == timeout
            },
            SwayAction::Height { container_id, verbose, wait_time, .. } => {
                &&& action.target() == Some(container_id)
                &&& action.is_verbose() == verbose
                &&& action.time() == wait_time
            },
            SwayAction::Width { container_id, verbose, wait_time, .. } => {
                &&& action.target() == Some(container_id)
                &&& action.is_verbose() == verbose
                &&& action.time() == wait_time
            },
            SwayAction::Position { container_id, verbose, wait_time, .. } => {
                &&& action.target() == Some(container_id)
                &&& action.is_verbose() == verbose
                &&& action.time() == wait_time
            },
            SwayAction::Scratchpad { container_id, verbose, timeout, .. } => {
                &&& action.target() == Some(container_id)
                &&& action.is_verbose() == verbose
                &&& action.time() == timeout
            },
        },
{
}

/// What is sent for each action: directed at its container, its own command
/// with its own value behind it.
pub proof fn law_each_action_is_sent_as_its_own_command(action: SwayAction)
    ensures
        match action {
            SwayAction::Exec { command, .. } => action.command() == "exec "@ + command@,
            SwayAction::Split { container_id, split, .. } => action.command() == "[con_id="@
                + text::signed_decimal(container_id as int) + match split {
                Split::V => "] splitv"@,
                Split::H => "] splith"@,
            },
            SwayAction::Floating { container_id, .. } => action.command() == "[con_id="@
                + text::signed_decimal(container_id as int) + "] floating enable"@,
            SwayAction::Sticky { container_id, .. } => action.command() == "[con_id="@
                + text::signed_decimal(container_id as int) + "] sticky enable"@,
            SwayAction::Fullscreen { container_id, .. } => action.command() == "[con_id="@
                + text::signed_decimal(container_id as int) + "] fullscreen enable"@,
            SwayAction::Focus { container_id, .. } => action.command() == "[con_id="@
                + text::signed_decimal(container_id as int) + "] focus"@,
            SwayAction::NewColumn { container_id, .. } => action.command() == "[con_id="@
                + text::signed_decimal(container_id as int) + "] move right"@,
            SwayAction::NewRow { container_id, .. } => action.command() == "[con_id="@
                + text::signed_decimal(container_id as int) + "] move down"@,
            SwayAction::Scratchpad { container_id, .. } => action.command() == "[con_id="@
                + text::signed_decimal(container_id as int) + "] move scratchpad"@,
            SwayAction::Height { container_id, height, .. } => action.command() == "[con_id="@
                + text::signed_decimal(container_id as int) + "] resize set height "@ + match height {
                Size::Pixels(n) => text::signed_decimal(n as int) + "px"@,
                Size::Percent(n) => text::signed_decimal(n as int) + "ppt"@,
            },
            SwayAction::Width { container_id, width, .. } => action.command() == "[con_id="@
                + text::signed_decimal(container_id as int) + "] resize set width "@ + match width {
                Size::Pixels(n) => text::signed_decimal(n as int) + "px"@,
                Size::Percent(n) => text::signed_decimal(n as int) + "ppt"@,
            },
            SwayAction::Position { container_id, position, .. } => action.command() == "[con_id="@
                + text::signed_decimal(container_id as int) + match position {
                Position::Center => "] move position center"@,
                Position::Coordinates { x, y } => "] move position "@ + text::signed_decimal(
                    x as int,
                ) + " "@ + text::signed_decimal(y as int),
            },
            _ => true,
        },
{
    reveal_strlit("] ");
    reveal_strlit("splitv");
    reveal_strlit("splith");
    reveal_strlit("] splitv");
    reveal_strlit("] splith");
    reveal_strlit("floating enable");
    reveal_strlit("sticky enable");
    reveal_strlit("fullscreen enable");
    reveal_strlit("focus");
    reveal_strlit("move right");
    reveal_strlit("move down");
    reveal_strlit("move scratchpad");
    reveal_strlit("] floating enable");
    reveal_strlit("] sticky enable");
    reveal_strlit("] fullscreen enable");
    reveal_strlit("] focus");
    reveal_strlit("] move right");
    reveal_strlit("] move down");
    reveal_strlit("] move scratchpad");
    reveal_strlit("resize set height ");
    reveal_strlit("] resize set height ");
    reveal_strlit("resize set width ");
    reveal_strlit("] resize set width ");
    reveal_strlit("px");
    reveal_strlit("ppt");
    reveal_strlit("move position ");
    reveal_strlit("center");
    reveal_strlit("] move position center");
    reveal_strlit("] move position ");
    reveal_strlit("[con_id=");
}

/// A workspace, an output or a mark that can be stored as it is stands in the
/// command as it was written, between double quotes.
pub proof fn law_a_name_is_sent_as_it_was_written(action: SwayAction, name: Seq<char>)
    requires
        !name.contains('"'),
        !name.contains('\\'),
    ensures
        match action {
            SwayAction::Workspace { container_id, workspace, .. } => workspace@ == name
                ==> action.command() == "[con_id="@ + text::signed_decimal(container_id as int)
                + "] move workspace \""@ + name + "\""@,
            SwayAction::Output { container_id, output, .. } => output@ == name ==> action.command()
                == "[con_id="@ + text::signed_decimal(container_id as int)
                + "] move container to output \""@ + name + "\""@,
            SwayAction::Mark { container_id, mark, .. } => mark@ == name ==> action.command()
                == "[con_id="@ + text::signed_decimal(container_id as int) + "] mark \""@ + name
                + "\""@,
            _ => true,
        },
{
    ipc::law_accepted_value_is_quoted_verbatim(name);
    reveal_strlit("[con_id=");
    reveal_strlit("] ");
    reveal_strlit("\"");
    reveal_strlit("mark ");
    reveal_strlit("] mark \"");
    reveal_strlit("move workspace ");
    reveal_strlit("] move workspace \"");
    reveal_strlit("move container to output ");
    reveal_strlit("] move container to output \"");
    assert("\""@ =~= seq!['"']);
}

/// Whatever a workspace, an output or a mark is, what is sent for it ends with
/// a quoted string from which the very same name is read back.
pub proof fn law_a_sent_name_reads_back(action: SwayAction, name: Seq<char>)
    requires
        match action {
            SwayAction::Workspace { workspace, .. } => workspace@ == name,
            SwayAction::Output { output, .. } => output@ == name,
            SwayAction::Mark { mark, .. } => mark@ == name,
            _ => false,
        },
    ensures
        exists|inside: Seq<char>| #[trigger]
            ipc::unescaped(inside) == Some(name) && values::ends_with(
                action.command(),
                seq!['"'] + inside + seq!['"'],
            ),
{
    ipc::law_quoted_string_holds_the_value(name);
    let quoted = ipc::quoted(name);
    let inside = quoted.subrange(1, quoted.len() - 1);
    assert(seq!['"'] + inside + seq!['"'] =~= quoted);
    let command = action.command();
    assert(command.skip(command.len() - quoted.len()) =~= quoted);
    assert(ipc::unescaped(inside) == Some(name));
}

/// What is shown of an action names its container, and ends with the action's
/// own value where it has one.
pub proof fn law_an_action_shows_its_container_and_value(action: SwayAction)
    ensures
        match action {
            SwayAction::Exec { command, app_id_match, class_match, .. } => action.display()
                == "Exec \""@ + command@ + "\" (app_id_match: \""@ + app_id_match@
                + "\") (class_match: \""@ + class_match@ + "\")"@,
            SwayAction::Workspace { container_id, workspace, .. } => action.display()
                == "Workspace (container id: "@ + text::signed_decimal(container_id as int)
                + ") (workspace: "@ + workspace@ + ")"@,
            SwayAction::Output { container_id, output, .. } => action.display()
                == "Output (container id: "@ + text::signed_decimal(container_id as int)
                + ") (output: "@ + output@ + ")"@,
            SwayAction::Mark { container_id, mark, .. } => action.display()
                == "Mark (container id: "@ + text::signed_decimal(container_id as int)
                + ") (mark: "@ + mark@ + ")"@,
            SwayAction::Split { container_id, split, .. } => action.display()
                == "Split (container id: "@ + text::signed_decimal(container_id as int)
                + ") (split: "@ + match split {
                Split::V => "Vertical"@,
                Split::H => "Horizontal"@,
            } + ")"@,
            SwayAction::Height { container_id, height, .. } => action.display()
                == "Height (container id: "@ + text::signed_decimal(container_id as int)
                + ") (height: "@ + height.display() + ")"@,
            SwayAction::Width { container_id, width, .. } => action.display()
                == "Width (container id: "@ + text::signed_decimal(container_id as int)
                + ") (width: "@ + width.display() + ")"@,
            SwayAction::Position { container_id, position, .. } => action.display()
                == "Position (container id: "@ + text::signed_decimal(container_id as int)
                + ") (position: "@ + position.display() + ")"@,
            SwayAction::Floating { container_id, .. } => action.display()
                == "Floating (container_id: "@ + text::signed_decimal(container_id as int) + ")"@,
            SwayAction::Sticky { container_id, .. } => action.display()
                == "Sticky (container_id: "@ + text::signed_decimal(container_id as int) + ")"@,
            SwayAction::Fullscreen { container_id, .. } => action.display()
                == "Fullscreen (container_id: "@ + text::signed_decimal(container_id as int) + ")"@,
            SwayAction::Focus { container_id, .. } => action.display() == "Focus (container_id: "@
                + text::signed_decimal(container_id as int) + ")"@,
            SwayAction::NewColumn { container_id, .. } => action.display()
                == "New column (container_id: "@ + text::signed_decimal(container_id as int) + ")"@,
            SwayAction::NewRow { container_id, .. } => action.display()
                == "New row (container_id: "@ + text::signed_decimal(container_id as int) + ")"@,
            SwayAction::Scratchpad { container_id, .. } => action.display()
                == "Scratchpad (container_id: "@ + text::signed_decimal(container_id as int) + ")"@,
        },
{
}

/// Every action but a launch has a container, and is sent as its verb directed
/// at that container.
pub proof fn law_command_is_the_directed_verb(action: SwayAction)
    requires
        !action.launches(),
    ensures
        action.target() is Some,
        action.command() == ipc::directed(action.target()->0 as int, action.verb()),
{
}

} // verus!
