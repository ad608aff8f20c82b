//! A declarative layout: steps, each of which says what one invocation of the
//! tool would say with its flags.

use crate::launch::{SwayLaunch, Target};
use crate::text;
use crate::time::Duration;
use crate::time;
use crate::values::{
    parse_position, parse_size, require_non_blank, validate_position_argument,
    validate_size_argument, validate_sway_string_argument, Position, Size, Split,
    POSITION_FORMAT_ERROR, SIZE_FORMAT_ERROR,
};
use crate::values;
use vstd::hash_map::StringHashMap;
use vstd::prelude::*;

verus! {

broadcast use vstd::string::group_string_axioms;

/// A layout: the steps in the order in which they are taken.
#[derive(Debug)]
pub struct Layout {
    pub step: Vec<LayoutStep>,
}

/// One step: which window to act on, and what to do to it.
#[derive(Debug)]
pub struct LayoutStep {
    pub command: Option<String>,
    pub con_id: Option<i64>,
    pub existing: bool,
    pub target_id: Option<String>,
    /// The name by which later steps can have this step's window as target.
    pub id: Option<String>,
    pub app_id: Option<String>,
    pub class: Option<String>,
    pub mark_match: Option<String>,
    pub split: Option<Split>,
    pub floating: bool,
    pub sticky: bool,
    pub fullscreen: bool,
    pub focus: bool,
    pub mark: Option<String>,
    pub new_column: bool,
    pub new_row: bool,
    pub workspace: Option<String>,
    pub output: Option<String>,
    pub height: Option<String>,
    pub width: Option<String>,
    pub position: Option<String>,
    pub scratchpad: bool,
    pub timeout: Option<u64>,
    pub wait_time: Option<u64>,
}

/// The containers that the named steps so far have resolved to.
pub struct ResolvedIds {
    ids: StringHashMap<i64>,
}

impl View for ResolvedIds {
    type V = Map<Seq<char>, i64>;

    closed spec fn view(&self) -> Map<Seq<char>, i64> {
        self.ids@
    }
}

impl ResolvedIds {
    /// No named step so far.
    pub fn new() -> (ids: ResolvedIds)
        ensures
            ids@ == Map::<Seq<char>, i64>::empty(),
    {
        ResolvedIds { ids: StringHashMap::new() }
    }

    /// Adds what a named step resolved to.
    pub fn insert(&mut self, id: String, container_id: i64)
        ensures
            final(self)@ == old(self)@.insert(id@, container_id),
    {
        self.ids.insert(id, container_id);
    }

    /// What a named step resolved to.
    pub fn get(&self, id: &str) -> (container_id: Option<i64>)
        ensures
            container_id == if self@.contains_key(id@) {
                Some(self@[id@])
            } else {
                None
            },
    {
        match self.ids.get(id) {
            Some(container_id) => Some(*container_id),
            None => None,
        }
    }

    /// Whether a step with a name is among those so far.
    pub fn contains_key(&self, id: &str) -> (known: bool)
        ensures
            known == self@.contains_key(id@),
    {
        self.ids.contains_key(id)
    }
}

/// Whether a field is given and blank.
pub open spec fn given_blank(value: Option<String>) -> bool {
    value matches Some(value) && text::blank(value@)
}

/// One where a condition holds, zero where it does not.
pub open spec fn count(condition: bool) -> nat {
    if condition {
        1
    } else {
        0
    }
}

/// Whether a field is given and not empty.
pub open spec fn given(value: Option<String>) -> bool {
    text::text_or_empty(text::opt_text(value)).len() > 0
}

/// What is wrong with a field that goes into a Sway command as a quoted string.
pub open spec fn string_fault(field: Seq<char>, value: Option<String>) -> Option<Seq<char>> {
    match value {
        Some(value) => if values::valid_sway_string(value@) {
            None
        } else {
            Some(field + ": "@ + values::sway_string_error(value@))
        },
        None => None,
    }
}

/// What is wrong with a field that is a size.
pub open spec fn size_fault(field: Seq<char>, value: Option<String>) -> Option<Seq<char>> {
    match value {
        Some(value) => if values::valid_size(value@) {
            None
        } else {
            Some(field + ": "@ + SIZE_FORMAT_ERROR@)
        },
        None => None,
    }
}

/// What is wrong with a field that is a position.
pub open spec fn position_fault(value: Option<String>) -> Option<Seq<char>> {
    match value {
        Some(value) => if values::valid_position(value@) {
            None
        } else {
            Some("position: "@ + POSITION_FORMAT_ERROR@)
        },
        None => None,
    }
}

/// The first of two faults.
pub open spec fn either(first: Option<Seq<char>>, second: Option<Seq<char>>) -> Option<Seq<char>> {
    match first {
        Some(fault) => Some(fault),
        None => second,
    }
}

/// The window that a step acts on, over views.
pub enum TargetView {
    Exec { command: Seq<char> },
    ConId(i64),
    Existing,
}

impl<'a> View for Target<'a> {
    type V = TargetView;

    open spec fn view(&self) -> TargetView {
        match *self {
            Target::Exec { command } => TargetView::Exec { command: command@ },
            Target::ConId(container_id) => TargetView::ConId(container_id),
            Target::Existing => TargetView::Existing,
        }
    }
}

impl LayoutStep {
    /// How many of the fields by which a window is matched are given.
    pub open spec fn match_fields(self) -> nat {
        count(given(self.app_id)) + count(given(self.class)) + count(given(self.mark_match))
    }

    /// How many of the fields that say which window to act on are given.
    pub open spec fn target_fields(self) -> nat {
        count(self.command is Some) + count(self.con_id is Some) + count(self.existing) + count(
            self.target_id is Some,
        )
    }

    /// What is wrong with this step's name and with the fields that say which
    /// window to act on, taken by themselves.
    pub open spec fn selection_fault(self) -> Option<Seq<char>> {
        if given_blank(self.id) {
            Some(values::blank_field_error("id"@))
        } else if given_blank(self.target_id) {
            Some(values::blank_field_error("target_id"@))
        } else if self.match_fields() > 1 {
            Some("step must set only one of: app_id, class, mark_match"@)
        } else if self.con_id is Some && self.match_fields() > 0 {
            Some("step must not combine con_id with app_id/class/mark_match"@)
        } else if given(self.mark_match) && !self.existing {
            Some("mark_match requires existing = true"@)
        } else if self.target_fields() > 1 {
            Some("step must set only one of: command, con_id, existing, target_id"@)
        } else {
            None
        }
    }

    /// The window that this step acts on, or why there is none.
    pub open spec fn chosen_target(self, ids: Map<Seq<char>, i64>) -> Result<
        TargetView,
        Seq<char>,
    > {
        match (self.con_id, self.target_id) {
            (Some(con_id), _) => Ok(TargetView::ConId(con_id)),
            (None, Some(target_id)) => if ids.contains_key(target_id@) {
                Ok(TargetView::ConId(ids[target_id@]))
            } else {
                Err(
                    "target_id "@ + text::debug_form(target_id@)
                        + " not found — must reference an earlier step's id"@,
                )
            },
            (None, None) => if self.existing {
                if self.match_fields() == 0 {
                    Err("existing = true requires app_id, class, or mark_match"@)
                } else {
                    Ok(TargetView::Existing)
                }
            } else {
                match self.command {
                    Some(command) => if text::blank(command@) {
                        Err("step needs one of: command, con_id, existing, target_id"@)
                    } else {
                        Ok(TargetView::Exec { command: command@ })
                    },
                    None => Err("step needs one of: command, con_id, existing, target_id"@),
                }
            },
        }
    }

    /// What is wrong with what this step says to do.
    pub open spec fn value_fault(self) -> Option<Seq<char>> {
        either(
            string_fault("mark"@, self.mark),
            either(
                string_fault("mark_match"@, self.mark_match),
                either(
                    string_fault("workspace"@, self.workspace),
                    either(
                        string_fault("output"@, self.output),
                        either(
                            size_fault("height"@, self.height),
                            either(size_fault("width"@, self.width), position_fault(self.position)),
                        ),
                    ),
                ),
            ),
        )
    }

    /// What is wrong with this step, given what the named steps before it have
    /// resolved to: the first fault in a fixed order of checks.
    pub open spec fn fault(self, ids: Map<Seq<char>, i64>) -> Option<Seq<char>> {
        match self.selection_fault() {
            Some(fault) => Some(fault),
            None => match self.chosen_target(ids) {
                Err(fault) => Some(fault),
                Ok(_) => self.value_fault(),
            },
        }
    }

    fn check_selection(&self) -> (result: Result<(), String>)
        ensures
            match result {
                Ok(()) => self.selection_fault() is None,
                Err(error) => self.selection_fault() == Some(error@),
            },
    {
        if let Some(id) = &self.id {
            require_non_blank("id", id.as_str())?;
        }
        if let Some(target_id) = &self.target_id {
            require_non_blank("target_id", target_id.as_str())?;
        }
        let by_app_id = !text::as_deref_or_empty(&self.app_id).is_empty();
        let by_class = !text::as_deref_or_empty(&self.class).is_empty();
        let by_mark = !text::as_deref_or_empty(&self.mark_match).is_empty();
        if counted(by_app_id) + counted(by_class) + counted(by_mark) > 1 {
            return Err("step must set only one of: app_id, class, mark_match".to_owned());
        }
        if self.con_id.is_some() && (by_app_id || by_class || by_mark) {
            return Err("step must not combine con_id with app_id/class/mark_match".to_owned());
        }
        if by_mark && !self.existing {
            return Err("mark_match requires existing = true".to_owned());
        }
        let fields: u8 = counted(self.command.is_some()) + counted(self.con_id.is_some()) + counted(
            self.existing,
        ) + counted(self.target_id.is_some());
        if fields > 1 {
            return Err(
                "step must set only one of: command, con_id, existing, target_id".to_owned(),
            );
        }
        Ok(())
    }

    fn choose_target<'a>(&'a self, resolved_ids: &ResolvedIds) -> (result: Result<
        Target<'a>,
        String,
    >)
        ensures
            match result {
                Ok(target) => self.chosen_target(resolved_ids@) == Ok::<TargetView, Seq<char>>(
                    target@,
                ),
                Err(error) => self.chosen_target(resolved_ids@) == Err::<TargetView, Seq<char>>(
                    error@,
                ),
            },
    {
        if let Some(con_id) = self.con_id {
            return Ok(Target::ConId(con_id));
        }
        if let Some(target_id) = &self.target_id {
            return match resolved_ids.get(target_id.as_str()) {
                Some(con_id) => Ok(Target::ConId(con_id)),
                None => Err(
                    text::concat3(
                        "target_id ",
                        text::debug_text(target_id.as_str()).as_str(),
                        " not found — must reference an earlier step's id",
                    ),
                ),
            };
        }
        if self.existing {
            if text::as_deref_or_empty(&self.app_id).is_empty() && text::as_deref_or_empty(
                &self.class,
            ).is_empty() && text::as_deref_or_empty(&self.mark_match).is_empty() {
                return Err("existing = true requires app_id, class, or mark_match".to_owned());
            }
            return Ok(Target::Existing);
        }
        if let Some(command) = &self.command {
            if !text::is_blank(command.as_str()) {
                return Ok(Target::Exec { command: command.as_str() });
            }
        }
        Err("step needs one of: command, con_id, existing, target_id".to_owned())
    }

    fn check_values(&self) -> (result: Result<(), String>)
        ensures
            match result {
                Ok(()) => self.value_fault() is None,
                Err(error) => self.value_fault() == Some(error@),
            },
    {
        check_string("mark", &self.mark)?;
        check_string("mark_match", &self.mark_match)?;
        check_string("workspace", &self.workspace)?;
        check_string("output", &self.output)?;
        check_size("height", &self.height)?;
        check_size("width", &self.width)?;
        check_position(&self.position)
    }
}

pub(crate) fn counted(condition: bool) -> (n: u8)
    ensures
        n == count(condition),
{
    if condition {
        1
    } else {
        0
    }
}

fn check_string(field: &str, value: &Option<String>) -> (result: Result<(), String>)
    ensures
        match result {
            Ok(()) => string_fault(field@, *value) is None,
            Err(error) => string_fault(field@, *value) == Some(error@),
        },
{
    match value {
        Some(value) => match validate_sway_string_argument(value.as_str()) {
            Ok(_) => Ok(()),
            Err(error) => Err(text::concat3(field, ": ", error.as_str())),
        },
        None => Ok(()),
    }
}

fn check_size(field: &str, value: &Option<String>) -> (result: Result<(), String>)
    ensures
        match result {
            Ok(()) => size_fault(field@, *value) is None,
            Err(error) => size_fault(field@, *value) == Some(error@),
        },
{
    match value {
        Some(value) => match validate_size_argument(value.as_str()) {
            Ok(_) => Ok(()),
            Err(error) => Err(text::concat3(field, ": ", error.as_str())),
        },
        None => Ok(()),
    }
}

fn check_position(value: &Option<String>) -> (result: Result<(), String>)
    ensures
        match result {
            Ok(()) => position_fault(*value) is None,
            Err(error) => position_fault(*value) == Some(error@),
        },
{
    match value {
        Some(value) => match validate_position_argument(value.as_str()) {
            Ok(_) => Ok(()),
            Err(error) => Err(text::concat("position: ", error.as_str())),
        },
        None => Ok(()),
    }
}

/// The size that a field stands for.
pub open spec fn field_size(value: Option<String>) -> Option<Size> {
    match value {
        Some(value) => values::parsed_size(value@),
        None => None,
    }
}

/// The position that a field stands for.
pub open spec fn field_position(value: Option<String>) -> Option<Position> {
    match value {
        Some(value) => values::parsed_position(value@),
        None => None,
    }
}

fn read_size(value: &Option<String>) -> (size: Option<Size>)
    requires
        *value matches Some(value) ==> values::valid_size(value@),
    ensures
        size == field_size(*value),
{
    match value {
        Some(value) => Some(parse_size(value.as_str())),
        None => None,
    }
}

fn read_position(value: &Option<String>) -> (position: Option<Position>)
    requires
        *value matches Some(value) ==> values::valid_position(value@),
    ensures
        position == field_position(*value),
{
    match value {
        Some(value) => Some(parse_position(value.as_str())),
        None => None,
    }
}

impl LayoutStep {
    /// Whether a window to act on, and what to do to it, are what this step
    /// says: its own time limit and time to wait where it has them, else the
    /// defaults.
    pub open spec fn says(
        self,
        launch: SwayLaunch,
        default_timeout: Duration,
        default_wait_time: Duration,
        verbose: bool,
        ids: Map<Seq<char>, i64>,
    ) -> bool {
        &&& self.chosen_target(ids) == Ok::<TargetView, Seq<char>>(launch.target@)
        &&& launch.app_id_match@ == text::text_or_empty(text::opt_text(self.app_id))
        &&& launch.class_match@ == text::text_or_empty(text::opt_text(self.class))
        &&& launch.mark_match@ == text::text_or_empty(text::opt_text(self.mark_match))
        &&& launch.split == self.split
        &&& launch.floating == self.floating
        &&& launch.sticky == self.sticky
        &&& launch.fullscreen == self.fullscreen
        &&& launch.focus == self.focus
        &&& launch.mark@ == text::text_or_empty(text::opt_text(self.mark))
        &&& launch.new_column == self.new_column
        &&& launch.new_row == self.new_row
        &&& text::opt_str(launch.workspace) == text::opt_text(self.workspace)
        &&& text::opt_str(launch.output) == text::opt_text(self.output)
        &&& launch.height == field_size(self.height)
        &&& launch.width == field_size(self.width)
        &&& launch.position == field_position(self.position)
        &&& launch.scratchpad == self.scratchpad
        &&& launch.timeout@ == match self.timeout {
            Some(secs) => time::secs_as_nanos(secs as nat),
            None => default_timeout@,
        }
        &&& launch.wait_time@ == match self.wait_time {
            Some(millis) => time::millis_as_nanos(millis as nat),
            None => default_wait_time@,
        }
        &&& launch.verbose == verbose
    }

    /// Converts this step: exactly one window to act on has to be chosen, and
    /// every value has to be acceptable. The containers are those that the
    /// named steps before this one have resolved to.
    pub fn to_sway_launch<'a>(
        &'a self,
        default_timeout: Duration,
        default_wait_time: Duration,
        verbose: bool,
        resolved_ids: &ResolvedIds,
    ) -> (result: Result<SwayLaunch<'a>, String>)
        ensures
            match result {
                Ok(launch) => self.fault(resolved_ids@) is None && self.says(
                    launch,
                    default_timeout,
                    default_wait_time,
                    verbose,
                    resolved_ids@,
                ),
                Err(error) => self.fault(resolved_ids@) == Some(error@),
            },
    {
        self.check_selection()?;
        let target = self.choose_target(resolved_ids)?;
        self.check_values()?;
        Ok(
            SwayLaunch {
                target,
                app_id_match: text::as_deref_or_empty(&self.app_id),
                class_match: text::as_deref_or_empty(&self.class),
                mark_match: text::as_deref_or_empty(&self.mark_match),
                split: self.split,
                floating: self.floating,
                sticky: self.sticky,
                fullscreen: self.fullscreen,
                focus: self.focus,
                mark: text::as_deref_or_empty(&self.mark),
                new_column: self.new_column,
                new_row: self.new_row,
                workspace: text::as_deref(&self.workspace),
                output: text::as_deref(&self.output),
                height: read_size(&self.height),
                width: read_size(&self.width),
                position: read_position(&self.position),
                scratchpad: self.scratchpad,
                verbose,
                timeout: match self.timeout {
                    Some(secs) => Duration::from_secs(secs),
                    None => default_timeout,
                },
                wait_time: match self.wait_time {
                    Some(millis) => Duration::from_millis(millis),
                    None => default_wait_time,
                },
            },
        )
    }
}

/// A step that converts has exactly one of the fields that say which window to
/// act on, and at most one by which a window is matched.
pub proof fn law_a_step_has_one_target(step: LayoutStep, ids: Map<Seq<char>, i64>)
    requires
        step.fault(ids) is None,
    ensures
        step.target_fields() == 1,
        step.match_fields() <= 1,
        step.chosen_target(ids) == Ok::<TargetView, Seq<char>>(TargetView::Existing)
            ==> step.match_fields() == 1,
{
}

/// What is put between quotes in a command for a step that converts stands
/// there as it was written.
pub proof fn law_a_steps_texts_are_quoted_verbatim(step: LayoutStep, ids: Map<Seq<char>, i64>)
    requires
        step.fault(ids) is None,
    ensures
        step.mark matches Some(mark) ==> crate::ipc::quoted(mark@) == seq!['"'] + mark@ + seq!['"'],
        step.workspace matches Some(workspace) ==> crate::ipc::quoted(workspace@) == seq!['"']
            + workspace@ + seq!['"'],
        step.output matches Some(output) ==> crate::ipc::quoted(output@) == seq!['"'] + output@
            + seq!['"'],
{
    if let Some(mark) = step.mark {
        crate::ipc::law_accepted_value_is_quoted_verbatim(mark@);
    }
    if let Some(workspace) = step.workspace {
        crate::ipc::law_accepted_value_is_quoted_verbatim(workspace@);
    }
    if let Some(output) = step.output {
        crate::ipc::law_accepted_value_is_quoted_verbatim(output@);
    }
}

/// A step that converts says of its window just what it says itself, field by
/// field, and takes the defaults only where it has no time limit, in seconds, or
/// time to wait, in milliseconds, of its own.
pub proof fn law_a_step_is_converted_field_by_field(
    step: LayoutStep,
    launch: SwayLaunch,
    default_timeout: Duration,
    default_wait_time: Duration,
    verbose: bool,
    ids: Map<Seq<char>, i64>,
)
    requires
        step.says(launch, default_timeout, default_wait_time, verbose, ids),
    ensures
        launch.split == step.split,
        launch.floating == step.floating,
        launch.sticky == step.sticky,
        launch.fullscreen == step.fullscreen,
        launch.focus == step.focus,
        launch.new_column == step.new_column,
        launch.new_row == step.new_row,
        launch.scratchpad == step.scratchpad,
        launch.verbose == verbose,
        step.app_id matches Some(app_id) ==> launch.app_id_match@ == app_id@,
        step.app_id is None ==> launch.app_id_match@.len() == 0,
        step.class matches Some(class) ==> launch.class_match@ == class@,
        step.class is None ==> launch.class_match@.len() == 0,
        step.mark_match matches Some(mark) ==> launch.mark_match@ == mark@,
        step.mark_match is None ==> launch.mark_match@.len() == 0,
        step.mark matches Some(mark) ==> launch.mark@ == mark@,
        step.mark is None ==> launch.mark@.len() == 0,
        launch.workspace is Some <==> step.workspace is Some,
        step.workspace matches Some(workspace) ==> launch.workspace->0@ == workspace@,
        launch.output is Some <==> step.output is Some,
        step.output matches Some(output) ==> launch.output->0@ == output@,
        step.height is None ==> launch.height is None,
        step.height matches Some(height) ==> launch.height == values::parsed_size(height@),
        step.width is None ==> launch.width is None,
        step.width matches Some(width) ==> launch.width == values::parsed_size(width@),
        step.position is None ==> launch.position is None,
        step.position matches Some(position) ==> launch.position == values::parsed_position(
            position@,
        ),
        step.timeout matches Some(secs) ==> launch.timeout@ == secs * 1_000_000_000,
        step.timeout is None ==> launch.timeout@ == default_timeout@,
        step.wait_time matches Some(millis) ==> launch.wait_time@ == millis * 1_000_000,
        step.wait_time is None ==> launch.wait_time@ == default_wait_time@,
{
}

/// A step that converts acts on the window that it names: the container with
/// the given id, the window of the earlier step with the given name, an open
/// window, or that of the whole command that it launches.
pub proof fn law_a_step_acts_on_the_window_it_names(
    step: LayoutStep,
    launch: SwayLaunch,
    default_timeout: Duration,
    default_wait_time: Duration,
    verbose: bool,
    ids: Map<Seq<char>, i64>,
)
    requires
        step.fault(ids) is None,
        step.says(launch, default_timeout, default_wait_time, verbose, ids),
    ensures
        step.con_id matches Some(con_id) ==> launch.target == Target::ConId(con_id),
        step.target_id matches Some(name) ==> ids.contains_key(name@) && launch.target
            == Target::ConId(ids[name@]),
        step.existing ==> launch.target is Existing,
        step.command matches Some(command) ==> launch.target is Exec && launch.target->command@
            == command@,
{
    match launch.target {
        Target::Exec { .. } => {},
        Target::ConId(_) => {},
        Target::Existing => {},
    }
}

/// Whether exactly one of the ways to say which window to act on is given, and
/// says it: a command is not blank, and an earlier step is known by its name.
pub open spec fn one_window_named(step: LayoutStep, ids: Map<Seq<char>, i64>) -> bool {
    ||| {
        &&& step.command is Some && step.con_id is None && !step.existing && step.target_id is None
        &&& !text::blank(step.command->0@)
    }
    ||| step.command is None && step.con_id is Some && !step.existing && step.target_id is None
    ||| step.command is None && step.con_id is None && step.existing && step.target_id is None
    ||| {
        &&& step.command is None && step.con_id is None && !step.existing && step.target_id is Some
        &&& !text::blank(step.target_id->0@)
        &&& ids.contains_key(step.target_id->0@)
    }
}

/// Whether a field is given and has something in it.
pub open spec fn filled(value: Option<String>) -> bool {
    value is Some && value->0@.len() > 0
}

/// Whether what a window is matched by goes with how it is named: at most one
/// thing, nothing for a known container, something for an open window, and a
/// mark only for an open window.
pub open spec fn match_fits(step: LayoutStep) -> bool {
    &&& !(filled(step.app_id) && filled(step.class))
    &&& !(filled(step.app_id) && filled(step.mark_match))
    &&& !(filled(step.class) && filled(step.mark_match))
    &&& step.con_id is Some ==> !filled(step.app_id) && !filled(step.class) && !filled(
        step.mark_match,
    )
    &&& step.existing ==> filled(step.app_id) || filled(step.class) || filled(step.mark_match)
    &&& filled(step.mark_match) ==> step.existing
}

/// Whether every value that a step has is one that can be used.
pub open spec fn values_fit(step: LayoutStep) -> bool {
    &&& step.mark matches Some(mark) ==> values::valid_sway_string(mark@)
    &&& step.mark_match matches Some(mark) ==> values::valid_sway_string(mark@)
    &&& step.workspace matches Some(workspace) ==> values::valid_sway_string(workspace@)
    &&& step.output matches Some(output) ==> values::valid_sway_string(output@)
    &&& step.height matches Some(height) ==> values::valid_size(height@)
    &&& step.width matches Some(width) ==> values::valid_size(width@)
    &&& step.position matches Some(position) ==> values::valid_position(position@)
}

/// A step converts exactly where it names one window, what that window is
/// matched by fits, all its values can be used, and its own name, where it has
/// one, is not blank.
pub proof fn law_a_step_converts_where_all_fits(step: LayoutStep, ids: Map<Seq<char>, i64>)
    ensures
        step.fault(ids) is None <==> one_window_named(step, ids) && match_fits(step) && values_fit(
            step,
        ) && (step.id matches Some(id) ==> !text::blank(id@)),
{
    assert(given(step.app_id) <==> filled(step.app_id));
    assert(given(step.class) <==> filled(step.class));
    assert(given(step.mark_match) <==> filled(step.mark_match));
}

/// A value that cannot be used is answered with the name of its field and what
/// is wrong with it: the first such field, in their order.
pub proof fn law_a_value_that_does_not_fit_is_named(step: LayoutStep, ids: Map<Seq<char>, i64>)
    requires
        step.selection_fault() is None,
        step.chosen_target(ids) is Ok,
    ensures
        ({
            let bad_string = |value: Option<String>| value matches Some(text)
                && !values::valid_sway_string(text@);
            let bad_size = |value: Option<String>| value matches Some(text) && !values::valid_size(
                text@,
            );
            if bad_string(step.mark) {
                step.fault(ids) == Some("mark"@ + ": "@ + values::sway_string_error(step.mark->0@))
            } else if bad_string(step.mark_match) {
                step.fault(ids) == Some(
                    "mark_match"@ + ": "@ + values::sway_string_error(step.mark_match->0@),
                )
            } else if bad_string(step.workspace) {
                step.fault(ids) == Some(
                    "workspace"@ + ": "@ + values::sway_string_error(step.workspace->0@),
                )
            } else if bad_string(step.output) {
                step.fault(ids) == Some(
                    "output"@ + ": "@ + values::sway_string_error(step.output->0@),
                )
            } else if bad_size(step.height) {
                step.fault(ids) == Some("height"@ + ": "@ + SIZE_FORMAT_ERROR@)
            } else if bad_size(step.width) {
                step.fault(ids) == Some("width"@ + ": "@ + SIZE_FORMAT_ERROR@)
            } else if step.position matches Some(position) && !values::valid_position(position@) {
                step.fault(ids) == Some("position: "@ + POSITION_FORMAT_ERROR@)
            } else {
                step.fault(ids) is None
            }
        }),
{
}

/// What a step is answered that does not say which window to act on, or says it
/// twice.
pub proof fn law_what_a_step_without_one_window_is_answered(
    step: LayoutStep,
    ids: Map<Seq<char>, i64>,
)
    requires
        step.id is None,
        !filled(step.app_id),
        !filled(step.class),
        !filled(step.mark_match),
    ensures
        step.command is None && step.con_id is None && !step.existing && step.target_id is None
            ==> step.fault(ids) == Some(
            "step needs one of: command, con_id, existing, target_id"@,
        ),
        step.existing && step.command is None && step.con_id is None && step.target_id is None
            ==> step.fault(ids) == Some(
            "existing = true requires app_id, class, or mark_match"@,
        ),
        step.target_id is None && (step.command is Some && step.con_id is Some || step.command
            is Some && step.existing || step.con_id is Some && step.existing) ==> step.fault(ids)
            == Some("step must set only one of: command, con_id, existing, target_id"@),
        step.target_id is Some && !text::blank(step.target_id->0@) && step.command is None
            && step.con_id is None && !step.existing && !ids.contains_key(step.target_id->0@)
            ==> step.fault(ids) == Some(
            "target_id "@ + text::debug_form(step.target_id->0@)
                + " not found — must reference an earlier step's id"@,
        ),
{
    assert(given(step.app_id) <==> filled(step.app_id));
    assert(given(step.class) <==> filled(step.class));
    assert(given(step.mark_match) <==> filled(step.mark_match));
}

/// What a step is answered whose matches do not go with how it names its window.
pub proof fn law_what_a_step_with_unfit_matches_is_answered(
    step: LayoutStep,
    ids: Map<Seq<char>, i64>,
)
    requires
        step.id is None,
        step.target_id is None,
    ensures
        filled(step.app_id) && filled(step.class) || filled(step.app_id) && filled(step.mark_match)
            || filled(step.class) && filled(step.mark_match) ==> step.fault(ids) == Some(
            "step must set only one of: app_id, class, mark_match"@,
        ),
        step.con_id is Some && filled(step.app_id) && !filled(step.class) && !filled(
            step.mark_match,
        ) ==> step.fault(ids) == Some(
            "step must not combine con_id with app_id/class/mark_match"@,
        ),
        step.con_id is None && filled(step.mark_match) && !filled(step.app_id) && !filled(
            step.class,
        ) && !step.existing ==> step.fault(ids) == Some("mark_match requires existing = true"@),
{
    assert(given(step.app_id) <==> filled(step.app_id));
    assert(given(step.class) <==> filled(step.class));
    assert(given(step.mark_match) <==> filled(step.mark_match));
}

/// A name that is blank is answered before anything else: the step's own first,
/// then that of its target.
pub proof fn law_what_a_step_with_a_blank_name_is_answered(
    step: LayoutStep,
    ids: Map<Seq<char>, i64>,
)
    ensures
        (step.id matches Some(id) && text::blank(id@)) ==> step.fault(ids) == Some(
            "id"@ + " must not be empty or whitespace-only"@,
        ),
        !(step.id matches Some(id) && text::blank(id@)) && (step.target_id matches Some(target)
            && text::blank(target@)) ==> step.fault(ids) == Some(
            "target_id"@ + " must not be empty or whitespace-only"@,
        ),
{
}

} // verus!
