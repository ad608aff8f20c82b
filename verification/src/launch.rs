//! A window to act on, and the plan of what to do to it.

use crate::action::SwayAction;
use crate::time::Duration;
use crate::values::{Position, Size, Split};
use vstd::prelude::*;

verus! {

broadcast use vstd::string::group_string_axioms;

/// The window to act on: that of a command to launch, one with a known
/// container id, or an open one that matches.
#[derive(Copy, Clone, Debug)]
pub enum Target<'a> {
    Exec { command: &'a str },
    ConId(i64),
    Existing,
}

/// A window to act on, and what to do to it.
#[derive(Copy, Clone, Debug)]
pub struct SwayLaunch<'a> {
    pub target: Target<'a>,
    pub app_id_match: &'a str,
    pub class_match: &'a str,
    pub mark_match: &'a str,
    pub split: Option<Split>,
    pub floating: bool,
    pub sticky: bool,
    pub fullscreen: bool,
    pub focus: bool,
    pub mark: &'a str,
    pub new_column: bool,
    pub new_row: bool,
    pub workspace: Option<&'a str>,
    pub output: Option<&'a str>,
    pub height: Option<Size>,
    pub width: Option<Size>,
    pub position: Option<Position>,
    pub scratchpad: bool,
    pub verbose: bool,
    pub timeout: Duration,
    pub wait_time: Duration,
}

/// An action that is to run, or one that is left out.
#[derive(Copy, Clone, Debug)]
pub enum PlannedAction<'a> {
    Run(SwayAction<'a>),
    Skip(SkippedAction),
}

/// An action that is left out: its flag, and why.
#[derive(Copy, Clone, Debug, PartialEq, Eq)]
pub struct SkippedAction {
    pub action: &'static str,
    pub reason: &'static str,
}

/// One action, or none.
pub open spec fn when(condition: bool, action: SwayAction) -> Seq<SwayAction> {
    if condition {
        seq![action]
    } else {
        Seq::empty()
    }
}

/// The actions that there are, in order.
pub open spec fn present<'a>(wanted: Seq<Option<SwayAction<'a>>>) -> Seq<SwayAction<'a>>
    decreases wanted.len(),
{
    if wanted.len() == 0 {
        Seq::empty()
    } else {
        match wanted.last() {
            Some(action) => present(wanted.drop_last()).push(action),
            None => present(wanted.drop_last()),
        }
    }
}

/// One planned action, or none.
pub open spec fn planned_when(condition: bool, planned: PlannedAction) -> Seq<PlannedAction> {
    if condition {
        seq![planned]
    } else {
        Seq::empty()
    }
}

/// Actions that are all to run.
pub open spec fn all_run<'a>(actions: Seq<SwayAction<'a>>) -> Seq<PlannedAction<'a>> {
    actions.map_values(|action: SwayAction<'a>| PlannedAction::Run(action))
}

impl<'a> SwayLaunch<'a> {
    /// Moving the window to the right.
    pub open spec fn column_action(self, container_id: i64) -> SwayAction<'a> {
        SwayAction::NewColumn { container_id, verbose: self.verbose, wait_time: self.wait_time }
    }

    /// Moving the window down.
    pub open spec fn row_action(self, container_id: i64) -> SwayAction<'a> {
        SwayAction::NewRow { container_id, verbose: self.verbose, wait_time: self.wait_time }
    }

    /// Moving the window to its workspace, where one is given.
    pub open spec fn wanted_workspace(self, container_id: i64) -> Option<SwayAction<'a>> {
        match self.workspace {
            Some(workspace) => Some(
                SwayAction::Workspace { container_id, workspace, verbose: self.verbose, timeout: self.timeout },
            ),
            None => None,
        }
    }

    fn workspace_action(&self, container_id: i64) -> (action: Option<SwayAction<'a>>)
        ensures
            action == self.wanted_workspace(container_id),
    {
        match self.workspace {
            Some(workspace) => Some(
                SwayAction::Workspace { container_id, workspace, verbose: self.verbose, timeout: self.timeout },
            ),
            None => None,
        }
    }

    /// Moving the window to its output, where one is given.
    pub open spec fn wanted_output(self, container_id: i64) -> Option<SwayAction<'a>> {
        match self.output {
            Some(output) => Some(
                SwayAction::Output { container_id, output, verbose: self.verbose, timeout: self.timeout },
            ),
            None => None,
        }
    }

    fn output_action(&self, container_id: i64) -> (action: Option<SwayAction<'a>>)
        ensures
            action == self.wanted_output(container_id),
    {
        match self.output {
            Some(output) => Some(
                SwayAction::Output { container_id, output, verbose: self.verbose, timeout: self.timeout },
            ),
            None => None,
        }
    }

    /// Splitting the window's container, where a direction is given.
    pub open spec fn wanted_split(self, container_id: i64) -> Option<SwayAction<'a>> {
        match self.split {
            Some(split) => Some(
                SwayAction::Split { container_id, split, verbose: self.verbose, wait_time: self.wait_time },
            ),
            None => None,
        }
    }

    fn split_action(&self, container_id: i64) -> (action: Option<SwayAction<'a>>)
        ensures
            action == self.wanted_split(container_id),
    {
        match self.split {
            Some(split) => Some(
                SwayAction::Split { container_id, split, verbose: self.verbose, wait_time: self.wait_time },
            ),
            None => None,
        }
    }

    /// Making the window float, where asked for.
    pub open spec fn wanted_floating(self, container_id: i64) -> Option<SwayAction<'a>> {
        if self.floating {
            Some(SwayAction::Floating { container_id, verbose: self.verbose, timeout: self.timeout })
        } else {
            None
        }
    }

    fn floating_action(&self, container_id: i64) -> (action: Option<SwayAction<'a>>)
        ensures
            action == self.wanted_floating(container_id),
    {
        if self.floating {
            Some(SwayAction::Floating { container_id, verbose: self.verbose, timeout: self.timeout })
        } else {
            None
        }
    }

    /// Making the window sticky, where asked for.
    pub open spec fn wanted_sticky(self, container_id: i64) -> Option<SwayAction<'a>> {
        if self.sticky {
            Some(SwayAction::Sticky { container_id, verbose: self.verbose, wait_time: self.wait_time })
        } else {
            None
        }
    }

    fn sticky_action(&self, container_id: i64) -> (action: Option<SwayAction<'a>>)
        ensures
            action == self.wanted_sticky(container_id),
    {
        if self.sticky {
            Some(SwayAction::Sticky { container_id, verbose: self.verbose, wait_time: self.wait_time })
        } else {
            None
        }
    }

    /// Making the window fullscreen, where asked for.
    pub open spec fn wanted_fullscreen(self, container_id: i64) -> Option<SwayAction<'a>> {
        if self.fullscreen {
            Some(SwayAction::Fullscreen { container_id, verbose: self.verbose, timeout: self.timeout })
        } else {
            None
        }
    }

    fn fullscreen_action(&self, container_id: i64) -> (action: Option<SwayAction<'a>>)
        ensures
            action == self.wanted_fullscreen(container_id),
    {
        if self.fullscreen {
            Some(SwayAction::Fullscreen { container_id, verbose: self.verbose, timeout: self.timeout })
        } else {
            None
        }
    }

    /// Focusing the window, where asked for.
    pub open spec fn wanted_focus(self, container_id: i64) -> Option<SwayAction<'a>> {
        if self.focus {
            Some(SwayAction::Focus { container_id, verbose: self.verbose, timeout: self.timeout })
        } else {
            None
        }
    }

    fn focus_action(&self, container_id: i64) -> (action: Option<SwayAction<'a>>)
        ensures
            action == self.wanted_focus(container_id),
    {
        if self.focus {
            Some(SwayAction::Focus { container_id, verbose: self.verbose, timeout: self.timeout })
        } else {
            None
        }
    }

    /// Setting the window's height, where one is given.
    pub open spec fn wanted_height(self, container_id: i64) -> Option<SwayAction<'a>> {
        match self.height {
            Some(height) => Some(
                SwayAction::Height { container_id, height, verbose: self.verbose, wait_time: self.wait_time },
            ),
            None => None,
        }
    }

    fn height_action(&self, container_id: i64) -> (action: Option<SwayAction<'a>>)
        ensures
            action == self.wanted_height(container_id),
    {
        match self.height {
            Some(height) => Some(
                SwayAction::Height { container_id, height, verbose: self.verbose, wait_time: self.wait_time },
            ),
            None => None,
        }
    }

    /// Setting the window's width, where one is given.
    pub open spec fn wanted_width(self, container_id: i64) -> Option<SwayAction<'a>> {
        match self.width {
            Some(width) => Some(
                SwayAction::Width { container_id, width, verbose: self.verbose, wait_time: self.wait_time },
            ),
            None => None,
        }
    }

    fn width_action(&self, container_id: i64) -> (action: Option<SwayAction<'a>>)
        ensures
            action == self.wanted_width(container_id),
    {
        match self.width {
            Some(width) => Some(
                SwayAction::Width { container_id, width, verbose: self.verbose, wait_time: self.wait_time },
            ),
            None => None,
        }
    }

    /// Putting the window somewhere, where a position is given.
    pub open spec fn wanted_position(self, container_id: i64) -> Option<SwayAction<'a>> {
        match self.position {
            Some(position) => Some(
                SwayAction::Position { container_id, position, verbose: self.verbose, wait_time: self.wait_time },
            ),
            None => None,
        }
    }

    fn position_action(&self, container_id: i64) -> (action: Option<SwayAction<'a>>)
        ensures
            action == self.wanted_position(container_id),
    {
        match self.position {
            Some(position) => Some(
                SwayAction::Position { container_id, position, verbose: self.verbose, wait_time: self.wait_time },
            ),
            None => None,
        }
    }

    /// Marking the window, where a mark is given.
    pub open spec fn wanted_mark(self, container_id: i64) -> Option<SwayAction<'a>> {
        if self.mark@.len() > 0 {
            Some(SwayAction::Mark { container_id, mark: self.mark, verbose: self.verbose, timeout: self.timeout })
        } else {
            None
        }
    }

    fn mark_action(&self, container_id: i64) -> (action: Option<SwayAction<'a>>)
        ensures
            action == self.wanted_mark(container_id),
    {
        if !self.mark.is_empty() {
            Some(SwayAction::Mark { container_id, mark: self.mark, verbose: self.verbose, timeout: self.timeout })
        } else {
            None
        }
    }

    /// Moving the window to the scratchpad, where asked for.
    pub open spec fn wanted_scratchpad(self, container_id: i64) -> Option<SwayAction<'a>> {
        if self.scratchpad {
            Some(SwayAction::Scratchpad { container_id, verbose: self.verbose, timeout: self.timeout })
        } else {
            None
        }
    }

    fn scratchpad_action(&self, container_id: i64) -> (action: Option<SwayAction<'a>>)
        ensures
            action == self.wanted_scratchpad(container_id),
    {
        if self.scratchpad {
            Some(SwayAction::Scratchpad { container_id, verbose: self.verbose, timeout: self.timeout })
        } else {
            None
        }
    }

    /// All actions but the moves, in their fixed order, each where it is
    /// wanted.
    pub open spec fn wanted(self, container_id: i64) -> Seq<Option<SwayAction<'a>>> {
        seq![
            self.wanted_workspace(container_id),
            self.wanted_output(container_id),
            self.wanted_split(container_id),
            self.wanted_floating(container_id),
            self.wanted_sticky(container_id),
            self.wanted_fullscreen(container_id),
            self.wanted_focus(container_id),
            self.wanted_height(container_id),
            self.wanted_width(container_id),
            self.wanted_position(container_id),
            self.wanted_mark(container_id),
            self.wanted_scratchpad(container_id),
        ]
    }

    /// All wanted actions but the moves, in their fixed order.
    pub open spec fn settled_actions(self, container_id: i64) -> Seq<SwayAction<'a>> {
        present(self.wanted(container_id))
    }

    /// All actions, in their fixed order.
    pub open spec fn actions(self, container_id: i64) -> Seq<SwayAction<'a>> {
        when(self.new_column, self.column_action(container_id)) + when(
            self.new_row,
            self.row_action(container_id),
        ) + self.settled_actions(container_id)
    }

    /// The plan: all actions in their fixed order, with a move left out where
    /// it would take the window to another output.
    pub open spec fn plan(self, container_id: i64, skip_column: bool, skip_row: bool) -> Seq<
        PlannedAction<'a>,
    > {
        planned_when(
            self.new_column,
            if skip_column {
                PlannedAction::Skip(
                    SkippedAction { action: "new_column", reason: "trailing_workspace_edge" },
                )
            } else {
                PlannedAction::Run(self.column_action(container_id))
            },
        ) + planned_when(
            self.new_row,
            if skip_row {
                PlannedAction::Skip(
                    SkippedAction { action: "new_row", reason: "trailing_workspace_edge" },
                )
            } else {
                PlannedAction::Run(self.row_action(container_id))
            },
        ) + all_run(self.settled_actions(container_id))
    }

    fn build_settled_actions(&self, container_id: i64) -> (actions: Vec<SwayAction<'a>>)
        ensures
            actions@ == self.settled_actions(container_id),
    {
        let wanted: Vec<Option<SwayAction<'a>>> = vec![
            self.workspace_action(container_id),
            self.output_action(container_id),
            self.split_action(container_id),
            self.floating_action(container_id),
            self.sticky_action(container_id),
            self.fullscreen_action(container_id),
            self.focus_action(container_id),
            self.height_action(container_id),
            self.width_action(container_id),
            self.position_action(container_id),
            self.mark_action(container_id),
            self.scratchpad_action(container_id),
        ];
        let mut actions: Vec<SwayAction<'a>> = Vec::new();
        let mut i: usize = 0;
        proof {
            assert(wanted@ =~= self.wanted(container_id));
            assert(present(wanted@.take(0)) =~= Seq::<SwayAction<'a>>::empty());
        }
        while i < wanted.len()
            invariant
                i <= wanted.len(),
                actions@ == present(wanted@.take(i as int)),
            decreases wanted.len() - i,
        {
            assert(wanted@.take(i + 1).drop_last() =~= wanted@.take(i as int));
            if let Some(action) = wanted[i] {
                actions.push(action);
            }
            i += 1;
        }
        assert(wanted@.take(i as int) =~= wanted@);
        actions
    }

    /// Builds the plan for a container. The two results say whether moving the
    /// window to the right and moving it down would take it to another output.
    /// They count only where the check is wanted and the move is; where a check
    /// that counts failed, there is no plan.
    pub fn build_actions(
        &self,
        container_id: i64,
        check_relocation: bool,
        column_relocates: &Result<bool, String>,
        row_relocates: &Result<bool, String>,
    ) -> (result: Result<Vec<PlannedAction<'a>>, String>)
        ensures
            ({
                let column_checked = check_relocation && self.new_column;
                let row_checked = check_relocation && self.new_row;
                match result {
                    Ok(plan) => {
                        &&& column_checked ==> column_relocates is Ok
                        &&& row_checked ==> row_relocates is Ok
                        &&& plan@ == self.plan(
                            container_id,
                            column_checked && column_relocates->Ok_0,
                            row_checked && row_relocates->Ok_0,
                        )
                    },
                    Err(error) => if column_checked && column_relocates is Err {
                        error@ == column_relocates->Err_0@
                    } else {
                        row_checked && row_relocates is Err && error@ == row_relocates->Err_0@
                    },
                }
            }),
    {
        let mut plan: Vec<PlannedAction<'a>> = Vec::new();
        let mut skip_column = false;
        if check_relocation && self.new_column {
            match column_relocates {
                Ok(relocates) => {
                    skip_column = *relocates;
                },
                Err(error) => {
                    return Err(error.clone());
                },
            }
        }
        if self.new_column {
            if skip_column {
                plan.push(
                    PlannedAction::Skip(
                        SkippedAction { action: "new_column", reason: "trailing_workspace_edge" },
                    ),
                );
            } else {
                plan.push(
                    PlannedAction::Run(
                        SwayAction::NewColumn {
                            container_id,
                            verbose: self.verbose,
                            wait_time: self.wait_time,
                        },
                    ),
                );
            }
        }
        let ghost column = plan@;
        let mut skip_row = false;
        if check_relocation && self.new_row {
            match row_relocates {
                Ok(relocates) => {
                    skip_row = *relocates;
                },
                Err(error) => {
                    return Err(error.clone());
                },
            }
        }
        if self.new_row {
            if skip_row {
                plan.push(
                    PlannedAction::Skip(
                        SkippedAction { action: "new_row", reason: "trailing_workspace_edge" },
                    ),
                );
            } else {
                plan.push(
                    PlannedAction::Run(
                        SwayAction::NewRow {
                            container_id,
                            verbose: self.verbose,
                            wait_time: self.wait_time,
                        },
                    ),
                );
            }
        }
        let ghost moves = plan@;
        let settled = self.build_settled_actions(container_id);
        let mut i: usize = 0;
        proof {
            assert(moves =~= moves + all_run(settled@.take(0)));
        }
        while i < settled.len()
            invariant
                i <= settled.len(),
                plan@ == moves + all_run(settled@.take(i as int)),
            decreases settled.len() - i,
        {
            plan.push(PlannedAction::Run(settled[i]));
            proof {
                assert(all_run(settled@.take(i + 1)) =~= all_run(settled@.take(i as int)).push(
                    PlannedAction::Run(settled@[i as int]),
                ));
                assert(plan@ =~= moves + all_run(settled@.take(i + 1)));
            }
            i += 1;
        }
        proof {
            assert(settled@.take(i as int) =~= settled@);
            assert(plan@ =~= self.plan(container_id, skip_column, skip_row));
            assert(!(check_relocation && self.new_column) ==> self.plan(
                container_id,
                skip_column,
                skip_row,
            ) =~= self.plan(container_id, false, skip_row));
        }
        Ok(plan)
    }

    /// All actions that the plan would run, without a container and without
    /// asking anything: what a preview shows.
    pub fn build_actions_for_preview(&self) -> (actions: Vec<SwayAction<'a>>)
        ensures
            actions@ == self.actions(0),
    {
        let unchecked: Result<bool, String> = Ok(false);
        let plan = match self.build_actions(0, false, &unchecked, &unchecked) {
            Ok(plan) => plan,
            Err(_) => Vec::new(),
        };
        proof {
            assert(plan@ =~= all_run(self.actions(0)));
        }
        let mut actions: Vec<SwayAction<'a>> = Vec::new();
        let mut i: usize = 0;
        while i < plan.len()
            invariant
                i <= plan.len(),
                plan@ == all_run(self.actions(0)),
                actions@ == self.actions(0).take(i as int),
            decreases plan.len() - i,
        {
            match plan[i] {
                PlannedAction::Run(action) => {
                    assert(plan@[i as int] == PlannedAction::Run(self.actions(0)[i as int]));
                    actions.push(action);
                },
                PlannedAction::Skip(_) => {},
            }
            i += 1;
        }
        assert(self.actions(0).take(i as int) =~= self.actions(0));
        actions
    }
}

/// Whether two sequences hold actions with the same verbs in the same order.
pub open spec fn same_verbs(a: Seq<SwayAction>, b: Seq<SwayAction>) -> bool {
    &&& a.len() == b.len()
    &&& forall|i: int|
        0 <= i < a.len() ==> (#[trigger] a[i]).verb() == b[i].verb() && !a[i].launches()
            && !b[i].launches()
}

proof fn lemma_same_verbs_concat(
    a: Seq<SwayAction>,
    b: Seq<SwayAction>,
    c: Seq<SwayAction>,
    d: Seq<SwayAction>,
)
    requires
        same_verbs(a, b),
        same_verbs(c, d),
    ensures
        same_verbs(a + c, b + d),
{
    assert forall|i: int| 0 <= i < (a + c).len() implies (#[trigger] (a + c)[i]).verb() == (b
        + d)[i].verb() && !(a + c)[i].launches() && !(b + d)[i].launches() by {
        if i < a.len() {
            assert((a + c)[i] == a[i]);
            assert((b + d)[i] == b[i]);
        } else {
            assert((a + c)[i] == c[i - a.len()]);
            assert((b + d)[i] == d[i - a.len()]);
        }
    }
}

proof fn lemma_same_verbs_present(a: Seq<Option<SwayAction>>, b: Seq<Option<SwayAction>>)
    requires
        a.len() == b.len(),
        forall|i: int|
            0 <= i < a.len() ==> match (#[trigger] a[i], b[i]) {
                (Some(x), Some(y)) => x.verb() == y.verb() && !x.launches() && !y.launches(),
                (None, None) => true,
                _ => false,
            },
    ensures
        same_verbs(present(a), present(b)),
    decreases a.len(),
{
    if a.len() > 0 {
        let (c, d) = (a.drop_last(), b.drop_last());
        assert forall|i: int| 0 <= i < c.len() implies match (#[trigger] c[i], d[i]) {
            (Some(x), Some(y)) => x.verb() == y.verb() && !x.launches() && !y.launches(),
            (None, None) => true,
            _ => false,
        } by {
            assert(c[i] == a[i] && d[i] == b[i]);
        }
        lemma_same_verbs_present(c, d);
        assert(a[a.len() - 1] == a.last());
    }
}

/// A preview shows what would run: the actions that it lists have the same
/// verbs, in the same order, as those planned for any container when no move
/// is left out, and none of them is a launch.
pub proof fn law_a_preview_shows_the_plan(launch: SwayLaunch, container_id: i64)
    ensures
        same_verbs(launch.actions(0), launch.actions(container_id)),
        launch.plan(container_id, false, false) == all_run(launch.actions(container_id)),
{
    let id = container_id;
    lemma_same_verbs_present(launch.wanted(0), launch.wanted(id));
    let c0 = when(launch.new_column, launch.column_action(0));
    let c1 = when(launch.new_column, launch.column_action(id));
    let r0 = when(launch.new_row, launch.row_action(0));
    let r1 = when(launch.new_row, launch.row_action(id));
    lemma_same_verbs_concat(c0, c1, r0, r1);
    lemma_same_verbs_concat(
        c0 + r0,
        c1 + r1,
        launch.settled_actions(0),
        launch.settled_actions(id),
    );
    assert(launch.plan(id, false, false) =~= all_run(launch.actions(id)));
}

/// Nothing but a move is ever left out of a plan.
pub proof fn law_only_moves_are_left_out(
    launch: SwayLaunch,
    container_id: i64,
    skip_column: bool,
    skip_row: bool,
    i: int,
)
    requires
        0 <= i < launch.plan(container_id, skip_column, skip_row).len(),
        launch.plan(container_id, skip_column, skip_row)[i] is Skip,
    ensures
        launch.actions(container_id).len() == launch.plan(container_id, skip_column, skip_row).len(),
        launch.actions(container_id)[i] is NewColumn && skip_column
            || launch.actions(container_id)[i] is NewRow && skip_row,
{
    let settled = launch.settled_actions(container_id);
    let plan = launch.plan(container_id, skip_column, skip_row);
    assert(all_run(settled).len() == settled.len());
    let moves = plan.len() - settled.len();
    if i >= moves {
        assert(plan[i] == all_run(settled)[i - moves]);
    }
}

/// The place of each action in the fixed order of a plan. A launch has none.
pub open spec fn place(action: SwayAction) -> int {
    match action {
        SwayAction::Exec { .. } => -1,
        SwayAction::NewColumn { .. } => 0,
        SwayAction::NewRow { .. } => 1,
        SwayAction::Workspace { .. } => 2,
        SwayAction::Output { .. } => 3,
        SwayAction::Split { .. } => 4,
        SwayAction::Floating { .. } => 5,
        SwayAction::Sticky { .. } => 6,
        SwayAction::Fullscreen { .. } => 7,
        SwayAction::Focus { .. } => 8,
        SwayAction::Height { .. } => 9,
        SwayAction::Width { .. } => 10,
        SwayAction::Position { .. } => 11,
        SwayAction::Mark { .. } => 12,
        SwayAction::Scratchpad { .. } => 13,
    }
}

/// The place of an action that is to run, or of the move that is left out.
pub open spec fn planned_place(planned: PlannedAction) -> int {
    match planned {
        PlannedAction::Run(action) => place(action),
        PlannedAction::Skip(skipped) => if skipped.action@ == "new_column"@ {
            0
        } else {
            1
        },
    }
}

/// Whether the action with a place in the order is asked for.
pub open spec fn asks_for(launch: SwayLaunch, place: int) -> bool {
    ||| place == 0 && launch.new_column
    ||| place == 1 && launch.new_row
    ||| place == 2 && launch.workspace is Some
    ||| place == 3 && launch.output is Some
    ||| place == 4 && launch.split is Some
    ||| place == 5 && launch.floating
    ||| place == 6 && launch.sticky
    ||| place == 7 && launch.fullscreen
    ||| place == 8 && launch.focus
    ||| place == 9 && launch.height is Some
    ||| place == 10 && launch.width is Some
    ||| place == 11 && launch.position is Some
    ||| place == 12 && launch.mark@.len() > 0
    ||| place == 13 && launch.scratchpad
}

/// Whether an action is one that was asked for, on the container, with the very
/// value that was given for it, and with the time for its kind: the time limit
/// where an event confirms it, the time to wait where none does.
pub open spec fn as_asked(launch: SwayLaunch, container_id: i64, action: SwayAction) -> bool {
    match action {
        SwayAction::Exec { .. } => false,
        SwayAction::NewColumn { container_id: id, verbose, wait_time } => {
            &&& launch.new_column
            &&& id == container_id
            &&& verbose == launch.verbose
            &&& wait_time == launch.wait_time
        },
        SwayAction::NewRow { container_id: id, verbose, wait_time } => {
            &&& launch.new_row
            &&& id == container_id
            &&& verbose == launch.verbose
            &&& wait_time == launch.wait_time
        },
        SwayAction::Workspace { container_id: id, workspace, verbose, timeout } => {
            &&& launch.workspace == Some(workspace)
            &&& id == container_id
            &&& verbose == launch.verbose
            &&& timeout == launch.timeout
        },
        SwayAction::Output { container_id: id, output, verbose, timeout } => {
            &&& launch.output == Some(output)
            &&& id == container_id
            &&& verbose == launch.verbose
            &&& timeout == launch.timeout
        },
        SwayAction::Split { container_id: id, split, verbose, wait_time } => {
            &&& launch.split == Some(split)
            &&& id == container_id
            &&& verbose == launch.verbose
            &&& wait_time == launch.wait_time
        },
        SwayAction::Floating { container_id: id, verbose, timeout } => {
            &&& launch.floating
            &&& id == container_id
            &&& verbose == launch.verbose
            &&& timeout == launch.timeout
        },
        SwayAction::Sticky { container_id: id, verbose, wait_time } => {
            &&& launch.sticky
            &&& id == container_id
            &&& verbose == launch.verbose
            &&& wait_time == launch.wait_time
        },
        SwayAction::Fullscreen { container_id: id, verbose, timeout } => {
            &&& launch.fullscreen
            &&& id == container_id
            &&& verbose == launch.verbose
            &&& timeout == launch.timeout
        },
        SwayAction::Focus { container_id: id, verbose, timeout } => {
            &&& launch.focus
            &&& id == container_id
            &&& verbose == launch.verbose
            &&& timeout == launch.timeout
        },
        SwayAction::Height { container_id: id, height, verbose, wait_time } => {
            &&& launch.height == Some(height)
            &&& id == container_id
            &&& verbose == launch.verbose
            &&& wait_time == launch.wait_time
        },
        SwayAction::Width { container_id: id, width, verbose, wait_time } => {
            &&& launch.width == Some(width)
            &&& id == container_id
            &&& verbose == launch.verbose
            &&& wait_time == launch.wait_time
        },
        SwayAction::Position { container_id: id, position, verbose, wait_time } => {
            &&& launch.position == Some(position)
            &&& id == container_id
            &&& verbose == launch.verbose
            &&& wait_time == launch.wait_time
        },
        SwayAction::Mark { container_id: id, mark, verbose, timeout } => {
            &&& launch.mark == mark && mark@.len() > 0
            &&& id == container_id
            &&& verbose == launch.verbose
            &&& timeout == launch.timeout
        },
        SwayAction::Scratchpad { container_id: id, verbose, timeout } => {
            &&& launch.scratchpad
            &&& id == container_id
            &&& verbose == launch.verbose
            &&& timeout == launch.timeout
        },
    }
}

proof fn lemma_present_in_order<'a>(wanted: Seq<Option<SwayAction<'a>>>)
    requires
        forall|i: int|
            0 <= i < wanted.len() && (#[trigger] wanted[i]) is Some ==> place(wanted[i]->0) == i + 2,
    ensures
        forall|k: int|
            0 <= k < present(wanted).len() ==> {
                let action = #[trigger] present(wanted)[k];
                2 <= place(action) < wanted.len() + 2 && wanted[place(action) - 2] == Some(action)
            },
        forall|j: int, k: int|
            #![trigger present(wanted)[j], present(wanted)[k]]
            0 <= j < k < present(wanted).len() ==> place(present(wanted)[j]) < place(
                present(wanted)[k],
            ),
        forall|i: int|
            0 <= i < wanted.len() && (#[trigger] wanted[i]) is Some ==> present(wanted).contains(
                wanted[i]->0,
            ),
    decreases wanted.len(),
{
    if wanted.len() > 0 {
        let init = wanted.drop_last();
        let all = present(wanted);
        let before = present(init);
        assert forall|i: int| 0 <= i < init.len() && (#[trigger] init[i]) is Some implies place(
            init[i]->0,
        ) == i + 2 by {
            assert(wanted[i] == init[i]);
        }
        lemma_present_in_order(init);
        assert forall|k: int| 0 <= k < all.len() implies {
            let action = #[trigger] all[k];
            2 <= place(action) < wanted.len() + 2 && wanted[place(action) - 2] == Some(action)
        } by {
            if k < before.len() {
                assert(all[k] == before[k]);
                assert(init[place(before[k]) - 2] == wanted[place(before[k]) - 2]);
            } else {
                assert(wanted[wanted.len() - 1] == Some(all[k]));
            }
        }
        assert forall|j: int, k: int|
            #![trigger all[j], all[k]]
            0 <= j < k < all.len() implies place(all[j]) < place(all[k]) by {
            assert(all[j] == before[j]);
            if k < before.len() {
                assert(all[k] == before[k]);
            } else {
                assert(wanted[wanted.len() - 1] == Some(all[k]));
            }
        }
        assert forall|i: int| 0 <= i < wanted.len() && (#[trigger] wanted[i]) is Some implies
            all.contains(wanted[i]->0) by {
            if i < init.len() {
                assert(init[i] == wanted[i]);
                assert(before.contains(init[i]->0));
                let k = choose|k: int| 0 <= k < before.len() && before[k] == init[i]->0;
                assert(all[k] == before[k]);
            } else {
                assert(all[all.len() - 1] == wanted[i]->0);
            }
        }
    }
}

/// All actions but the moves are as asked, in order, and none is missing.
proof fn lemma_settled_actions(launch: SwayLaunch, container_id: i64)
    ensures
        ({
            let settled = launch.settled_actions(container_id);
            &&& forall|k: int|
                0 <= k < settled.len() ==> 2 <= place(#[trigger] settled[k]) && as_asked(
                    launch,
                    container_id,
                    settled[k],
                )
            &&& forall|j: int, k: int|
                #![trigger settled[j], settled[k]]
                0 <= j < k < settled.len() ==> place(settled[j]) < place(settled[k])
            &&& forall|at: int| #[trigger]
                asks_for(launch, at) && at >= 2 ==> exists|k: int|
                    0 <= k < settled.len() && place(#[trigger] settled[k]) == at
        }),
{
    let wanted = launch.wanted(container_id);
    let settled = launch.settled_actions(container_id);
    assert forall|i: int| 0 <= i < wanted.len() && (#[trigger] wanted[i]) is Some implies place(
        wanted[i]->0,
    ) == i + 2 && as_asked(launch, container_id, wanted[i]->0) by {}
    lemma_present_in_order(wanted);
    assert forall|k: int| 0 <= k < settled.len() implies 2 <= place(#[trigger] settled[k])
        && as_asked(launch, container_id, settled[k]) by {
        let action = present(wanted)[k];
        assert(wanted[place(action) - 2] == Some(action));
    }
    assert forall|at: int| #[trigger] asks_for(launch, at) && at >= 2 implies exists|k: int|
        0 <= k < settled.len() && place(#[trigger] settled[k]) == at by {
        assert(wanted[at - 2] is Some);
        assert(settled.contains(wanted[at - 2]->0));
        let k = choose|k: int| 0 <= k < settled.len() && settled[k] == wanted[at - 2]->0;
        assert(place(settled[k]) == at);
    }
}

/// The moves at the front of a plan: as asked, in order, and left out exactly
/// where they are to be.
proof fn lemma_moves(launch: SwayLaunch, container_id: i64, skip_column: bool, skip_row: bool)
    ensures
        ({
            let plan = launch.plan(container_id, skip_column, skip_row);
            let moves = plan.take(plan.len() - launch.settled_actions(container_id).len());
            &&& moves.len() <= 2
            &&& forall|i: int|
                0 <= i < moves.len() ==> match (#[trigger] moves[i]) {
                    PlannedAction::Run(action) => as_asked(launch, container_id, action),
                    PlannedAction::Skip(skipped) => {
                        ||| launch.new_column && skip_column && skipped.action@ == "new_column"@
                            && skipped.reason@ == "trailing_workspace_edge"@
                        ||| launch.new_row && skip_row && skipped.action@ == "new_row"@
                            && skipped.reason@ == "trailing_workspace_edge"@
                    },
                }
            &&& moves.len() == 2 ==> planned_place(moves[0]) < planned_place(moves[1])
            &&& forall|at: int| #[trigger]
                asks_for(launch, at) && at < 2 ==> exists|i: int|
                    0 <= i < moves.len() && planned_place(#[trigger] moves[i]) == at
            &&& forall|i: int|
                0 <= i < moves.len() ==> {
                    &&& planned_place(#[trigger] moves[i]) < 2
                    &&& planned_place(moves[i]) == 0 ==> (moves[i] is Skip <==> skip_column)
                    &&& planned_place(moves[i]) == 1 ==> (moves[i] is Skip <==> skip_row)
                }
        }),
{
    reveal_strlit("new_column");
    reveal_strlit("new_row");
    assert("new_column"@.len() != "new_row"@.len());
    let plan = launch.plan(container_id, skip_column, skip_row);
    let settled = launch.settled_actions(container_id);
    let moves = plan.take(plan.len() - settled.len());
    assert(all_run(settled).len() == settled.len());
    if launch.new_column {
        assert(planned_place(moves[0]) == 0);
    }
    if launch.new_row {
        assert(planned_place(moves[moves.len() - 1]) == 1);
    }
}

/// A plan does all that was asked for and nothing else, in the fixed order:
/// each action that runs is one that was asked for, with the value that was
/// given for it; each that was asked for is in the plan, once; and a move is
/// left out exactly where it would take the window to another output.
pub proof fn law_a_plan_does_what_was_asked(
    launch: SwayLaunch,
    container_id: i64,
    skip_column: bool,
    skip_row: bool,
)
    ensures
        ({
            let plan = launch.plan(container_id, skip_column, skip_row);
            &&& forall|i: int|
                0 <= i < plan.len() ==> match (#[trigger] plan[i]) {
                    PlannedAction::Run(action) => as_asked(launch, container_id, action),
                    PlannedAction::Skip(skipped) => {
                        ||| launch.new_column && skip_column && skipped.action@ == "new_column"@
                            && skipped.reason@ == "trailing_workspace_edge"@
                        ||| launch.new_row && skip_row && skipped.action@ == "new_row"@
                            && skipped.reason@ == "trailing_workspace_edge"@
                    },
                }
            &&& forall|i: int, j: int|
                #![trigger plan[i], plan[j]]
                0 <= i < j < plan.len() ==> planned_place(plan[i]) < planned_place(plan[j])
            &&& forall|at: int| #[trigger]
                asks_for(launch, at) ==> exists|i: int|
                    0 <= i < plan.len() && planned_place(#[trigger] plan[i]) == at
            &&& forall|i: int|
                0 <= i < plan.len() ==> {
                    &&& planned_place(#[trigger] plan[i]) == 0 ==> (plan[i] is Skip <==> skip_column)
                    &&& planned_place(plan[i]) == 1 ==> (plan[i] is Skip <==> skip_row)
                }
        }),
{
    reveal_strlit("new_column");
    reveal_strlit("new_row");
    assert("new_column"@.len() != "new_row"@.len());
    let plan = launch.plan(container_id, skip_column, skip_row);
    let settled = launch.settled_actions(container_id);
    let moves = plan.take(plan.len() - settled.len());
    lemma_settled_actions(launch, container_id);
    assert(all_run(settled).len() == settled.len());
    lemma_moves(launch, container_id, skip_column, skip_row);
    assert forall|i: int| 0 <= i < moves.len() implies #[trigger] plan[i] == moves[i] by {}
    assert forall|i: int| moves.len() <= i < plan.len() implies #[trigger] plan[i]
        == PlannedAction::Run(settled[i - moves.len()]) by {
        assert(plan[i] == all_run(settled)[i - moves.len()]);
    }
    assert forall|at: int| #[trigger] asks_for(launch, at) implies exists|i: int|
        0 <= i < plan.len() && planned_place(#[trigger] plan[i]) == at by {
        if at >= 2 {
            let k = choose|k: int| 0 <= k < settled.len() && place(#[trigger] settled[k]) == at;
            assert(planned_place(plan[moves.len() + k]) == at);
        } else {
            let i = choose|i: int|
                0 <= i < moves.len() && planned_place(#[trigger] moves[i]) == at;
            assert(planned_place(plan[i]) == at);
        }
    }
    assert forall|i: int, j: int|
        #![trigger plan[i], plan[j]]
        0 <= i < j < plan.len() implies planned_place(plan[i]) < planned_place(plan[j]) by {
        if i >= moves.len() {
            assert(place(settled[i - moves.len()]) < place(settled[j - moves.len()]));
        }
    }
}

/// A preview lists, one for one, the actions that the plan would run if no move
/// were left out.
pub proof fn law_a_preview_lists_the_planned_actions(launch: SwayLaunch, container_id: i64)
    ensures
        launch.actions(container_id).len() == launch.plan(container_id, false, false).len(),
        forall|i: int|
            0 <= i < launch.actions(container_id).len() ==> launch.plan(
                container_id,
                false,
                false,
            )[i] == PlannedAction::Run(#[trigger] launch.actions(container_id)[i]),
{
    law_a_preview_shows_the_plan(launch, container_id);
}

/// Each action of a plan carries the value of the field that asked for it, for
/// the planned container, and the time for its kind.
pub proof fn law_each_planned_action_carries_its_own_value(
    launch: SwayLaunch,
    container_id: i64,
    skip_column: bool,
    skip_row: bool,
    i: int,
    action: SwayAction,
)
    requires
        0 <= i < launch.plan(container_id, skip_column, skip_row).len(),
        launch.plan(container_id, skip_column, skip_row)[i] == PlannedAction::Run(action),
    ensures
        match action {
            SwayAction::Exec { .. } => false,
            SwayAction::NewColumn { container_id: id, verbose, wait_time } => {
                &&& launch.new_column
                &&& id == container_id
                &&& verbose == launch.verbose
                &&& wait_time == launch.wait_time
            },
            SwayAction::NewRow { container_id: id, verbose, wait_time } => {
                &&& launch.new_row
                &&& id == container_id
                &&& verbose == launch.verbose
                &&& wait_time == launch.wait_time
            },
            SwayAction::Workspace { container_id: id, workspace, verbose, timeout } => {
                &&& launch.workspace == Some(workspace)
                &&& id == container_id
                &&& verbose == launch.verbose
                &&& timeout == launch.timeout
            },
            SwayAction::Output { container_id: id, output, verbose, timeout } => {
                &&& launch.output == Some(output)
                &&& id == container_id
                &&& verbose == launch.verbose
                &&& timeout == launch.timeout
            },
            SwayAction::Split { container_id: id, split, verbose, wait_time } => {
                &&& launch.split == Some(split)
                &&& id == container_id
                &&& verbose == launch.verbose
                &&& wait_time == launch.wait_time
            },
            SwayAction::Floating { container_id: id, verbose, timeout } => {
                &&& launch.floating
                &&& id == container_id
                &&& verbose == launch.verbose
                &&& timeout == launch.timeout
            },
            SwayAction::Sticky { container_id: id, verbose, wait_time } => {
                &&& launch.sticky
                &&& id == container_id
                &&& verbose == launch.verbose
                &&& wait_time == launch.wait_time
            },
            SwayAction::Fullscreen { container_id: id, verbose, timeout } => {
                &&& launch.fullscreen
                &&& id == container_id
                &&& verbose == launch.verbose
                &&& timeout == launch.timeout
            },
            SwayAction::Focus { container_id: id, verbose, timeout } => {
                &&& launch.focus
                &&& id == container_id
                &&& verbose == launch.verbose
                &&& timeout == launch.timeout
            },
            SwayAction::Height { container_id: id, height, verbose, wait_time } => {
                &&& launch.height == Some(height)
                &&& id == container_id
                &&& verbose == launch.verbose
                &&& wait_time == launch.wait_time
            },
            SwayAction::Width { container_id: id, width, verbose, wait_time } => {
                &&& launch.width == Some(width)
                &&& id == container_id
                &&& verbose == launch.verbose
                &&& wait_time == launch.wait_time
            },
            SwayAction::Position { container_id: id, position, verbose, wait_time } => {
                &&& launch.position == Some(position)
                &&& id == container_id
                &&& verbose == launch.verbose
                &&& wait_time == launch.wait_time
            },
            SwayAction::Mark { container_id: id, mark, verbose, timeout } => {
                &&& launch.mark == mark && mark@.len() > 0
                &&& id == container_id
                &&& verbose == launch.verbose
                &&& timeout == launch.timeout
            },
            SwayAction::Scratchpad { container_id: id, verbose, timeout } => {
                &&& launch.scratchpad
                &&& id == container_id
                &&& verbose == launch.verbose
                &&& timeout == launch.timeout
            },
        },
{
    law_a_plan_does_what_was_asked(launch, container_id, skip_column, skip_row);
}

/// Whether what has a place in the order is in a plan exactly where it is asked
/// for.
spec fn in_plan_as_asked(
    launch: SwayLaunch,
    plan: Seq<PlannedAction>,
    skip_column: bool,
    skip_row: bool,
    at: int,
) -> bool {
    let left_out = at == 0 && skip_column || at == 1 && skip_row;
    &&& asks_for(launch, at) && !left_out <==> exists|i: int|
        0 <= i < plan.len() && (#[trigger] plan[i]) is Run && place(plan[i]->Run_0) == at
    &&& at == 0 ==> (launch.new_column && skip_column <==> exists|i: int|
        0 <= i < plan.len() && (#[trigger] plan[i]) is Skip && plan[i]->Skip_0.action@
            == "new_column"@)
    &&& at == 1 ==> (launch.new_row && skip_row <==> exists|i: int|
        0 <= i < plan.len() && (#[trigger] plan[i]) is Skip && plan[i]->Skip_0.action@
            == "new_row"@)
}

/// What has a place in the order is in a plan exactly where it is asked for: to
/// run, or, for a move that is to be left out, left out.
proof fn lemma_in_plan(
    launch: SwayLaunch,
    container_id: i64,
    skip_column: bool,
    skip_row: bool,
    at: int,
)
    ensures
        in_plan_as_asked(
            launch,
            launch.plan(container_id, skip_column, skip_row),
            skip_column,
            skip_row,
            at,
        ),
{
    reveal_strlit("new_column");
    reveal_strlit("new_row");
    assert("new_column"@.len() != "new_row"@.len());
    let plan = launch.plan(container_id, skip_column, skip_row);
    law_a_plan_does_what_was_asked(launch, container_id, skip_column, skip_row);
    assert forall|i: int| 0 <= i < plan.len() && (#[trigger] plan[i]) is Run implies asks_for(
        launch,
        place(plan[i]->Run_0),
    ) && planned_place(plan[i]) == place(plan[i]->Run_0) by {
        assert(as_asked(launch, container_id, plan[i]->Run_0));
    }
    if asks_for(launch, at) {
        let i = choose|i: int| 0 <= i < plan.len() && planned_place(#[trigger] plan[i]) == at;
        assert(plan[i] is Run || plan[i] is Skip);
    }
}

proof fn lemma_each_field_has_its_action(
    launch: SwayLaunch,
    plan: Seq<PlannedAction>,
    skip_column: bool,
    skip_row: bool,
)
    requires
        forall|at: int| #[trigger] in_plan_as_asked(launch, plan, skip_column, skip_row, at),
    ensures
        ({
            &&& launch.workspace is Some <==> exists|i: int|
                0 <= i < plan.len() && (#[trigger] plan[i]) is Run && plan[i]->Run_0 is Workspace
            &&& launch.output is Some <==> exists|i: int|
                0 <= i < plan.len() && (#[trigger] plan[i]) is Run && plan[i]->Run_0 is Output
            &&& launch.split is Some <==> exists|i: int|
                0 <= i < plan.len() && (#[trigger] plan[i]) is Run && plan[i]->Run_0 is Split
            &&& launch.floating <==> exists|i: int|
                0 <= i < plan.len() && (#[trigger] plan[i]) is Run && plan[i]->Run_0 is Floating
            &&& launch.sticky <==> exists|i: int|
                0 <= i < plan.len() && (#[trigger] plan[i]) is Run && plan[i]->Run_0 is Sticky
            &&& launch.fullscreen <==> exists|i: int|
                0 <= i < plan.len() && (#[trigger] plan[i]) is Run && plan[i]->Run_0 is Fullscreen
            &&& launch.focus <==> exists|i: int|
                0 <= i < plan.len() && (#[trigger] plan[i]) is Run && plan[i]->Run_0 is Focus
            &&& launch.height is Some <==> exists|i: int|
                0 <= i < plan.len() && (#[trigger] plan[i]) is Run && plan[i]->Run_0 is Height
            &&& launch.width is Some <==> exists|i: int|
                0 <= i < plan.len() && (#[trigger] plan[i]) is Run && plan[i]->Run_0 is Width
            &&& launch.position is Some <==> exists|i: int|
                0 <= i < plan.len() && (#[trigger] plan[i]) is Run && plan[i]->Run_0 is Position
            &&& launch.mark@.len() > 0 <==> exists|i: int|
                0 <= i < plan.len() && (#[trigger] plan[i]) is Run && plan[i]->Run_0 is Mark
            &&& launch.scratchpad <==> exists|i: int|
                0 <= i < plan.len() && (#[trigger] plan[i]) is Run && plan[i]->Run_0 is Scratchpad
            &&& launch.new_column && !skip_column <==> exists|i: int|
                0 <= i < plan.len() && (#[trigger] plan[i]) is Run && plan[i]->Run_0 is NewColumn
            &&& launch.new_row && !skip_row <==> exists|i: int|
                0 <= i < plan.len() && (#[trigger] plan[i]) is Run && plan[i]->Run_0 is NewRow
            &&& launch.new_column && skip_column <==> exists|i: int|
                0 <= i < plan.len() && (#[trigger] plan[i]) is Skip && plan[i]->Skip_0.action@
                    == "new_column"@
            &&& launch.new_row && skip_row <==> exists|i: int|
                0 <= i < plan.len() && (#[trigger] plan[i]) is Skip && plan[i]->Skip_0.action@
                    == "new_row"@
        }),
{
    assert(launch.workspace is Some <==> exists|i: int|
        0 <= i < plan.len() && (#[trigger] plan[i]) is Run && plan[i]->Run_0 is Workspace) by {
        assert(in_plan_as_asked(launch, plan, skip_column, skip_row, 2));
    }
    assert(launch.output is Some <==> exists|i: int|
        0 <= i < plan.len() && (#[trigger] plan[i]) is Run && plan[i]->Run_0 is Output) by {
        assert(in_plan_as_asked(launch, plan, skip_column, skip_row, 3));
    }
    assert(launch.split is Some <==> exists|i: int|
        0 <= i < plan.len() && (#[trigger] plan[i]) is Run && plan[i]->Run_0 is Split) by {
        assert(in_plan_as_asked(launch, plan, skip_column, skip_row, 4));
    }
    assert(launch.floating <==> exists|i: int|
        0 <= i < plan.len() && (#[trigger] plan[i]) is Run && plan[i]->Run_0 is Floating) by {
        assert(in_plan_as_asked(launch, plan, skip_column, skip_row, 5));
    }
    assert(launch.sticky <==> exists|i: int|
        0 <= i < plan.len() && (#[trigger] plan[i]) is Run && plan[i]->Run_0 is Sticky) by {
        assert(in_plan_as_asked(launch, plan, skip_column, skip_row, 6));
    }
    assert(launch.fullscreen <==> exists|i: int|
        0 <= i < plan.len() && (#[trigger] plan[i]) is Run && plan[i]->Run_0 is Fullscreen) by {
        assert(in_plan_as_asked(launch, plan, skip_column, skip_row, 7));
    }
    assert(launch.focus <==> exists|i: int|
        0 <= i < plan.len() && (#[trigger] plan[i]) is Run && plan[i]->Run_0 is Focus) by {
        assert(in_plan_as_asked(launch, plan, skip_column, skip_row, 8));
    }
    assert(launch.height is Some <==> exists|i: int|
        0 <= i < plan.len() && (#[trigger] plan[i]) is Run && plan[i]->Run_0 is Height) by {
        assert(in_plan_as_asked(launch, plan, skip_column, skip_row, 9));
    }
    assert(launch.width is Some <==> exists|i: int|
        0 <= i < plan.len() && (#[trigger] plan[i]) is Run && plan[i]->Run_0 is Width) by {
        assert(in_plan_as_asked(launch, plan, skip_column, skip_row, 10));
    }
    assert(launch.position is Some <==> exists|i: int|
        0 <= i < plan.len() && (#[trigger] plan[i]) is Run && plan[i]->Run_0 is Position) by {
        assert(in_plan_as_asked(launch, plan, skip_column, skip_row, 11));
    }
    assert(launch.mark@.len() > 0 <==> exists|i: int|
        0 <= i < plan.len() && (#[trigger] plan[i]) is Run && plan[i]->Run_0 is Mark) by {
        assert(in_plan_as_asked(launch, plan, skip_column, skip_row, 12));
    }
    assert(launch.scratchpad <==> exists|i: int|
        0 <= i < plan.len() && (#[trigger] plan[i]) is Run && plan[i]->Run_0 is Scratchpad) by {
        assert(in_plan_as_asked(launch, plan, skip_column, skip_row, 13));
    }
    assert(launch.new_column && !skip_column <==> exists|i: int|
        0 <= i < plan.len() && (#[trigger] plan[i]) is Run && plan[i]->Run_0 is NewColumn) by {
        assert(in_plan_as_asked(launch, plan, skip_column, skip_row, 0));
    }
    assert(launch.new_column && skip_column <==> exists|i: int|
        0 <= i < plan.len() && (#[trigger] plan[i]) is Skip && plan[i]->Skip_0.action@
            == "new_column"@) by {
        assert(in_plan_as_asked(launch, plan, skip_column, skip_row, 0));
    }
    assert(launch.new_row && !skip_row <==> exists|i: int|
        0 <= i < plan.len() && (#[trigger] plan[i]) is Run && plan[i]->Run_0 is NewRow) by {
        assert(in_plan_as_asked(launch, plan, skip_column, skip_row, 1));
    }
    assert(launch.new_row && skip_row <==> exists|i: int|
        0 <= i < plan.len() && (#[trigger] plan[i]) is Skip && plan[i]->Skip_0.action@
            == "new_row"@) by {
        assert(in_plan_as_asked(launch, plan, skip_column, skip_row, 1));
    }
}

/// Each field that asks for an action has that action in the plan, and no action
/// is in the plan that no field asks for; a move is there, to run or left out,
/// exactly where it is asked for.
pub proof fn law_each_field_has_its_action(
    launch: SwayLaunch,
    container_id: i64,
    skip_column: bool,
    skip_row: bool,
)
    ensures
        ({
            let plan = launch.plan(container_id, skip_column, skip_row);
            &&& launch.workspace is Some <==> exists|i: int|
                0 <= i < plan.len() && (#[trigger] plan[i]) is Run && plan[i]->Run_0 is Workspace
            &&& launch.output is Some <==> exists|i: int|
                0 <= i < plan.len() && (#[trigger] plan[i]) is Run && plan[i]->Run_0 is Output
            &&& launch.split is Some <==> exists|i: int|
                0 <= i < plan.len() && (#[trigger] plan[i]) is Run && plan[i]->Run_0 is Split
            &&& launch.floating <==> exists|i: int|
                0 <= i < plan.len() && (#[trigger] plan[i]) is Run && plan[i]->Run_0 is Floating
            &&& launch.sticky <==> exists|i: int|
                0 <= i < plan.len() && (#[trigger] plan[i]) is Run && plan[i]->Run_0 is Sticky
            &&& launch.fullscreen <==> exists|i: int|
                0 <= i < plan.len() && (#[trigger] plan[i]) is Run && plan[i]->Run_0 is Fullscreen
            &&& launch.focus <==> exists|i: int|
                0 <= i < plan.len() && (#[trigger] plan[i]) is Run && plan[i]->Run_0 is Focus
            &&& launch.height is Some <==> exists|i: int|
                0 <= i < plan.len() && (#[trigger] plan[i]) is Run && plan[i]->Run_0 is Height
            &&& launch.width is Some <==> exists|i: int|
                0 <= i < plan.len() && (#[trigger] plan[i]) is Run && plan[i]->Run_0 is Width
            &&& launch.position is Some <==> exists|i: int|
                0 <= i < plan.len() && (#[trigger] plan[i]) is Run && plan[i]->Run_0 is Position
            &&& launch.mark@.len() > 0 <==> exists|i: int|
                0 <= i < plan.len() && (#[trigger] plan[i]) is Run && plan[i]->Run_0 is Mark
            &&& launch.scratchpad <==> exists|i: int|
                0 <= i < plan.len() && (#[trigger] plan[i]) is Run && plan[i]->Run_0 is Scratchpad
            &&& launch.new_column && !skip_column <==> exists|i: int|
                0 <= i < plan.len() && (#[trigger] plan[i]) is Run && plan[i]->Run_0 is NewColumn
            &&& launch.new_row && !skip_row <==> exists|i: int|
                0 <= i < plan.len() && (#[trigger] plan[i]) is Run && plan[i]->Run_0 is NewRow
            &&& launch.new_column && skip_column <==> exists|i: int|
                0 <= i < plan.len() && (#[trigger] plan[i]) is Skip && plan[i]->Skip_0.action@
                    == "new_column"@
            &&& launch.new_row && skip_row <==> exists|i: int|
                0 <= i < plan.len() && (#[trigger] plan[i]) is Skip && plan[i]->Skip_0.action@
                    == "new_row"@
        }),
{
    let plan = launch.plan(container_id, skip_column, skip_row);
    assert forall|at: int| #[trigger]
        in_plan_as_asked(launch, plan, skip_column, skip_row, at) by {
        lemma_in_plan(launch, container_id, skip_column, skip_row, at);
    }
    lemma_each_field_has_its_action(launch, plan, skip_column, skip_row);
}

} // verus!
