//! Running one action, and running the plan for one window.
//!
//! A run is a sequence of requests to the outside and the events that answer
//! them. The phase of a run says what is asked for next.

use crate::action::SwayAction;
use crate::event_wait::{EventWaitPhase, EventWaitRun};
use crate::exec_wait::{ExecWaitPhase, ExecWaitRun};
use crate::ipc::Reply;
use crate::launch::{PlannedAction, SwayLaunch, Target};
use crate::outcome::{
    action_status, ActionOutcome, ActionRecord, ActionResult, ActionStatus, LaunchOwnership,
    RunOutcome,
};
use crate::outcome;
use crate::query::find_existing_container_id;
use crate::query;
use crate::text;
use crate::tree::{matching_container_ids, MoveDirection, Node};
use crate::tree;
use crate::wait_time::{WaitTimePhase, WaitTimeRun};
use vstd::prelude::*;

verus! {

broadcast use vstd::string::group_string_axioms;

/// The run of one action, by the way in which its effect is told.
#[derive(Debug)]
pub enum ActionRun<'a> {
    Exec(ExecWaitRun<'a>),
    Events(EventWaitRun<'a>),
    WaitTime(WaitTimeRun<'a>),
}

/// What the end of a run of an action amounts to: its result, or an error.
pub open spec fn action_end(run: ActionRun) -> Option<Result<ActionResult, Seq<char>>> {
    match run {
        ActionRun::Exec(run) => match run.phase {
            ExecWaitPhase::Done { container_id, ownership } => Some(
                Ok(
                    ActionResult {
                        container_id,
                        outcome: ActionOutcome::Changed,
                        launch_ownership: Some(ownership),
                    },
                ),
            ),
            ExecWaitPhase::Failed(error) => Some(Err(error@)),
            _ => None,
        },
        ActionRun::Events(run) => match run.phase {
            EventWaitPhase::Done { container_id, outcome } => Some(
                Ok(ActionResult { container_id, outcome, launch_ownership: None }),
            ),
            EventWaitPhase::Failed(error) => Some(Err(error@)),
            _ => None,
        },
        ActionRun::WaitTime(run) => match run.phase {
            WaitTimePhase::Done { confirmed } => Some(
                Ok(
                    ActionResult {
                        container_id: run.action.target()->0,
                        outcome: if confirmed {
                            ActionOutcome::Changed
                        } else {
                            ActionOutcome::Unconfirmed
                        },
                        launch_ownership: None,
                    },
                ),
            ),
            WaitTimePhase::Failed(error) => Some(Err(error@)),
            _ => None,
        },
    }
}

impl<'a> ActionRun<'a> {
    /// Whether the action is one that is run in this way.
    pub open spec fn well_formed(self) -> bool {
        match self {
            ActionRun::Exec(run) => run.well_formed(),
            ActionRun::Events(run) => run.well_formed(),
            ActionRun::WaitTime(run) => run.well_formed(),
        }
    }

    /// The action that is run.
    pub open spec fn action(self) -> SwayAction<'a> {
        match self {
            ActionRun::Exec(run) => run.action,
            ActionRun::Events(run) => run.action,
            ActionRun::WaitTime(run) => run.action,
        }
    }

    /// What the end of this run amounts to: nothing where it is not at its end.
    pub fn result(&self) -> (result: Option<Result<ActionResult, String>>)
        requires
            self.well_formed(),
        ensures
            match result {
                Some(Ok(result)) => action_end(*self) == Some(
                    Ok::<ActionResult, Seq<char>>(result),
                ),
                Some(Err(error)) => action_end(*self) == Some(
                    Err::<ActionResult, Seq<char>>(error@),
                ),
                None => action_end(*self) is None,
            },
    {
        match self {
            ActionRun::Exec(run) => match &run.phase {
                ExecWaitPhase::Done { container_id, ownership } => Some(
                    Ok(
                        ActionResult {
                            container_id: *container_id,
                            outcome: ActionOutcome::Changed,
                            launch_ownership: Some(*ownership),
                        },
                    ),
                ),
                ExecWaitPhase::Failed(error) => Some(Err(error.clone())),
                _ => None,
            },
            ActionRun::Events(run) => match &run.phase {
                EventWaitPhase::Done { container_id, outcome } => Some(
                    Ok(ActionResult::acted(*container_id, *outcome)),
                ),
                EventWaitPhase::Failed(error) => Some(Err(error.clone())),
                _ => None,
            },
            ActionRun::WaitTime(run) => match &run.phase {
                WaitTimePhase::Done { confirmed } => {
                    let outcome = if *confirmed {
                        ActionOutcome::Changed
                    } else {
                        ActionOutcome::Unconfirmed
                    };
                    Some(Ok(ActionResult::acted(run.action.container_id().unwrap(), outcome)))
                },
                WaitTimePhase::Failed(error) => Some(Err(error.clone())),
                _ => None,
            },
        }
    }
}

impl<'a> SwayAction<'a> {
    /// What is told before this action is run: nothing unless it is to be
    /// commented on.
    pub fn announce(&self) -> (line: Option<String>)
        ensures
            text::opt_text(line) == if self.is_verbose() {
                Some("Sway action: "@ + self.display())
            } else {
                None
            },
    {
        if self.verbose() {
            Some(text::concat("Sway action: ", self.to_string().as_str()))
        } else {
            None
        }
    }

    /// The run of this action, at its start: a launch finds its window, an
    /// action with a confirming event waits for it, any other waits by the
    /// clock. The token marks the process of a launch.
    pub fn run(self, token: String) -> (run: ActionRun<'a>)
        ensures
            run.well_formed(),
            run.action() == self,
            action_end(run) is None,
            run is Exec <==> self.launches(),
            run is Events <==> !self.launches() && self.confirming_change() is Some,
            run matches ActionRun::Exec(run) ==> run.token@ == token@ && run.phase is Subscribe,
            run matches ActionRun::Events(run) ==> run.phase is CheckExists,
            run matches ActionRun::WaitTime(run) ==> run.phase is CheckBefore,
    {
        match self {
            SwayAction::Exec { .. } => ActionRun::Exec(ExecWaitRun::start(self, token)),
            _ => match self.matching_window_change_events() {
                Some(_) => ActionRun::Events(EventWaitRun::start(self)),
                None => ActionRun::WaitTime(WaitTimeRun::start(self)),
            },
        }
    }
}

/// How far the run of a plan has come.
#[derive(Debug)]
pub enum LaunchPhase<'a> {
    /// To launch the command and find its window.
    Launch,
    /// To find the open window that matches.
    Find,
    /// To see whether moving the window to the right would take it to another
    /// output.
    CheckColumn { container_id: i64, ownership: Option<LaunchOwnership> },
    /// To see whether moving the window down would take it to another output.
    CheckRow { container_id: i64, ownership: Option<LaunchOwnership>, skip_column: bool },
    /// To run the next action of the plan.
    Act {
        container_id: i64,
        ownership: Option<LaunchOwnership>,
        plan: Vec<PlannedAction<'a>>,
        records: Vec<ActionRecord>,
    },
    /// At the end.
    Done(RunOutcome),
    /// At the end, by an error.
    Failed(String),
}

/// What happened to an action: its name and its status.
pub type RecordView = (Seq<char>, ActionStatus);

/// How far the run of a plan has come, over views.
pub enum LaunchState<'a> {
    Launch,
    Find,
    CheckColumn { container_id: i64, ownership: Option<LaunchOwnership> },
    CheckRow { container_id: i64, ownership: Option<LaunchOwnership>, skip_column: bool },
    Act {
        container_id: i64,
        ownership: Option<LaunchOwnership>,
        plan: Seq<PlannedAction<'a>>,
        records: Seq<RecordView>,
    },
    Done { container_id: i64, ownership: Option<LaunchOwnership>, records: Seq<RecordView> },
    Failed(Seq<char>),
}

/// The views of some records.
pub open spec fn records_view(records: Seq<ActionRecord>) -> Seq<RecordView> {
    records.map_values(|record: ActionRecord| (record.action@, record.status))
}

impl<'a> View for LaunchPhase<'a> {
    type V = LaunchState<'a>;

    open spec fn view(&self) -> LaunchState<'a> {
        match *self {
            LaunchPhase::Launch => LaunchState::Launch,
            LaunchPhase::Find => LaunchState::Find,
            LaunchPhase::CheckColumn { container_id, ownership } => LaunchState::CheckColumn {
                container_id,
                ownership,
            },
            LaunchPhase::CheckRow { container_id, ownership, skip_column } => {
                LaunchState::CheckRow { container_id, ownership, skip_column }
            },
            LaunchPhase::Act { container_id, ownership, plan, records } => LaunchState::Act {
                container_id,
                ownership,
                plan: plan@,
                records: records_view(records@),
            },
            LaunchPhase::Done(outcome) => LaunchState::Done {
                container_id: outcome.container_id,
                ownership: outcome.launch_ownership,
                records: records_view(outcome.actions@),
            },
            LaunchPhase::Failed(error) => LaunchState::Failed(error@),
        }
    }
}

/// What the run of a plan asks for.
#[derive(Copy, Clone, Debug)]
pub enum LaunchRequest<'a> {
    /// That an action is run.
    Run(SwayAction<'a>),
    /// The tree.
    ReadTree,
    /// Whether moving a window would take it to another output.
    CheckRelocation { container_id: i64, direction: MoveDirection },
    /// Nothing more.
    Finish,
}

/// What answers a request.
#[derive(Debug)]
pub enum LaunchEvent {
    Ran(Result<ActionResult, String>),
    Tree(Reply<Node>),
    Relocation(Result<bool, String>),
}

/// The run of a plan.
#[derive(Debug)]
pub struct LaunchRun<'a> {
    pub launch: SwayLaunch<'a>,
    pub phase: LaunchPhase<'a>,
}

/// The state once the plan is followed as far as it goes without running an
/// action: actions that are left out are recorded as such.
pub open spec fn settled<'a>(
    container_id: i64,
    ownership: Option<LaunchOwnership>,
    plan: Seq<PlannedAction<'a>>,
    records: Seq<RecordView>,
) -> LaunchState<'a>
    decreases plan.len() - records.len(),
{
    if records.len() >= plan.len() {
        LaunchState::Done { container_id, ownership, records }
    } else {
        match plan[records.len() as int] {
            PlannedAction::Run(_) => LaunchState::Act { container_id, ownership, plan, records },
            PlannedAction::Skip(skipped) => settled(
                container_id,
                ownership,
                plan,
                records.push((skipped.action@, ActionStatus::Skipped { reason: skipped.reason })),
            ),
        }
    }
}

/// The state once it is known whether the moves are left out.
pub open spec fn planned<'a>(
    launch: SwayLaunch<'a>,
    container_id: i64,
    ownership: Option<LaunchOwnership>,
    skip_column: bool,
    skip_row: bool,
) -> LaunchState<'a> {
    settled(
        container_id,
        ownership,
        launch.plan(container_id, skip_column, skip_row),
        Seq::empty(),
    )
}

/// The state once it is known whether the move to the right is left out.
pub open spec fn column_known<'a>(
    launch: SwayLaunch<'a>,
    container_id: i64,
    ownership: Option<LaunchOwnership>,
    skip_column: bool,
) -> LaunchState<'a> {
    if launch.new_row {
        LaunchState::CheckRow { container_id, ownership, skip_column }
    } else {
        planned(launch, container_id, ownership, skip_column, false)
    }
}

/// The state once the window is known.
pub open spec fn window_known<'a>(
    launch: SwayLaunch<'a>,
    container_id: i64,
    ownership: Option<LaunchOwnership>,
) -> LaunchState<'a> {
    if launch.new_column {
        LaunchState::CheckColumn { container_id, ownership }
    } else {
        column_known(launch, container_id, ownership, false)
    }
}

/// The state at the start.
pub open spec fn started<'a>(launch: SwayLaunch<'a>) -> LaunchState<'a> {
    match launch.target {
        Target::Exec { .. } => LaunchState::Launch,
        Target::ConId(container_id) => window_known(launch, container_id, None),
        Target::Existing => LaunchState::Find,
    }
}

/// The action that launches the command.
pub open spec fn launching<'a>(launch: SwayLaunch<'a>) -> SwayAction<'a> {
    SwayAction::Exec {
        command: launch.target->command,
        app_id_match: launch.app_id_match,
        class_match: launch.class_match,
        verbose: launch.verbose,
        timeout: launch.timeout,
    }
}

/// The state after an event. An event that was not asked for changes nothing.
pub open spec fn next_state<'a>(
    launch: SwayLaunch<'a>,
    state: LaunchState<'a>,
    event: LaunchEvent,
) -> LaunchState<'a> {
    match (state, event) {
        (LaunchState::Launch, LaunchEvent::Ran(result)) => match result {
            Ok(result) => window_known(launch, result.container_id, result.launch_ownership),
            Err(error) => LaunchState::Failed(error@),
        },
        (LaunchState::Find, LaunchEvent::Tree(reply)) => match reply {
            Reply::Answer(tree) => {
                let matches = tree::sought_ids(
                    tree::preorder(tree),
                    launch.app_id_match@,
                    launch.class_match@,
                    launch.mark_match@,
                );
                if matches.len() == 1 {
                    window_known(launch, matches[0], None)
                } else {
                    LaunchState::Failed(
                        tree::matches_error(
                            matches,
                            query::criteria(
                                launch.app_id_match@,
                                launch.class_match@,
                                launch.mark_match@,
                            ),
                        ),
                    )
                }
            },
            _ => LaunchState::Failed(reply.error()->0),
        },
        (LaunchState::CheckColumn { container_id, ownership }, LaunchEvent::Relocation(result)) => {
            match result {
                Ok(relocates) => column_known(launch, container_id, ownership, relocates),
                Err(error) => LaunchState::Failed(error@),
            }
        },
        (
            LaunchState::CheckRow { container_id, ownership, skip_column },
            LaunchEvent::Relocation(result),
        ) => match result {
            Ok(relocates) => planned(launch, container_id, ownership, skip_column, relocates),
            Err(error) => LaunchState::Failed(error@),
        },
        (LaunchState::Act { container_id, ownership, plan, records }, LaunchEvent::Ran(result)) => {
            match result {
                Ok(result) => settled(
                    container_id,
                    ownership,
                    plan,
                    records.push(
                        (
                            plan[records.len() as int]->Run_0.verb(),
                            outcome::status_of(result.outcome),
                        ),
                    ),
                ),
                Err(error) => LaunchState::Failed(error@),
            }
        },
        _ => state,
    }
}

/// What is told of the window that is acted on.
pub open spec fn target_line(container_id: i64) -> Seq<char> {
    "Target container id: "@ + text::signed_decimal(container_id as int)
}

/// What is told of a move that is left out.
pub open spec fn skipped_line(
    flag: Seq<char>,
    container_id: i64,
    command: Seq<char>,
) -> Seq<char> {
    "Skipping "@ + flag + text::around(
        ": container id "@,
        container_id as int,
        " is at the trailing edge of a workspace already laid out along that axis, and more than one output exists — \""@,
    ) + command + "\" would relocate it to a different output instead of no-oping"@
}

/// What is told before anything is done for a window: which it is, where that
/// is known.
pub open spec fn announced(launch: SwayLaunch) -> Option<Seq<char>> {
    match launch.target {
        Target::ConId(container_id) => if launch.verbose {
            Some(target_line(container_id))
        } else {
            None
        },
        _ => None,
    }
}

/// What is told of an event in a state: nothing unless the run is to be
/// commented on.
pub open spec fn told<'a>(
    launch: SwayLaunch<'a>,
    state: LaunchState<'a>,
    event: LaunchEvent,
) -> Option<Seq<char>> {
    if !launch.verbose {
        None
    } else {
        match (state, event) {
            (LaunchState::Launch, LaunchEvent::Ran(Ok(result))) => Some(
                target_line(result.container_id),
            ),
            (LaunchState::Find, LaunchEvent::Tree(Reply::Answer(tree))) => {
                let matches = tree::sought_ids(
                    tree::preorder(tree),
                    launch.app_id_match@,
                    launch.class_match@,
                    launch.mark_match@,
                );
                if matches.len() == 1 {
                    Some(target_line(matches[0]))
                } else {
                    None
                }
            },
            (LaunchState::CheckColumn { container_id, .. }, LaunchEvent::Relocation(Ok(true))) => {
                Some(skipped_line("new-column"@, container_id, "move right"@))
            },
            (LaunchState::CheckRow { container_id, .. }, LaunchEvent::Relocation(Ok(true))) => Some(
                skipped_line("new-row"@, container_id, "move down"@),
            ),
            _ => None,
        }
    }
}

fn tell_target(container_id: i64) -> (line: String)
    ensures
        line@ == target_line(container_id),
{
    text::concat("Target container id: ", text::signed_decimal_text(container_id).as_str())
}

fn tell_skipped(flag: &str, container_id: i64, command: &str) -> (line: String)
    ensures
        line@ == skipped_line(flag@, container_id, command@),
{
    text::concat3(
        "Skipping ",
        flag,
        text::around_number(
            ": container id ",
            container_id,
            " is at the trailing edge of a workspace already laid out along that axis, and more than one output exists — \"",
        ).as_str(),
    ).concat(command).concat("\" would relocate it to a different output instead of no-oping")
}

/// Whether some actions are the plan for a container.
pub open spec fn is_plan<'a>(
    launch: SwayLaunch<'a>,
    container_id: i64,
    plan: Seq<PlannedAction<'a>>,
) -> bool {
    exists|skip_column: bool, skip_row: bool|
        plan == #[trigger] launch.plan(container_id, skip_column, skip_row)
}

/// Whether a state is one that a run can be in: while the plan is followed,
/// the next action is one to run, and all planned actions are for the window.
pub open spec fn state_well_formed<'a>(launch: SwayLaunch<'a>, state: LaunchState<'a>) -> bool {
    match state {
        LaunchState::Launch => launch.target is Exec,
        LaunchState::Act { container_id, plan, records, .. } => {
            &&& records.len() < plan.len()
            &&& plan[records.len() as int] is Run
            &&& is_plan(launch, container_id, plan)
        },
        _ => true,
    }
}

/// What is asked for in a state.
pub open spec fn asked<'a>(launch: SwayLaunch<'a>, state: LaunchState<'a>) -> LaunchRequest<'a> {
    match state {
        LaunchState::Launch => LaunchRequest::Run(launching(launch)),
        LaunchState::Find => LaunchRequest::ReadTree,
        LaunchState::CheckColumn { container_id, .. } => LaunchRequest::CheckRelocation {
            container_id,
            direction: MoveDirection::Right,
        },
        LaunchState::CheckRow { container_id, .. } => LaunchRequest::CheckRelocation {
            container_id,
            direction: MoveDirection::Down,
        },
        LaunchState::Act { plan, records, .. } => LaunchRequest::Run(
            plan[records.len() as int]->Run_0,
        ),
        LaunchState::Done { .. } | LaunchState::Failed(_) => LaunchRequest::Finish,
    }
}

/// No action of a plan is a launch, and each is for the planned window.
pub proof fn lemma_planned_actions(
    launch: SwayLaunch,
    container_id: i64,
    skip_column: bool,
    skip_row: bool,
)
    ensures
        forall|i: int|
            0 <= i < launch.plan(container_id, skip_column, skip_row).len() ==> match (
            #[trigger] launch.plan(container_id, skip_column, skip_row)[i]) {
                PlannedAction::Run(action) => action.target() == Some(container_id),
                PlannedAction::Skip(_) => true,
            },
{
    let plan = launch.plan(container_id, skip_column, skip_row);
    let settled = launch.settled_actions(container_id);
    lemma_present_targets(launch.wanted(container_id), container_id);
    let moves = plan.len() - settled.len();
    assert forall|i: int| 0 <= i < plan.len() implies match (#[trigger] plan[i]) {
        PlannedAction::Run(action) => action.target() == Some(container_id),
        PlannedAction::Skip(_) => true,
    } by {
        if i >= moves {
            assert(plan[i] == PlannedAction::Run(settled[i - moves]));
        }
    }
}

proof fn lemma_present_targets(wanted: Seq<Option<SwayAction>>, container_id: i64)
    requires
        forall|i: int|
            0 <= i < wanted.len() ==> match (#[trigger] wanted[i]) {
                Some(action) => action.target() == Some(container_id),
                None => true,
            },
    ensures
        forall|i: int|
            0 <= i < crate::launch::present(wanted).len() ==> (#[trigger] crate::launch::present(
                wanted,
            )[i]).target() == Some(container_id),
    decreases wanted.len(),
{
    if wanted.len() > 0 {
        let init = wanted.drop_last();
        assert forall|i: int| 0 <= i < init.len() implies match (#[trigger] init[i]) {
            Some(action) => action.target() == Some(container_id),
            None => true,
        } by {
            assert(init[i] == wanted[i]);
        }
        lemma_present_targets(init, container_id);
        assert(wanted[wanted.len() - 1] == wanted.last());
    }
}

/// Following the plan keeps a state well formed.
proof fn lemma_settled_well_formed<'a>(
    launch: SwayLaunch<'a>,
    container_id: i64,
    ownership: Option<LaunchOwnership>,
    plan: Seq<PlannedAction<'a>>,
    records: Seq<RecordView>,
)
    requires
        is_plan(launch, container_id, plan),
    ensures
        state_well_formed(launch, settled(container_id, ownership, plan, records)),
    decreases plan.len() - records.len(),
{
    if records.len() < plan.len() {
        match plan[records.len() as int] {
            PlannedAction::Skip(skipped) => {
                lemma_settled_well_formed(
                    launch,
                    container_id,
                    ownership,
                    plan,
                    records.push(
                        (skipped.action@, ActionStatus::Skipped { reason: skipped.reason }),
                    ),
                );
            },
            PlannedAction::Run(_) => {},
        }
    }
}

impl<'a> LaunchRun<'a> {
    /// Whether this run is in a state that a run can be in.
    pub open spec fn well_formed(self) -> bool {
        state_well_formed(self.launch, self.phase@)
    }

    fn settle(
        container_id: i64,
        ownership: Option<LaunchOwnership>,
        plan: Vec<PlannedAction<'a>>,
        recorded: Vec<ActionRecord>,
    ) -> (phase: LaunchPhase<'a>)
        requires
            recorded.len() <= plan.len(),
        ensures
            phase@ == settled(container_id, ownership, plan@, records_view(recorded@)),
    {
        let ghost start = records_view(recorded@);
        let mut records = recorded;
        while records.len() < plan.len()
            invariant
                records.len() <= plan.len(),
                start == records_view(recorded@),
                settled(container_id, ownership, plan@, start) == settled(
                    container_id,
                    ownership,
                    plan@,
                    records_view(records@),
                ),
            decreases plan.len() - records.len(),
        {
            match plan[records.len()] {
                PlannedAction::Run(_) => {
                    return LaunchPhase::Act { container_id, ownership, plan, records };
                },
                PlannedAction::Skip(skipped) => {
                    let ghost before = records@;
                    let record = ActionRecord {
                        action: skipped.action.to_owned(),
                        status: ActionStatus::Skipped { reason: skipped.reason },
                    };
                    records.push(record);
                    proof {
                        assert(records_view(records@) =~= records_view(before).push(
                            (skipped.action@, ActionStatus::Skipped { reason: skipped.reason }),
                        ));
                    }
                },
            }
        }
        LaunchPhase::Done(
            RunOutcome { container_id, actions: records, launch_ownership: ownership },
        )
    }

    fn plan_known(
        launch: &SwayLaunch<'a>,
        container_id: i64,
        ownership: Option<LaunchOwnership>,
        skip_column: bool,
        skip_row: bool,
    ) -> (phase: LaunchPhase<'a>)
        ensures
            phase@ == planned(*launch, container_id, ownership, skip_column, skip_row),
            state_well_formed(*launch, phase@),
    {
        let column_relocates: Result<bool, String> = Ok(skip_column);
        let row_relocates: Result<bool, String> = Ok(skip_row);
        let plan = match launch.build_actions(
            container_id,
            true,
            &column_relocates,
            &row_relocates,
        ) {
            Ok(plan) => plan,
            Err(_) => Vec::new(),
        };
        let records: Vec<ActionRecord> = Vec::new();
        proof {
            assert(plan@ =~= launch.plan(container_id, skip_column, skip_row));
            assert(records_view(records@) =~= Seq::<RecordView>::empty());
            lemma_settled_well_formed(*launch, container_id, ownership, plan@, Seq::empty());
        }
        Self::settle(container_id, ownership, plan, records)
    }

    fn column_settled(
        launch: &SwayLaunch<'a>,
        container_id: i64,
        ownership: Option<LaunchOwnership>,
        skip_column: bool,
    ) -> (phase: LaunchPhase<'a>)
        ensures
            phase@ == column_known(*launch, container_id, ownership, skip_column),
            state_well_formed(*launch, phase@),
    {
        if launch.new_row {
            LaunchPhase::CheckRow { container_id, ownership, skip_column }
        } else {
            Self::plan_known(launch, container_id, ownership, skip_column, false)
        }
    }

    fn window_found(
        launch: &SwayLaunch<'a>,
        container_id: i64,
        ownership: Option<LaunchOwnership>,
    ) -> (phase: LaunchPhase<'a>)
        ensures
            phase@ == window_known(*launch, container_id, ownership),
            state_well_formed(*launch, phase@),
    {
        if launch.new_column {
            LaunchPhase::CheckColumn { container_id, ownership }
        } else {
            Self::column_settled(launch, container_id, ownership, false)
        }
    }

    /// What this run asks for.
    pub fn request(&self) -> (request: LaunchRequest<'a>)
        requires
            self.well_formed(),
        ensures
            request == asked(self.launch, self.phase@),
    {
        match &self.phase {
            LaunchPhase::Launch => match self.launch.target {
                Target::Exec { command } => LaunchRequest::Run(
                    SwayAction::Exec {
                        command,
                        app_id_match: self.launch.app_id_match,
                        class_match: self.launch.class_match,
                        verbose: self.launch.verbose,
                        timeout: self.launch.timeout,
                    },
                ),
                _ => LaunchRequest::Finish,
            },
            LaunchPhase::Find => LaunchRequest::ReadTree,
            LaunchPhase::CheckColumn { container_id, .. } => LaunchRequest::CheckRelocation {
                container_id: *container_id,
                direction: MoveDirection::Right,
            },
            LaunchPhase::CheckRow { container_id, .. } => LaunchRequest::CheckRelocation {
                container_id: *container_id,
                direction: MoveDirection::Down,
            },
            LaunchPhase::Act { plan, records, .. } => match plan[records.len()] {
                PlannedAction::Run(action) => LaunchRequest::Run(action),
                PlannedAction::Skip(_) => LaunchRequest::Finish,
            },
            LaunchPhase::Done(_) | LaunchPhase::Failed(_) => LaunchRequest::Finish,
        }
    }

    /// What is told of an event.
    pub fn comment(&self, event: &LaunchEvent) -> (line: Option<String>)
        ensures
            text::opt_text(line) == told(self.launch, self.phase@, *event),
    {
        if !self.launch.verbose {
            return None;
        }
        match (&self.phase, event) {
            (LaunchPhase::Launch, LaunchEvent::Ran(Ok(result))) => Some(
                tell_target(result.container_id),
            ),
            (LaunchPhase::Find, LaunchEvent::Tree(Reply::Answer(tree))) => {
                let matches = matching_container_ids(
                    tree,
                    self.launch.app_id_match,
                    self.launch.class_match,
                    self.launch.mark_match,
                );
                if matches.len() == 1 {
                    Some(tell_target(matches[0]))
                } else {
                    None
                }
            },
            (LaunchPhase::CheckColumn { container_id, .. }, LaunchEvent::Relocation(result)) => {
                match result {
                    Ok(true) => Some(tell_skipped("new-column", *container_id, "move right")),
                    _ => None,
                }
            },
            (LaunchPhase::CheckRow { container_id, .. }, LaunchEvent::Relocation(result)) => {
                match result {
                    Ok(true) => Some(tell_skipped("new-row", *container_id, "move down")),
                    _ => None,
                }
            },
            _ => None,
        }
    }

    /// This run after an event.
    pub fn advance(self, event: LaunchEvent) -> (run: LaunchRun<'a>)
        requires
            self.well_formed(),
        ensures
            run.well_formed(),
            run.launch == self.launch,
            run.phase@ == next_state(self.launch, self.phase@, event),
    {
        let launch = self.launch;
        let phase = match (self.phase, event) {
            (LaunchPhase::Launch, LaunchEvent::Ran(result)) => match result {
                Ok(result) => Self::window_found(
                    &launch,
                    result.container_id,
                    result.launch_ownership,
                ),
                Err(error) => LaunchPhase::Failed(error),
            },
            (LaunchPhase::Find, LaunchEvent::Tree(reply)) => match find_existing_container_id(
                reply,
                launch.app_id_match,
                launch.class_match,
                launch.mark_match,
            ) {
                Ok(container_id) => Self::window_found(&launch, container_id, None),
                Err(error) => LaunchPhase::Failed(error),
            },
            (
                LaunchPhase::CheckColumn { container_id, ownership },
                LaunchEvent::Relocation(result),
            ) => match result {
                Ok(relocates) => Self::column_settled(&launch, container_id, ownership, relocates),
                Err(error) => LaunchPhase::Failed(error),
            },
            (
                LaunchPhase::CheckRow { container_id, ownership, skip_column },
                LaunchEvent::Relocation(result),
            ) => match result {
                Ok(relocates) => Self::plan_known(
                    &launch,
                    container_id,
                    ownership,
                    skip_column,
                    relocates,
                ),
                Err(error) => LaunchPhase::Failed(error),
            },
            (
                LaunchPhase::Act { container_id, ownership, plan, mut records },
                LaunchEvent::Ran(result),
            ) => match result {
                Ok(result) => {
                    let ghost before = records@;
                    proof {
                        let (skip_column, skip_row) = choose|skip_column: bool, skip_row: bool|
                            plan@ == #[trigger] launch.plan(container_id, skip_column, skip_row);
                        lemma_planned_actions(launch, container_id, skip_column, skip_row);
                        assert(records_view(before).len() == before.len());
                    }
                    if let PlannedAction::Run(action) = plan[records.len()] {
                        records.push(
                            ActionRecord {
                                action: action.sway_command_verb(),
                                status: action_status(result.outcome),
                            },
                        );
                        proof {
                            let record = (action.verb(), outcome::status_of(result.outcome));
                            assert(records_view(records@) =~= records_view(before).push(record));
                            lemma_settled_well_formed(
                                launch,
                                container_id,
                                ownership,
                                plan@,
                                records_view(records@),
                            );
                        }
                    }
                    Self::settle(container_id, ownership, plan, records)
                },
                Err(error) => LaunchPhase::Failed(error),
            },
            (phase, _) => phase,
        };
        LaunchRun { launch, phase }
    }

    /// The outcome of this run, or its error; nothing where it is not at its
    /// end.
    pub fn into_result(self) -> (result: Option<Result<RunOutcome, String>>)
        ensures
            match self.phase@ {
                LaunchState::Done { container_id, ownership, records } => result matches Some(
                    Ok(outcome),
                ) && outcome.container_id == container_id && outcome.launch_ownership == ownership
                    && records_view(outcome.actions@) == records,
                LaunchState::Failed(error) => result matches Some(Err(text)) && text@ == error,
                _ => result is None,
            },
    {
        match self.phase {
            LaunchPhase::Done(outcome) => Some(Ok(outcome)),
            LaunchPhase::Failed(error) => Some(Err(error)),
            _ => None,
        }
    }
}

impl<'a> SwayLaunch<'a> {
    /// What is told before anything is done for this window.
    pub fn announce(&self) -> (line: Option<String>)
        ensures
            text::opt_text(line) == announced(*self),
    {
        match self.target {
            Target::ConId(container_id) => if self.verbose {
                Some(tell_target(container_id))
            } else {
                None
            },
            _ => None,
        }
    }

    /// The run of the plan for this window, at its start.
    pub fn run(&self) -> (run: LaunchRun<'a>)
        ensures
            run.well_formed(),
            run.launch == *self,
            run.phase@ == started(*self),
    {
        let phase = match self.target {
            Target::Exec { .. } => LaunchPhase::Launch,
            Target::ConId(container_id) => LaunchRun::window_found(self, container_id, None),
            Target::Existing => LaunchPhase::Find,
        };
        LaunchRun { launch: *self, phase }
    }
}

/// The state after a sequence of events, from the start.
pub open spec fn state_after<'a>(launch: SwayLaunch<'a>, events: Seq<LaunchEvent>) -> LaunchState<
    'a,
>
    decreases events.len(),
{
    if events.len() == 0 {
        started(launch)
    } else {
        next_state(launch, state_after(launch, events.drop_last()), events.last())
    }
}

/// Whether a record is of a planned action: by its verb where it ran, by its
/// flag and the reason where it was left out.
pub open spec fn records_action(planned: PlannedAction, record: RecordView) -> bool {
    match planned {
        PlannedAction::Run(action) => record.0 == action.verb() && !(record.1 is Skipped),
        PlannedAction::Skip(skipped) => record == (
            skipped.action@,
            ActionStatus::Skipped { reason: skipped.reason },
        ),
    }
}

/// Whether some records are of the actions of a plan, from the first on.
pub open spec fn follows(plan: Seq<PlannedAction>, records: Seq<RecordView>) -> bool {
    &&& records.len() <= plan.len()
    &&& forall|i: int| 0 <= i < records.len() ==> records_action(plan[i], #[trigger] records[i])
}

/// Whether some records are of all actions of a plan for a container.
pub open spec fn plan_followed(
    launch: SwayLaunch,
    container_id: i64,
    records: Seq<RecordView>,
) -> bool {
    exists|skip_column: bool, skip_row: bool|
        {
            let plan = #[trigger] launch.plan(container_id, skip_column, skip_row);
            records.len() == plan.len() && follows(plan, records)
        }
}

/// Whether what a state has recorded is of the plan so far.
pub open spec fn state_follows<'a>(launch: SwayLaunch<'a>, state: LaunchState<'a>) -> bool {
    match state {
        LaunchState::Act { container_id, plan, records, .. } => is_plan(launch, container_id, plan)
            && follows(plan, records) && records.len() < plan.len()
            && plan[records.len() as int] is Run,
        LaunchState::Done { container_id, records, .. } => plan_followed(
            launch,
            container_id,
            records,
        ),
        _ => true,
    }
}

proof fn lemma_settled_follows<'a>(
    launch: SwayLaunch<'a>,
    container_id: i64,
    ownership: Option<LaunchOwnership>,
    plan: Seq<PlannedAction<'a>>,
    records: Seq<RecordView>,
)
    requires
        is_plan(launch, container_id, plan),
        follows(plan, records),
    ensures
        state_follows(launch, settled(container_id, ownership, plan, records)),
    decreases plan.len() - records.len(),
{
    if records.len() < plan.len() {
        match plan[records.len() as int] {
            PlannedAction::Skip(skipped) => {
                lemma_settled_follows(
                    launch,
                    container_id,
                    ownership,
                    plan,
                    records.push(
                        (skipped.action@, ActionStatus::Skipped { reason: skipped.reason }),
                    ),
                );
            },
            PlannedAction::Run(_) => {},
        }
    } else {
        let (skip_column, skip_row) = choose|skip_column: bool, skip_row: bool|
            plan == #[trigger] launch.plan(container_id, skip_column, skip_row);
        assert(records.len() == launch.plan(container_id, skip_column, skip_row).len());
        assert(plan_followed(launch, container_id, records));
    }
}

proof fn lemma_planned_follows<'a>(
    launch: SwayLaunch<'a>,
    container_id: i64,
    ownership: Option<LaunchOwnership>,
)
    ensures
        forall|skip_column: bool, skip_row: bool|
            state_follows(
                launch,
                #[trigger] planned(launch, container_id, ownership, skip_column, skip_row),
            ),
{
    assert forall|skip_column: bool, skip_row: bool|
        state_follows(
            launch,
            #[trigger] planned(launch, container_id, ownership, skip_column, skip_row),
        ) by {
        lemma_settled_follows(
            launch,
            container_id,
            ownership,
            launch.plan(container_id, skip_column, skip_row),
            Seq::empty(),
        );
    }
}

/// A run that ends well has one record for each action of its whole plan, in
/// the order of the plan.
pub proof fn law_a_finished_run_followed_its_whole_plan(
    launch: SwayLaunch,
    events: Seq<LaunchEvent>,
)
    ensures
        state_after(launch, events) matches LaunchState::Done { container_id, records, .. }
            ==> plan_followed(launch, container_id, records),
{
    lemma_state_follows(launch, events);
}

proof fn lemma_state_follows(launch: SwayLaunch, events: Seq<LaunchEvent>)
    ensures
        state_follows(launch, state_after(launch, events)),
    decreases events.len(),
{
    if events.len() == 0 {
        if let Target::ConId(container_id) = launch.target {
            lemma_planned_follows(launch, container_id, None);
        }
    } else {
        let before = state_after(launch, events.drop_last());
        lemma_state_follows(launch, events.drop_last());
        match (before, events.last()) {
            (LaunchState::Launch, LaunchEvent::Ran(Ok(result))) => {
                lemma_planned_follows(launch, result.container_id, result.launch_ownership);
            },
            (LaunchState::Find, LaunchEvent::Tree(Reply::Answer(tree))) => {
                let matches = tree::sought_ids(
                    tree::preorder(tree),
                    launch.app_id_match@,
                    launch.class_match@,
                    launch.mark_match@,
                );
                lemma_planned_follows(launch, matches[0], None);
            },
            (
                LaunchState::CheckColumn { container_id, ownership },
                LaunchEvent::Relocation(_),
            ) => {
                lemma_planned_follows(launch, container_id, ownership);
            },
            (
                LaunchState::CheckRow { container_id, ownership, .. },
                LaunchEvent::Relocation(_),
            ) => {
                lemma_planned_follows(launch, container_id, ownership);
            },
            (
                LaunchState::Act { container_id, ownership, plan, records },
                LaunchEvent::Ran(Ok(result)),
            ) => {
                lemma_settled_follows(
                    launch,
                    container_id,
                    ownership,
                    plan,
                    records.push(
                        (
                            plan[records.len() as int]->Run_0.verb(),
                            outcome::status_of(result.outcome),
                        ),
                    ),
                );
            },
            _ => {},
        }
    }
}

/// The window that a state acts on, and whose it is.
pub open spec fn window_in(state: LaunchState) -> Option<(i64, Option<LaunchOwnership>)> {
    match state {
        LaunchState::CheckColumn { container_id, ownership } => Some((container_id, ownership)),
        LaunchState::CheckRow { container_id, ownership, .. } => Some((container_id, ownership)),
        LaunchState::Act { container_id, ownership, .. } => Some((container_id, ownership)),
        LaunchState::Done { container_id, ownership, .. } => Some((container_id, ownership)),
        _ => None,
    }
}

proof fn lemma_settled_window<'a>(
    container_id: i64,
    ownership: Option<LaunchOwnership>,
    plan: Seq<PlannedAction<'a>>,
    records: Seq<RecordView>,
)
    ensures
        window_in(settled(container_id, ownership, plan, records)) == Some(
            (container_id, ownership),
        ),
    decreases plan.len() - records.len(),
{
    if records.len() < plan.len() {
        if let PlannedAction::Skip(skipped) = plan[records.len() as int] {
            lemma_settled_window(
                container_id,
                ownership,
                plan,
                records.push((skipped.action@, ActionStatus::Skipped { reason: skipped.reason })),
            );
        }
    }
}

proof fn lemma_planned_window(
    launch: SwayLaunch,
    container_id: i64,
    ownership: Option<LaunchOwnership>,
)
    ensures
        forall|skip_column: bool, skip_row: bool|
            window_in(#[trigger] planned(launch, container_id, ownership, skip_column, skip_row))
                == Some((container_id, ownership)),
        window_in(window_known(launch, container_id, ownership)) == Some((container_id, ownership)),
{
    assert forall|skip_column: bool, skip_row: bool|
        window_in(#[trigger] planned(launch, container_id, ownership, skip_column, skip_row))
            == Some((container_id, ownership)) by {
        lemma_settled_window(
            container_id,
            ownership,
            launch.plan(container_id, skip_column, skip_row),
            Seq::empty(),
        );
    }
}

/// The window that a run acts on, and whose it is, never change once they are
/// known.
pub proof fn law_the_window_never_changes<'a>(
    launch: SwayLaunch<'a>,
    state: LaunchState<'a>,
    event: LaunchEvent,
)
    requires
        window_in(state) is Some,
    ensures
        next_state(launch, state, event) is Failed || window_in(next_state(launch, state, event))
            == window_in(state),
{
    let (container_id, ownership) = window_in(state)->0;
    lemma_planned_window(launch, container_id, ownership);
    if let (LaunchState::Act { plan, records, .. }, LaunchEvent::Ran(Ok(result))) = (state, event) {
        lemma_settled_window(
            container_id,
            ownership,
            plan,
            records.push(
                (
                    plan[records.len() as int]->Run_0.verb(),
                    outcome::status_of(result.outcome),
                ),
            ),
        );
    }
}

/// Where a run is to be commented on, the window is told when it becomes known,
/// and only then: before anything is done for a given container, else with the
/// event that shows which window it is.
pub proof fn law_the_window_is_told_when_it_becomes_known<'a>(
    launch: SwayLaunch<'a>,
    state: LaunchState<'a>,
    event: LaunchEvent,
)
    requires
        launch.verbose,
    ensures
        announced(launch) == match window_in(started(launch)) {
            Some((container_id, _)) => Some(target_line(container_id)),
            None => None,
        },
        window_in(state) is None ==> told(launch, state, event) == match window_in(
            next_state(launch, state, event),
        ) {
            Some((container_id, _)) => Some(target_line(container_id)),
            None => None,
        },
{
    if let Target::ConId(container_id) = launch.target {
        lemma_planned_window(launch, container_id, None);
    }
    match (state, event) {
        (LaunchState::Launch, LaunchEvent::Ran(Ok(result))) => {
            lemma_planned_window(launch, result.container_id, result.launch_ownership);
        },
        (LaunchState::Find, LaunchEvent::Tree(Reply::Answer(tree))) => {
            let matches = tree::sought_ids(
                tree::preorder(tree),
                launch.app_id_match@,
                launch.class_match@,
                launch.mark_match@,
            );
            lemma_planned_window(launch, matches[0], None);
        },
        _ => {},
    }
}

/// A run on a given container acts on that container from its start to its end,
/// and does not claim its window.
pub proof fn law_a_given_container_is_kept(
    launch: SwayLaunch,
    container_id: i64,
    events: Seq<LaunchEvent>,
)
    requires
        launch.target == Target::ConId(container_id),
    ensures
        state_after(launch, events) is Failed || window_in(state_after(launch, events)) == Some(
            (container_id, None::<LaunchOwnership>),
        ),
    decreases events.len(),
{
    if events.len() == 0 {
        lemma_planned_window(launch, container_id, None);
    } else {
        let before = state_after(launch, events.drop_last());
        law_a_given_container_is_kept(launch, container_id, events.drop_last());
        if window_in(before) is Some {
            law_the_window_never_changes(launch, before, events.last());
        }
    }
}

/// Whether an event is that the launching action gave a window and said whose
/// it is.
pub open spec fn launch_gave(
    launch: SwayLaunch,
    events: Seq<LaunchEvent>,
    at: int,
    window: (i64, Option<LaunchOwnership>),
) -> bool {
    &&& 0 <= at < events.len()
    &&& state_after(launch, events.take(at)) is Launch
    &&& events[at] matches LaunchEvent::Ran(Ok(result))
    &&& window == (result.container_id, result.launch_ownership)
}

/// What a launching action gave stands with an event added behind.
proof fn lemma_launch_gave_stays(
    launch: SwayLaunch,
    events: Seq<LaunchEvent>,
    at: int,
    window: (i64, Option<LaunchOwnership>),
)
    requires
        events.len() > 0,
        launch_gave(launch, events.drop_last(), at, window),
    ensures
        launch_gave(launch, events, at, window),
{
    assert(events.drop_last().take(at) =~= events.take(at));
    assert(events.drop_last()[at] == events[at]);
}

/// While a run launches, an event keeps its window or is what gives it.
proof fn lemma_launch_step<'a>(
    launch: SwayLaunch<'a>,
    before: LaunchState<'a>,
    event: LaunchEvent,
)
    requires
        before is Launch || before is Failed || window_in(before) is Some,
    ensures
        ({
            let after = next_state(launch, before, event);
            &&& after is Launch || after is Failed || window_in(after) is Some
            &&& window_in(after) is Some ==> {
                ||| window_in(after) == window_in(before)
                ||| (event matches LaunchEvent::Ran(Ok(result)) && before is Launch && window_in(
                    after,
                ) == Some((result.container_id, result.launch_ownership)))
            }
        }),
{
    if window_in(before) is Some {
        law_the_window_never_changes(launch, before, event);
    } else if let (LaunchState::Launch, LaunchEvent::Ran(Ok(result))) = (before, event) {
        lemma_planned_window(launch, result.container_id, result.launch_ownership);
    }
}

/// A run that launches a command acts on the window that its launching action
/// gave, and ends with what that action said of whose it is.
pub proof fn law_a_launch_keeps_what_its_action_gave(launch: SwayLaunch, events: Seq<LaunchEvent>)
    requires
        launch.target is Exec,
    ensures
        state_after(launch, events) is Launch || state_after(launch, events) is Failed || window_in(
            state_after(launch, events),
        ) is Some,
        window_in(state_after(launch, events)) matches Some(window) ==> exists|at: int| #[trigger]
            launch_gave(launch, events, at, window),
    decreases events.len(),
{
    if events.len() > 0 {
        let init = events.drop_last();
        let last = events.len() - 1;
        let before = state_after(launch, init);
        let after = next_state(launch, before, events.last());
        assert(state_after(launch, events) == after);
        law_a_launch_keeps_what_its_action_gave(launch, init);
        lemma_launch_step(launch, before, events.last());
        if let Some(window) = window_in(after) {
            if window_in(before) == Some(window) {
                let at = choose|at: int| #[trigger] launch_gave(launch, init, at, window);
                lemma_launch_gave_stays(launch, events, at, window);
            } else {
                assert(events.take(last) =~= init);
                assert(launch_gave(launch, events, last, window));
            }
        }
    }
}

/// A window that was open already is never claimed as launched.
pub proof fn law_an_open_window_is_not_claimed(launch: SwayLaunch, events: Seq<LaunchEvent>)
    requires
        !(launch.target is Exec),
    ensures
        window_in(state_after(launch, events)) matches Some((_, ownership)) ==> ownership is None,
        !(state_after(launch, events) is Launch),
    decreases events.len(),
{
    if events.len() == 0 {
        if let Target::ConId(container_id) = launch.target {
            lemma_planned_window(launch, container_id, None);
        }
    } else {
        let before = state_after(launch, events.drop_last());
        law_an_open_window_is_not_claimed(launch, events.drop_last());
        if window_in(before) is Some {
            law_the_window_never_changes(launch, before, events.last());
        } else if let (LaunchState::Find, LaunchEvent::Tree(Reply::Answer(tree))) = (
            before,
            events.last(),
        ) {
            let matches = tree::sought_ids(
                tree::preorder(tree),
                launch.app_id_match@,
                launch.class_match@,
                launch.mark_match@,
            );
            lemma_planned_window(launch, matches[0], None);
        }
    }
}

/// What a run asks for first: to launch the user's whole command, by the app id
/// and the class that were given and within the given time limit; to read the
/// tree for an open window; or, for a given container, whether its moves are
/// safe or its first action.
pub proof fn law_what_a_run_asks_for_first(launch: SwayLaunch)
    ensures
        match launch.target {
            Target::Exec { command } => {
                &&& asked(launch, started(launch)) matches LaunchRequest::Run(action)
                &&& action == (SwayAction::Exec {
                    command,
                    app_id_match: launch.app_id_match,
                    class_match: launch.class_match,
                    verbose: launch.verbose,
                    timeout: launch.timeout,
                })
            },
            Target::Existing => asked(launch, started(launch)) is ReadTree,
            Target::ConId(container_id) => {
                &&& launch.new_column ==> asked(launch, started(launch)) == (
                LaunchRequest::CheckRelocation { container_id, direction: MoveDirection::Right })
                &&& !launch.new_column && launch.new_row ==> asked(launch, started(launch)) == (
                LaunchRequest::CheckRelocation { container_id, direction: MoveDirection::Down })
                &&& !launch.new_column && !launch.new_row ==> started(launch) == settled(
                    container_id,
                    None,
                    launch.plan(container_id, false, false),
                    Seq::empty(),
                )
            },
        },
{
}

/// A launch that fails, an open window that cannot be found as the only one, a
/// check that fails and an action that fails each end a run with the report of
/// just that; nothing more is asked for.
pub proof fn law_a_failure_ends_a_run<'a>(
    launch: SwayLaunch<'a>,
    state: LaunchState<'a>,
    error: String,
)
    ensures
        state is Launch || state is Act ==> next_state(
            launch,
            state,
            LaunchEvent::Ran(Err(error)),
        ) == LaunchState::Failed(error@),
        state is CheckColumn || state is CheckRow ==> next_state(
            launch,
            state,
            LaunchEvent::Relocation(Err(error)),
        ) == LaunchState::Failed(error@),
        state is Failed || state is Done ==> asked(launch, state) is Finish,
        asked(launch, state) is Finish ==> state is Failed || state is Done,
{
}

/// An open window is taken where it is the only one that is looked for, and
/// else the run fails with what the search found.
pub proof fn law_an_open_window_has_to_be_the_only_one<'a>(
    launch: SwayLaunch<'a>,
    tree: Node,
    id: i64,
)
    requires
        tree::ids_distinct(tree::preorder(tree)),
    ensures
        ({
            let next = next_state(
                launch,
                LaunchState::Find,
                LaunchEvent::Tree(Reply::Answer(tree)),
            );
            let is_sought = |node: Node|
                tree::is_looked_for(
                    node,
                    launch.app_id_match@,
                    launch.class_match@,
                    launch.mark_match@,
                );
            &&& (exists|node: Node| #[trigger]
                tree::preorder(tree).contains(node) && node.id == id && is_sought(node)) && (
            forall|node: Node| #[trigger]
                tree::preorder(tree).contains(node) && is_sought(node) ==> node.id == id)
                ==> window_in(next) == Some((id, None::<LaunchOwnership>))
            &&& (forall|node: Node| #[trigger]
                tree::preorder(tree).contains(node) ==> !is_sought(node)) ==> next
                == LaunchState::Failed(
                "No existing window matches "@ + query::criteria(
                    launch.app_id_match@,
                    launch.class_match@,
                    launch.mark_match@,
                ),
            )
        }),
{
    let (a, c, m) = (launch.app_id_match@, launch.class_match@, launch.mark_match@);
    let matches = tree::sought_ids(tree::preorder(tree), a, c, m);
    tree::law_one_window_is_found_where_one_is_looked_for(tree, a, c, m, id);
    tree::law_a_search_finds_what_is_looked_for(tree, a, c, m);
    lemma_planned_window(launch, matches[0], None);
    if matches.len() > 0 {
        assert(matches.contains(matches[0]));
    }
}

/// Whether a move is left out is decided by the answer to its own check: a move
/// to the right that would take the window to another output is recorded as left
/// out, and one that would not is the first thing that runs; a move down comes
/// after it, and is decided by its own answer in the same way.
pub proof fn law_a_move_is_decided_by_its_own_check<'a>(
    launch: SwayLaunch<'a>,
    container_id: i64,
    ownership: Option<LaunchOwnership>,
    skip_column: bool,
    relocates: bool,
)
    ensures
        launch.new_column && !launch.new_row ==> next_state(
            launch,
            LaunchState::CheckColumn { container_id, ownership },
            LaunchEvent::Relocation(Ok(relocates)),
        ) == settled(
            container_id,
            ownership,
            launch.plan(container_id, relocates, false),
            Seq::empty(),
        ),
        launch.new_column && launch.new_row ==> {
            let next = next_state(
                launch,
                LaunchState::CheckColumn { container_id, ownership },
                LaunchEvent::Relocation(Ok(relocates)),
            );
            &&& next == (LaunchState::CheckRow {
                container_id,
                ownership,
                skip_column: relocates,
            })
            &&& asked(launch, next) == (LaunchRequest::CheckRelocation {
                container_id,
                direction: MoveDirection::Down,
            })
        },
        asked(launch, LaunchState::CheckColumn { container_id, ownership }) == (
        LaunchRequest::CheckRelocation { container_id, direction: MoveDirection::Right }),
        next_state(
            launch,
            LaunchState::CheckRow { container_id, ownership, skip_column },
            LaunchEvent::Relocation(Ok(relocates)),
        ) == settled(
            container_id,
            ownership,
            launch.plan(container_id, skip_column, relocates),
            Seq::empty(),
        ),
{
}

/// Following a plan from where it is: what is left out is recorded at once, with
/// its reason; the next action to run is what is asked for; and once there is
/// none, the run is done, with the window, whose it is, and all that is recorded.
pub proof fn law_a_plan_is_followed_action_by_action<'a>(
    launch: SwayLaunch<'a>,
    container_id: i64,
    ownership: Option<LaunchOwnership>,
    plan: Seq<PlannedAction<'a>>,
    records: Seq<RecordView>,
)
    requires
        records.len() <= plan.len(),
    ensures
        records.len() == plan.len() ==> settled(container_id, ownership, plan, records) == (
        LaunchState::Done { container_id, ownership, records }),
        records.len() < plan.len() ==> match plan[records.len() as int] {
            PlannedAction::Run(action) => {
                let state = settled(container_id, ownership, plan, records);
                &&& state == (LaunchState::Act { container_id, ownership, plan, records })
                &&& asked(launch, state) == LaunchRequest::Run(action)
            },
            PlannedAction::Skip(skipped) => settled(container_id, ownership, plan, records)
                == settled(
                container_id,
                ownership,
                plan,
                records.push((skipped.action@, ActionStatus::Skipped { reason: skipped.reason })),
            ),
        },
{
}

/// What an action came to is recorded under its command without the container:
/// a change as changed, a state that held as satisfied already, a change that
/// was not seen as unconfirmed; and the plan is followed from there.
pub proof fn law_what_an_action_came_to_is_recorded<'a>(
    launch: SwayLaunch<'a>,
    container_id: i64,
    ownership: Option<LaunchOwnership>,
    plan: Seq<PlannedAction<'a>>,
    records: Seq<RecordView>,
    action: SwayAction<'a>,
    result: ActionResult,
)
    requires
        records.len() < plan.len(),
        plan[records.len() as int] == PlannedAction::Run(action),
    ensures
        next_state(
            launch,
            LaunchState::Act { container_id, ownership, plan, records },
            LaunchEvent::Ran(Ok(result)),
        ) == settled(
            container_id,
            ownership,
            plan,
            records.push(
                (
                    action.verb(),
                    match result.outcome {
                        ActionOutcome::Changed => ActionStatus::Changed,
                        ActionOutcome::AlreadySatisfied => ActionStatus::AlreadySatisfied,
                        ActionOutcome::Unconfirmed => ActionStatus::Unconfirmed,
                    },
                ),
            ),
        ),
{
}

/// What a run of an action ends with is what it reports: a launch its window and
/// whose it is, an action that an event confirms its container and what was
/// observed, and an action by the clock its own container, as changed where the
/// effect was seen and as unconfirmed where it was not. An error is reported as
/// it is, and a run that is not at its end reports nothing.
pub proof fn law_the_end_of_a_run_is_its_report(run: ActionRun)
    ensures
        match run {
            ActionRun::Exec(run) => {
                let end = action_end(ActionRun::Exec(run));
                &&& run.phase matches ExecWaitPhase::Done { container_id, ownership } ==> end
                    == Some(
                    Ok::<ActionResult, Seq<char>>(
                        ActionResult {
                            container_id,
                            outcome: ActionOutcome::Changed,
                            launch_ownership: Some(ownership),
                        },
                    ),
                )
                &&& run.phase matches ExecWaitPhase::Failed(error) ==> end == Some(
                    Err::<ActionResult, Seq<char>>(error@),
                )
                &&& end is Some <==> run.phase is Done || run.phase is Failed
            },
            ActionRun::Events(run) => {
                let end = action_end(ActionRun::Events(run));
                &&& run.phase matches EventWaitPhase::Done { container_id, outcome } ==> end
                    == Some(
                    Ok::<ActionResult, Seq<char>>(
                        ActionResult { container_id, outcome, launch_ownership: None },
                    ),
                )
                &&& run.phase matches EventWaitPhase::Failed(error) ==> end == Some(
                    Err::<ActionResult, Seq<char>>(error@),
                )
                &&& end is Some <==> run.phase is Done || run.phase is Failed
            },
            ActionRun::WaitTime(run) => {
                let end = action_end(ActionRun::WaitTime(run));
                &&& run.phase matches WaitTimePhase::Done { confirmed } ==> end == Some(
                    Ok::<ActionResult, Seq<char>>(
                        ActionResult {
                            container_id: run.action.target()->0,
                            outcome: if confirmed {
                                ActionOutcome::Changed
                            } else {
                                ActionOutcome::Unconfirmed
                            },
                            launch_ownership: None,
                        },
                    ),
                )
                &&& run.phase matches WaitTimePhase::Failed(error) ==> end == Some(
                    Err::<ActionResult, Seq<char>>(error@),
                )
                &&& end is Some <==> run.phase is Done || run.phase is Failed
            },
        },
{
}

/// What is told of a run: the window once it is known, and each move that is
/// left out, with its flag and its command; nothing unless it is to be commented
/// on.
pub proof fn law_what_is_told_of_a_plan<'a>(
    launch: SwayLaunch<'a>,
    state: LaunchState<'a>,
    event: LaunchEvent,
    container_id: i64,
    ownership: Option<LaunchOwnership>,
    skip_column: bool,
)
    ensures
        !launch.verbose ==> announced(launch) is None && told(launch, state, event) is None,
        target_line(container_id) == "Target container id: "@ + text::signed_decimal(
            container_id as int,
        ),
        launch.verbose ==> told(
            launch,
            LaunchState::CheckColumn { container_id, ownership },
            LaunchEvent::Relocation(Ok(true)),
        ) == Some(
            "Skipping new-column: container id "@ + text::signed_decimal(container_id as int)
                + " is at the trailing edge of a workspace already laid out along that axis, and more than one output exists — \"move right\" would relocate it to a different output instead of no-oping"@,
        ),
        launch.verbose ==> told(
            launch,
            LaunchState::CheckRow { container_id, ownership, skip_column },
            LaunchEvent::Relocation(Ok(true)),
        ) == Some(
            "Skipping new-row: container id "@ + text::signed_decimal(container_id as int)
                + " is at the trailing edge of a workspace already laid out along that axis, and more than one output exists — \"move down\" would relocate it to a different output instead of no-oping"@,
        ),
{
    lemma_skipped_lines(container_id);
}

proof fn lemma_skipped_lines(container_id: i64)
    ensures
        skipped_line("new-column"@, container_id, "move right"@)
            == "Skipping new-column: container id "@ + text::signed_decimal(container_id as int)
            + " is at the trailing edge of a workspace already laid out along that axis, and more than one output exists — \"move right\" would relocate it to a different output instead of no-oping"@,
        skipped_line("new-row"@, container_id, "move down"@) == "Skipping new-row: container id "@
            + text::signed_decimal(container_id as int)
            + " is at the trailing edge of a workspace already laid out along that axis, and more than one output exists — \"move down\" would relocate it to a different output instead of no-oping"@,
{
    reveal_strlit("Skipping ");
    reveal_strlit("new-column");
    reveal_strlit("new-row");
    reveal_strlit(": container id ");
    reveal_strlit("Skipping new-column: container id ");
    reveal_strlit("Skipping new-row: container id ");
    reveal_strlit(
        " is at the trailing edge of a workspace already laid out along that axis, and more than one output exists — \"",
    );
    reveal_strlit("move right");
    reveal_strlit("move down");
    reveal_strlit("\" would relocate it to a different output instead of no-oping");
    reveal_strlit(
        " is at the trailing edge of a workspace already laid out along that axis, and more than one output exists — \"move right\" would relocate it to a different output instead of no-oping",
    );
    reveal_strlit(
        " is at the trailing edge of a workspace already laid out along that axis, and more than one output exists — \"move down\" would relocate it to a different output instead of no-oping",
    );
}

/// The records of a run are seen as they are: the name and the status of each.
pub proof fn law_records_are_seen_as_they_are(records: Seq<ActionRecord>, i: int)
    requires
        0 <= i < records.len(),
    ensures
        records_view(records).len() == records.len(),
        records_view(records)[i] == (records[i].action@, records[i].status),
{
}

/// The end of a run is seen as it is: the window, whose it is and what was
/// recorded, or the report of what failed.
pub proof fn law_the_end_of_a_plan_is_seen_as_it_is(phase: LaunchPhase)
    ensures
        phase matches LaunchPhase::Done(outcome) ==> phase@ == (LaunchState::Done {
            container_id: outcome.container_id,
            ownership: outcome.launch_ownership,
            records: records_view(outcome.actions@),
        }),
        phase matches LaunchPhase::Failed(error) ==> phase@ == LaunchState::Failed(error@),
        phase@ is Done <==> phase is Done,
        phase@ is Failed <==> phase is Failed,
{
}

/// An event that was not asked for changes nothing.
pub proof fn law_only_what_was_asked_for_counts<'a>(
    launch: SwayLaunch<'a>,
    state: LaunchState<'a>,
    event: LaunchEvent,
)
    ensures
        ({
            let request = asked(launch, state);
            let answers = match event {
                LaunchEvent::Ran(_) => request is Run,
                LaunchEvent::Tree(_) => request is ReadTree,
                LaunchEvent::Relocation(_) => request is CheckRelocation,
            };
            !answers ==> next_state(launch, state, event) == state
        }),
{
}

/// A tree that could not be read ends the search for an open window with the
/// reason.
pub proof fn law_a_search_that_cannot_be_made_ends_a_run<'a>(
    launch: SwayLaunch<'a>,
    reply: Reply<Node>,
)
    requires
        !(reply is Answer),
    ensures
        next_state(launch, LaunchState::Find, LaunchEvent::Tree(reply)) == LaunchState::Failed(
            reply.error()->0,
        ),
{
}

} // verus!
