//! Taking the steps of a layout one after the other, up to the first that
//! fails.

use crate::launch::SwayLaunch;
use crate::layout::{LayoutStep, ResolvedIds};
use crate::template::{Bindings, Template};
use crate::template;
use crate::text;
use crate::time::Duration;
use vstd::prelude::*;

verus! {

broadcast use vstd::string::group_string_axioms;

/// The containers that named steps resolved to, given the containers that the
/// first steps resolved to.
pub open spec fn names_after(steps: Seq<LayoutStep>, container_ids: Seq<i64>) -> Map<Seq<char>, i64>
    decreases container_ids.len(),
{
    if container_ids.len() == 0 {
        Map::empty()
    } else {
        let before = names_after(steps, container_ids.drop_last());
        match steps[container_ids.len() - 1].id {
            Some(id) => before.insert(id@, container_ids.last()),
            None => before,
        }
    }
}

/// What is reported of a step that fails; steps are counted from one.
pub open spec fn step_error(index: nat, error: Seq<char>) -> Seq<char> {
    "step "@ + text::decimal(index + 1) + ": "@ + error
}

/// What is wrong with a step, given what the steps before it resolved to: that
/// its name is taken, or what keeps it from being converted.
pub open spec fn step_fault(steps: Seq<LayoutStep>, container_ids: Seq<i64>) -> Option<Seq<char>> {
    let step = steps[container_ids.len() as int];
    let names = names_after(steps, container_ids);
    match step.id {
        Some(id) => if names.contains_key(id@) {
            Some("id "@ + text::debug_form(id@) + " was already used by an earlier step"@)
        } else {
            step.fault(names)
        },
        None => step.fault(names),
    }
}

/// What a run of steps asks for.
#[derive(Debug)]
pub enum StepsRequest<'a> {
    /// That a window is acted on.
    Launch(SwayLaunch<'a>),
    /// Nothing more: the containers of all steps, or the report of the step
    /// that failed.
    Finish(Result<Vec<i64>, String>),
}

/// A run of steps: what the steps so far resolved to, and the report of a step
/// that failed.
pub struct StepsRun<'a> {
    steps: &'a Vec<LayoutStep>,
    default_timeout: Duration,
    default_wait_time: Duration,
    verbose: bool,
    container_ids: Vec<i64>,
    resolved_ids: ResolvedIds,
    failure: Option<String>,
}

fn report_step(index: usize, error: &str) -> (report: String)
    ensures
        report@ == step_error(index as nat, error@),
{
    text::concat3("step ", text::decimal_text(index as u128 + 1).as_str(), ": ").concat(error)
}

impl<'a> StepsRun<'a> {
    /// The steps that are taken.
    pub closed spec fn steps(self) -> Seq<LayoutStep> {
        self.steps@
    }

    /// The time limit and the time to wait of a step that has none of its own,
    /// and whether to comment.
    pub closed spec fn defaults(self) -> (Duration, Duration, bool) {
        (self.default_timeout, self.default_wait_time, self.verbose)
    }

    /// The containers that the steps so far resolved to.
    pub closed spec fn container_ids(self) -> Seq<i64> {
        self.container_ids@
    }

    /// The report of the step that failed.
    pub closed spec fn failure(self) -> Option<Seq<char>> {
        text::opt_text(self.failure)
    }

    /// Whether the names are those of the steps so far.
    pub closed spec fn well_formed(self) -> bool {
        &&& self.container_ids.len() <= self.steps.len()
        &&& self.resolved_ids@ == names_after(self.steps@, self.container_ids@)
    }

    /// Whether the next step can be taken.
    pub open spec fn can_go_on(self) -> bool {
        &&& self.failure() is None
        &&& self.container_ids().len() < self.steps().len()
        &&& step_fault(self.steps(), self.container_ids()) is None
    }

    /// A run of steps, at its start.
    pub fn start(
        steps: &'a Vec<LayoutStep>,
        default_timeout: Duration,
        default_wait_time: Duration,
        verbose: bool,
    ) -> (run: StepsRun<'a>)
        ensures
            run.well_formed(),
            run.steps() == steps@,
            run.defaults() == (default_timeout, default_wait_time, verbose),
            run.container_ids() == Seq::<i64>::empty(),
            run.failure() is None,
    {
        StepsRun {
            steps,
            default_timeout,
            default_wait_time,
            verbose,
            container_ids: Vec::new(),
            resolved_ids: ResolvedIds::new(),
            failure: None,
        }
    }

    /// What this run asks for: the next step, or nothing more once all steps
    /// are taken, a step has failed, or the next one is faulty.
    pub fn request(&self) -> (request: StepsRequest<'a>)
        requires
            self.well_formed(),
        ensures
            match request {
                StepsRequest::Launch(launch) => {
                    let (timeout, wait_time, verbose) = self.defaults();
                    self.can_go_on() && self.steps()[self.container_ids().len() as int].says(
                        launch,
                        timeout,
                        wait_time,
                        verbose,
                        names_after(self.steps(), self.container_ids()),
                    )
                },
                StepsRequest::Finish(Ok(container_ids)) => {
                    &&& self.failure() is None
                    &&& self.container_ids().len() == self.steps().len()
                    &&& container_ids@ == self.container_ids()
                },
                StepsRequest::Finish(Err(error)) => match self.failure() {
                    Some(failure) => error@ == failure,
                    None => {
                        &&& self.container_ids().len() < self.steps().len()
                        &&& step_fault(self.steps(), self.container_ids()) is Some
                        &&& error@ == step_error(
                            self.container_ids().len(),
                            step_fault(self.steps(), self.container_ids())->0,
                        )
                    },
                },
            },
    {
        if let Some(failure) = &self.failure {
            return StepsRequest::Finish(Err(failure.clone()));
        }
        let index: usize = self.container_ids.len();
        if index == self.steps.len() {
            return StepsRequest::Finish(Ok(copy_ids(&self.container_ids)));
        }
        match self.convert(index) {
            Ok(launch) => StepsRequest::Launch(launch),
            Err(error) => StepsRequest::Finish(Err(report_step(index, error.as_str()))),
        }
    }

    fn convert(&self, index: usize) -> (result: Result<SwayLaunch<'a>, String>)
        requires
            self.well_formed(),
            index == self.container_ids().len(),
            index < self.steps().len(),
        ensures
            match result {
                Ok(launch) => step_fault(self.steps(), self.container_ids()) is None
                    && self.steps()[index as int].says(
                    launch,
                    self.defaults().0,
                    self.defaults().1,
                    self.defaults().2,
                    names_after(self.steps(), self.container_ids()),
                ),
                Err(error) => step_fault(self.steps(), self.container_ids()) == Some(error@),
            },
    {
        let step = &self.steps[index];
        if let Some(id) = &step.id {
            if self.resolved_ids.contains_key(id.as_str()) {
                return Err(
                    text::concat3(
                        "id ",
                        text::debug_text(id.as_str()).as_str(),
                        " was already used by an earlier step",
                    ),
                );
            }
        }
        step.to_sway_launch(
            self.default_timeout,
            self.default_wait_time,
            self.verbose,
            &self.resolved_ids,
        )
    }

    /// This run after the step that it asked for: the container that the step
    /// resolved to, or why it failed. Where no step was asked for, nothing
    /// changes.
    pub fn advance(self, result: Result<i64, String>) -> (run: StepsRun<'a>)
        requires
            self.well_formed(),
        ensures
            run.well_formed(),
            run.steps() == self.steps(),
            run.defaults() == self.defaults(),
            run.container_ids() == match result {
                Ok(container_id) => if self.can_go_on() {
                    self.container_ids().push(container_id)
                } else {
                    self.container_ids()
                },
                Err(_) => self.container_ids(),
            },
            run.failure() == match result {
                Ok(_) => self.failure(),
                Err(error) => if self.can_go_on() {
                    Some(step_error(self.container_ids().len(), error@))
                } else {
                    self.failure()
                },
            },
    {
        let mut run = self;
        let index: usize = run.container_ids.len();
        if run.failure.is_some() || index == run.steps.len() || run.convert(index).is_err() {
            return run;
        }
        match result {
            Ok(container_id) => {
                if let Some(id) = &run.steps[index].id {
                    run.resolved_ids.insert(id.clone(), container_id);
                }
                run.container_ids.push(container_id);
                proof {
                    assert(run.container_ids@.drop_last() =~= self.container_ids@);
                }
            },
            Err(error) => {
                run.failure = Some(report_step(index, error.as_str()));
            },
        }
        run
    }
}

fn copy_ids(ids: &Vec<i64>) -> (copy: Vec<i64>)
    ensures
        copy@ == ids@,
{
    let mut copy: Vec<i64> = Vec::new();
    let mut i: usize = 0;
    while i < ids.len()
        invariant
            i <= ids.len(),
            copy@ == ids@.take(i as int),
        decreases ids.len() - i,
    {
        copy.push(ids[i]);
        i += 1;
    }
    copy
}

/// A step that names an earlier one as its target acts on the very window that
/// the earlier step resolved to.
pub proof fn law_a_name_stands_for_an_earlier_steps_window(
    steps: Seq<LayoutStep>,
    container_ids: Seq<i64>,
    name: Seq<char>,
)
    requires
        container_ids.len() <= steps.len(),
        names_after(steps, container_ids).contains_key(name),
    ensures
        exists|j: int|
            0 <= j < container_ids.len() && text::opt_text((#[trigger] steps[j]).id) == Some(name)
                && names_after(steps, container_ids)[name] == container_ids[j],
    decreases container_ids.len(),
{
    if container_ids.len() > 0 {
        let last = container_ids.len() - 1;
        let init = container_ids.drop_last();
        if text::opt_text(steps[last].id) != Some(name) {
            law_a_name_stands_for_an_earlier_steps_window(steps, init, name);
            let j = choose|j: int|
                0 <= j < init.len() && text::opt_text((#[trigger] steps[j]).id) == Some(name)
                    && names_after(steps, init)[name] == init[j];
            assert(container_ids[j] == init[j]);
        }
    }
}

/// The steps that a template resolves to never take one name twice.
pub proof fn law_resolved_steps_do_not_clash(
    template: Template,
    bindings: Bindings,
    container_ids: Seq<i64>,
)
    requires
        template::resolve_fault(template, bindings) is None,
        container_ids.len() < template.step.len(),
    ensures
        ({
            let steps = template::resolved_steps(template, bindings);
            steps[container_ids.len() as int].id matches Some(id) ==> !names_after(
                steps,
                container_ids,
            ).contains_key(id@)
        }),
{
    let steps = template::resolved_steps(template, bindings);
    let i = container_ids.len() as int;
    template::law_resolved_steps_are_sound(template, bindings);
    if let Some(id) = steps[i].id {
        if names_after(steps, container_ids).contains_key(id@) {
            law_a_name_stands_for_an_earlier_steps_window(steps, container_ids, id@);
            let j = choose|j: int|
                0 <= j < container_ids.len() && text::opt_text((#[trigger] steps[j]).id) == Some(
                    id@,
                ) && names_after(steps, container_ids)[id@] == container_ids[j];
            assert(steps[j].id->0@ != steps[i].id->0@);
        }
    }
}

/// Every named step that was taken can be a later step's target: where no name
/// is taken twice, the name of each step stands for the very window that the
/// step resolved to, and no other name stands for any.
pub proof fn law_every_named_step_can_be_a_target(
    steps: Seq<LayoutStep>,
    container_ids: Seq<i64>,
    j: int,
)
    requires
        container_ids.len() <= steps.len(),
        0 <= j < container_ids.len(),
        steps[j].id is Some,
        forall|a: int, b: int|
            #![trigger steps[a], steps[b]]
            0 <= a < b < container_ids.len() && steps[a].id is Some && steps[b].id is Some
                ==> steps[a].id->0@ != steps[b].id->0@,
    ensures
        names_after(steps, container_ids).contains_key(steps[j].id->0@),
        names_after(steps, container_ids)[steps[j].id->0@] == container_ids[j],
    decreases container_ids.len(),
{
    let last = container_ids.len() - 1;
    let init = container_ids.drop_last();
    if j < last {
        law_every_named_step_can_be_a_target(steps, init, j);
        if steps[last].id is Some {
            assert(steps[j].id->0@ != steps[last].id->0@);
        }
    }
}

/// A step whose target is the name of an earlier step acts on the window that
/// the earlier step resolved to.
pub proof fn law_a_target_is_the_window_of_the_step_it_names(
    steps: Seq<LayoutStep>,
    container_ids: Seq<i64>,
    j: int,
    launch: SwayLaunch,
    default_timeout: Duration,
    default_wait_time: Duration,
    verbose: bool,
)
    requires
        container_ids.len() < steps.len(),
        0 <= j < container_ids.len(),
        steps[j].id is Some,
        forall|a: int, b: int|
            #![trigger steps[a], steps[b]]
            0 <= a < b < container_ids.len() && steps[a].id is Some && steps[b].id is Some
                ==> steps[a].id->0@ != steps[b].id->0@,
        step_fault(steps, container_ids) is None,
        steps[container_ids.len() as int].target_id is Some,
        steps[container_ids.len() as int].target_id->0@ == steps[j].id->0@,
        steps[container_ids.len() as int].says(
            launch,
            default_timeout,
            default_wait_time,
            verbose,
            names_after(steps, container_ids),
        ),
    ensures
        launch.target == crate::launch::Target::ConId(container_ids[j]),
{
    law_every_named_step_can_be_a_target(steps, container_ids, j);
    crate::layout::law_a_step_acts_on_the_window_it_names(
        steps[container_ids.len() as int],
        launch,
        default_timeout,
        default_wait_time,
        verbose,
        names_after(steps, container_ids),
    );
}

/// A step can be taken exactly where its name, if it has one, is not that of a
/// step before it, and it converts with the names so far.
pub proof fn law_a_step_can_be_taken_where_its_name_is_free(
    steps: Seq<LayoutStep>,
    container_ids: Seq<i64>,
)
    requires
        container_ids.len() < steps.len(),
    ensures
        ({
            let step = steps[container_ids.len() as int];
            let taken = exists|j: int|
                0 <= j < container_ids.len() && (#[trigger] steps[j]).id is Some && step.id is Some
                    && steps[j].id->0@ == step.id->0@;
            &&& step_fault(steps, container_ids) is None <==> !taken && step.fault(
                names_after(steps, container_ids),
            ) is None
            &&& taken ==> step_fault(steps, container_ids) == Some(
                "id "@ + text::debug_form(step.id->0@) + " was already used by an earlier step"@,
            )
            &&& !taken ==> step_fault(steps, container_ids) == step.fault(
                names_after(steps, container_ids),
            )
        }),
{
    let step = steps[container_ids.len() as int];
    if let Some(id) = step.id {
        lemma_names(steps, container_ids, id@);
    }
}

proof fn lemma_names(steps: Seq<LayoutStep>, container_ids: Seq<i64>, name: Seq<char>)
    requires
        container_ids.len() <= steps.len(),
    ensures
        names_after(steps, container_ids).contains_key(name) <==> exists|j: int|
            0 <= j < container_ids.len() && (#[trigger] steps[j]).id is Some && steps[j].id->0@
                == name,
    decreases container_ids.len(),
{
    if container_ids.len() > 0 {
        let last = container_ids.len() - 1;
        lemma_names(steps, container_ids.drop_last(), name);
        if exists|j: int|
            0 <= j < container_ids.len() && (#[trigger] steps[j]).id is Some && steps[j].id->0@
                == name {
            let j = choose|j: int|
                0 <= j < container_ids.len() && (#[trigger] steps[j]).id is Some && steps[j].id->0@
                    == name;
            if j < last {
                assert(steps[j].id is Some);
            }
        }
        if names_after(steps, container_ids).contains_key(name) {
            if text::opt_text(steps[last].id) == Some(name) {
                assert(steps[last].id is Some && steps[last].id->0@ == name);
            } else {
                let j = choose|j: int|
                    0 <= j < last && (#[trigger] steps[j]).id is Some && steps[j].id->0@ == name;
                assert(steps[j].id is Some);
            }
        }
    }
}

/// A step that fails is reported by its place, counted from one, in front of
/// the report itself.
pub proof fn law_a_step_is_reported_by_its_place(index: nat, error: Seq<char>)
    ensures
        step_error(index, error) == "step "@ + text::decimal(index + 1) + ": "@ + error,
{
}

} // verus!
