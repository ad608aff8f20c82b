//! Layout templates: steps that say what to do to a window without saying
//! which application it belongs to. Each step names a slot, and bindings say
//! which application goes into which slot.

use crate::layout::LayoutStep;
use crate::layout;
use crate::text;
use crate::values::{require_non_blank, Split};
use crate::values;
use vstd::prelude::*;

verus! {

broadcast use vstd::string::group_string_axioms;

/// A template.
#[derive(Debug)]
pub struct Template {
    pub template: TemplateMetadata,
    pub layout: TemplateLayoutContext,
    pub step: Vec<TemplateStep>,
}

/// The workspace and the output of every step that has none of its own.
#[derive(Debug)]
pub struct TemplateLayoutContext {
    pub workspace: Option<String>,
    pub output: Option<String>,
}

impl Default for TemplateLayoutContext {
    fn default() -> (context: TemplateLayoutContext)
        ensures
            context.workspace is None,
            context.output is None,
    {
        TemplateLayoutContext { workspace: None, output: None }
    }
}

/// What a template says of itself.
#[derive(Debug)]
pub struct TemplateMetadata {
    pub description: String,
    pub category: String,
}

/// One step of a template: a slot to fill, or the window of an earlier slot,
/// and what to do to it.
#[derive(Debug)]
pub struct TemplateStep {
    pub slot: Option<String>,
    pub target_id: Option<String>,
    pub split: Option<Split>,
    pub floating: bool,
    pub sticky: bool,
    pub fullscreen: bool,
    pub focus: bool,
    pub mark: Option<String>,
    pub new_column: bool,
    pub new_row: bool,
    pub workspace: Option<String>,
    pub output: Option<String>,
    pub height: Option<String>,
    pub width: Option<String>,
    pub position: Option<String>,
    pub scratchpad: bool,
    pub timeout: Option<u64>,
    pub wait_time: Option<u64>,
}

/// What goes into a slot: a command to launch, or an open window.
#[derive(Debug)]
pub struct Binding {
    pub slot: String,
    pub command: Option<String>,
    pub con_id: Option<i64>,
    pub existing: bool,
    pub app_id: Option<String>,
    pub class: Option<String>,
    pub mark_match: Option<String>,
}

/// What goes into the slots of a template.
#[derive(Debug)]
pub struct Bindings {
    pub binding: Vec<Binding>,
}

/// What is wrong with what a template says of itself.
pub open spec fn metadata_fault(template: Template) -> Option<Seq<char>> {
    if text::blank(template.template.description@) {
        Some(values::blank_field_error("template.description"@))
    } else if text::blank(template.template.category@) {
        Some(values::blank_field_error("template.category"@))
    } else {
        None
    }
}

/// Checks what a template says of itself: it has a description and a category.
pub fn check_metadata(template: &Template) -> (result: Result<(), String>)
    ensures
        match result {
            Ok(()) => metadata_fault(*template) is None,
            Err(error) => metadata_fault(*template) == Some(error@),
        },
{
    require_non_blank("template.description", template.template.description.as_str())?;
    require_non_blank("template.category", template.template.category.as_str())
}

/// Whether some step names a slot.
pub open spec fn slot_named(steps: Seq<TemplateStep>, slot: Seq<char>) -> bool {
    exists|i: int| 0 <= i < steps.len() && text::opt_text((#[trigger] steps[i]).slot) == Some(slot)
}

/// Whether some binding is for a slot.
pub open spec fn slot_bound(bindings: Seq<Binding>, slot: Seq<char>) -> bool {
    exists|i: int| 0 <= i < bindings.len() && (#[trigger] bindings[i]).slot@ == slot
}

/// The first binding for a slot.
pub open spec fn binding_for(bindings: Seq<Binding>, slot: Seq<char>) -> Option<Binding>
    decreases bindings.len(),
{
    if bindings.len() == 0 {
        None
    } else if bindings[0].slot@ == slot {
        Some(bindings[0])
    } else {
        binding_for(bindings.drop_first(), slot)
    }
}

/// What is wrong with a binding, given those before it.
pub open spec fn binding_fault(bindings: Seq<Binding>, i: int) -> Option<Seq<char>> {
    let slot = bindings[i].slot@;
    if text::blank(slot) {
        Some(values::blank_field_error("binding.slot"@))
    } else if slot_bound(bindings.take(i), slot) {
        Some("slot "@ + text::debug_form(slot) + " has more than one binding"@)
    } else {
        None
    }
}

/// What is wrong with the first faulty binding from a given one on.
pub open spec fn bindings_fault(bindings: Seq<Binding>, from: int) -> Option<Seq<char>>
    decreases bindings.len() - from,
{
    if from >= bindings.len() {
        None
    } else {
        match binding_fault(bindings, from) {
            Some(fault) => Some(fault),
            None => bindings_fault(bindings, from + 1),
        }
    }
}

/// What is wrong with what is bound to a slot.
pub open spec fn bound_fault(binding: Binding, slot: Seq<char>) -> Option<Seq<char>> {
    if layout::count(binding.command is Some) + layout::count(binding.con_id is Some)
        + layout::count(binding.existing) != 1 {
        Some(
            "binding for slot "@ + text::debug_form(slot)
                + " must set exactly one of: command, con_id, existing"@,
        )
    } else if layout::given_blank(binding.command) {
        Some(
            "binding for slot "@ + text::debug_form(slot) + ": "@ + values::blank_field_error(
                "command"@,
            ),
        )
    } else if layout::count(binding.app_id is Some) + layout::count(binding.class is Some)
        + layout::count(binding.mark_match is Some) > 1 {
        Some(
            "binding for slot "@ + text::debug_form(slot)
                + " must set only one of: app_id, class, mark_match"@,
        )
    } else {
        None
    }
}

/// What is wrong with a step, given the bindings and the steps before it.
pub open spec fn step_fault(
    steps: Seq<TemplateStep>,
    bindings: Seq<Binding>,
    i: int,
) -> Option<Seq<char>> {
    match (steps[i].slot, steps[i].target_id) {
        (Some(slot), None) => if text::blank(slot@) {
            Some(values::blank_field_error("slot"@))
        } else {
            match binding_for(bindings, slot@) {
                None => Some("no binding for slot "@ + text::debug_form(slot@)),
                Some(binding) => match bound_fault(binding, slot@) {
                    Some(fault) => Some(fault),
                    None => if slot_named(steps.take(i), slot@) {
                        Some(
                            "template: slot "@ + text::debug_form(slot@)
                                + " is used more than once"@,
                        )
                    } else {
                        None
                    },
                },
            }
        },
        (None, Some(target_id)) => if text::blank(target_id@) {
            Some(values::blank_field_error("target_id"@))
        } else {
            None
        },
        _ => Some("template step must set exactly one of: slot, target_id"@),
    }
}

/// What is wrong with the first faulty step from a given one on.
pub open spec fn steps_fault(
    steps: Seq<TemplateStep>,
    bindings: Seq<Binding>,
    from: int,
) -> Option<Seq<char>>
    decreases steps.len() - from,
{
    if from >= steps.len() {
        None
    } else {
        match step_fault(steps, bindings, from) {
            Some(fault) => Some(fault),
            None => steps_fault(steps, bindings, from + 1),
        }
    }
}

/// The slots of the bindings that no step names, in the order of the bindings.
pub open spec fn unused_slots(steps: Seq<TemplateStep>, bindings: Seq<Binding>) -> Seq<Seq<char>> {
    bindings.map_values(|binding: Binding| binding.slot@).filter(
        |slot: Seq<char>| !slot_named(steps, slot),
    )
}

/// What is wrong with a template and its bindings: first with the bindings by
/// themselves, then with the steps, then that a binding is for no step's slot.
pub open spec fn resolve_fault(template: Template, bindings: Bindings) -> Option<Seq<char>> {
    let steps = template.step@;
    let bound = bindings.binding@;
    match bindings_fault(bound, 0) {
        Some(fault) => Some(fault),
        None => match steps_fault(steps, bound, 0) {
            Some(fault) => Some(fault),
            None => if unused_slots(steps, bound).len() > 0 {
                Some(
                    "binding(s) for unused slot(s): "@ + text::joined(
                        unused_slots(steps, bound).sort_by(text::text_order()),
                        ", "@,
                    ),
                )
            } else {
                None
            },
        },
    }
}

/// A value, or a fallback where there is none.
pub open spec fn or_else(value: Option<String>, fallback: Option<String>) -> Option<String> {
    match value {
        Some(value) => Some(value),
        None => fallback,
    }
}

/// The layout step that a template step resolves to. It is named after its
/// slot and acts on what is bound to the slot; or it acts on the window of an
/// earlier slot. Its workspace and its output are its own, each by itself, or
/// else the template's.
pub open spec fn resolved_step(
    step: TemplateStep,
    context: TemplateLayoutContext,
    bindings: Seq<Binding>,
) -> LayoutStep {
    let binding = match step.slot {
        Some(slot) => binding_for(bindings, slot@),
        None => None,
    };
    LayoutStep {
        command: match binding {
            Some(binding) => binding.command,
            None => None,
        },
        con_id: match binding {
            Some(binding) => binding.con_id,
            None => None,
        },
        existing: match binding {
            Some(binding) => binding.existing,
            None => false,
        },
        target_id: match step.slot {
            Some(_) => None,
            None => step.target_id,
        },
        id: step.slot,
        app_id: match binding {
            Some(binding) => binding.app_id,
            None => None,
        },
        class: match binding {
            Some(binding) => binding.class,
            None => None,
        },
        mark_match: match binding {
            Some(binding) => binding.mark_match,
            None => None,
        },
        split: step.split,
        floating: step.floating,
        sticky: step.sticky,
        fullscreen: step.fullscreen,
        focus: step.focus,
        mark: step.mark,
        new_column: step.new_column,
        new_row: step.new_row,
        workspace: or_else(step.workspace, context.workspace),
        output: or_else(step.output, context.output),
        height: step.height,
        width: step.width,
        position: step.position,
        scratchpad: step.scratchpad,
        timeout: step.timeout,
        wait_time: step.wait_time,
    }
}

/// The layout steps that a template resolves to, one for each of its steps.
pub open spec fn resolved_steps(template: Template, bindings: Bindings) -> Seq<LayoutStep> {
    template.step@.map_values(
        |step: TemplateStep| resolved_step(step, template.layout, bindings.binding@),
    )
}

/// Whether some step of those before one names a slot.
fn is_slot_named(steps: &Vec<TemplateStep>, end: usize, slot: &str) -> (named: bool)
    requires
        end <= steps.len(),
    ensures
        named == slot_named(steps@.take(end as int), slot@),
{
    let mut i: usize = 0;
    while i < end
        invariant
            i <= end <= steps.len(),
            forall|j: int|
                0 <= j < i ==> text::opt_text((#[trigger] steps@.take(end as int)[j]).slot) != Some(
                    slot@,
                ),
        decreases end - i,
    {
        if let Some(name) = &steps[i].slot {
            if text::same_text(name.as_str(), slot) {
                assert(text::opt_text(steps@.take(end as int)[i as int].slot) == Some(slot@));
                return true;
            }
        }
        assert(steps@.take(end as int)[i as int] == steps@[i as int]);
        i += 1;
    }
    false
}

/// Whether some binding of those before one is for a slot.
fn is_slot_bound(bindings: &Vec<Binding>, end: usize, slot: &str) -> (bound: bool)
    requires
        end <= bindings.len(),
    ensures
        bound == slot_bound(bindings@.take(end as int), slot@),
{
    let mut i: usize = 0;
    while i < end
        invariant
            i <= end <= bindings.len(),
            forall|j: int|
                0 <= j < i ==> (#[trigger] bindings@.take(end as int)[j]).slot@ != slot@,
        decreases end - i,
    {
        assert(bindings@.take(end as int)[i as int] == bindings@[i as int]);
        if text::same_text(bindings[i].slot.as_str(), slot) {
            return true;
        }
        i += 1;
    }
    false
}

/// The first binding for a slot.
fn find_binding<'a>(bindings: &'a Vec<Binding>, slot: &str) -> (found: Option<&'a Binding>)
    ensures
        match found {
            Some(binding) => binding_for(bindings@, slot@) == Some(*binding),
            None => binding_for(bindings@, slot@) is None,
        },
{
    let mut i: usize = 0;
    proof {
        assert(bindings@.skip(0) =~= bindings@);
    }
    while i < bindings.len()
        invariant
            i <= bindings.len(),
            binding_for(bindings@, slot@) == binding_for(bindings@.skip(i as int), slot@),
        decreases bindings.len() - i,
    {
        proof {
            assert(bindings@.skip(i as int).drop_first() =~= bindings@.skip(i + 1));
        }
        if text::same_text(bindings[i].slot.as_str(), slot) {
            return Some(&bindings[i]);
        }
        i += 1;
    }
    None
}

fn check_bindings(bindings: &Vec<Binding>) -> (result: Result<(), String>)
    ensures
        match result {
            Ok(()) => bindings_fault(bindings@, 0) is None,
            Err(error) => bindings_fault(bindings@, 0) == Some(error@),
        },
{
    let mut i: usize = 0;
    while i < bindings.len()
        invariant
            i <= bindings.len(),
            bindings_fault(bindings@, 0) == bindings_fault(bindings@, i as int),
        decreases bindings.len() - i,
    {
        let slot = bindings[i].slot.as_str();
        require_non_blank("binding.slot", slot)?;
        if is_slot_bound(bindings, i, slot) {
            return Err(
                text::concat3(
                    "slot ",
                    text::debug_text(slot).as_str(),
                    " has more than one binding",
                ),
            );
        }
        i += 1;
    }
    Ok(())
}

fn check_bound(binding: &Binding, slot: &str) -> (result: Result<(), String>)
    ensures
        match result {
            Ok(()) => bound_fault(*binding, slot@) is None,
            Err(error) => bound_fault(*binding, slot@) == Some(error@),
        },
{
    let targets: u8 = layout::counted(binding.command.is_some()) + layout::counted(
        binding.con_id.is_some(),
    ) + layout::counted(binding.existing);
    if targets != 1 {
        return Err(
            text::concat3(
                "binding for slot ",
                text::debug_text(slot).as_str(),
                " must set exactly one of: command, con_id, existing",
            ),
        );
    }
    if let Some(command) = &binding.command {
        if let Err(error) = require_non_blank("command", command.as_str()) {
            return Err(
                text::concat3("binding for slot ", text::debug_text(slot).as_str(), ": ").concat(
                    error.as_str(),
                ),
            );
        }
    }
    let matches: u8 = layout::counted(binding.app_id.is_some()) + layout::counted(
        binding.class.is_some(),
    ) + layout::counted(binding.mark_match.is_some());
    if matches > 1 {
        return Err(
            text::concat3(
                "binding for slot ",
                text::debug_text(slot).as_str(),
                " must set only one of: app_id, class, mark_match",
            ),
        );
    }
    Ok(())
}

fn resolve_step(
    steps: &Vec<TemplateStep>,
    context: &TemplateLayoutContext,
    bindings: &Vec<Binding>,
    i: usize,
) -> (result: Result<LayoutStep, String>)
    requires
        i < steps.len(),
    ensures
        match result {
            Ok(resolved) => step_fault(steps@, bindings@, i as int) is None && resolved
                == resolved_step(steps@[i as int], *context, bindings@),
            Err(error) => step_fault(steps@, bindings@, i as int) == Some(error@),
        },
{
    let step = &steps[i];
    let mut command: Option<String> = None;
    let mut con_id: Option<i64> = None;
    let mut existing = false;
    let mut app_id: Option<String> = None;
    let mut class: Option<String> = None;
    let mut mark_match: Option<String> = None;
    match (&step.slot, &step.target_id) {
        (Some(slot), None) => {
            require_non_blank("slot", slot.as_str())?;
            match find_binding(bindings, slot.as_str()) {
                Some(binding) => {
                    check_bound(binding, slot.as_str())?;
                    if is_slot_named(steps, i, slot.as_str()) {
                        return Err(
                            text::concat3(
                                "template: slot ",
                                text::debug_text(slot.as_str()).as_str(),
                                " is used more than once",
                            ),
                        );
                    }
                    command = text::copy_optional(&binding.command);
                    con_id = binding.con_id;
                    existing = binding.existing;
                    app_id = text::copy_optional(&binding.app_id);
                    class = text::copy_optional(&binding.class);
                    mark_match = text::copy_optional(&binding.mark_match);
                },
                None => {
                    return Err(
                        text::concat(
                            "no binding for slot ",
                            text::debug_text(slot.as_str()).as_str(),
                        ),
                    );
                },
            }
        },
        (None, Some(target_id)) => {
            require_non_blank("target_id", target_id.as_str())?;
        },
        _ => {
            return Err("template step must set exactly one of: slot, target_id".to_owned());
        },
    }
    Ok(
        LayoutStep {
            command,
            con_id,
            existing,
            target_id: text::copy_optional(&step.target_id),
            id: text::copy_optional(&step.slot),
            app_id,
            class,
            mark_match,
            split: step.split,
            floating: step.floating,
            sticky: step.sticky,
            fullscreen: step.fullscreen,
            focus: step.focus,
            mark: text::copy_optional(&step.mark),
            new_column: step.new_column,
            new_row: step.new_row,
            workspace: copy_or_else(&step.workspace, &context.workspace),
            output: copy_or_else(&step.output, &context.output),
            height: text::copy_optional(&step.height),
            width: text::copy_optional(&step.width),
            position: text::copy_optional(&step.position),
            scratchpad: step.scratchpad,
            timeout: step.timeout,
            wait_time: step.wait_time,
        },
    )
}

fn copy_or_else(value: &Option<String>, fallback: &Option<String>) -> (copy: Option<String>)
    ensures
        copy == or_else(*value, *fallback),
{
    if value.is_some() {
        text::copy_optional(value)
    } else {
        text::copy_optional(fallback)
    }
}

fn find_unused_slots<'a>(steps: &Vec<TemplateStep>, bindings: &'a Vec<Binding>) -> (unused: Vec<
    &'a str,
>)
    ensures
        text::strs(unused@) == unused_slots(steps@, bindings@),
{
    let mut unused: Vec<&'a str> = Vec::new();
    let mut i: usize = 0;
    let ghost slots = bindings@.map_values(|binding: Binding| binding.slot@);
    let ghost unnamed = |slot: Seq<char>| !slot_named(steps@, slot);
    proof {
        assert(slots.take(0) =~= Seq::<Seq<char>>::empty());
        reveal(Seq::filter);
        assert(text::strs(unused@) =~= slots.take(0).filter(unnamed));
    }
    while i < bindings.len()
        invariant
            i <= bindings.len(),
            slots == bindings@.map_values(|binding: Binding| binding.slot@),
            unnamed == (|slot: Seq<char>| !slot_named(steps@, slot)),
            text::strs(unused@) == slots.take(i as int).filter(unnamed),
        decreases bindings.len() - i,
    {
        let ghost before = unused@;
        let slot = bindings[i].slot.as_str();
        proof {
            reveal(Seq::filter);
            assert(slots.take(i + 1).drop_last() =~= slots.take(i as int));
            assert(slots.take(i + 1).last() == slot@);
            assert(steps@.take(steps@.len() as int) =~= steps@);
        }
        if !is_slot_named(steps, steps.len(), slot) {
            unused.push(slot);
            assert(text::strs(unused@) =~= text::strs(before).push(slot@));
        }
        i += 1;
    }
    assert(slots.take(i as int) =~= slots);
    unused
}

/// Resolves a template against bindings, into ordinary layout steps.
pub fn resolve(template: &Template, bindings: &Bindings) -> (result: Result<
    Vec<LayoutStep>,
    String,
>)
    ensures
        match result {
            Ok(steps) => {
                &&& resolve_fault(*template, *bindings) is None
                &&& steps@ == resolved_steps(*template, *bindings)
                &&& steps@.len() == template.step@.len()
                &&& forall|i: int|
                    0 <= i < steps@.len() ==> says_the_same(
                        #[trigger] steps@[i],
                        template.step@[i],
                    )
            },
            Err(error) => resolve_fault(*template, *bindings) == Some(error@),
        },
{
    check_bindings(&bindings.binding)?;
    let mut steps: Vec<LayoutStep> = Vec::new();
    let mut i: usize = 0;
    while i < template.step.len()
        invariant
            i <= template.step.len(),
            bindings_fault(bindings.binding@, 0) is None,
            steps_fault(template.step@, bindings.binding@, 0) == steps_fault(
                template.step@,
                bindings.binding@,
                i as int,
            ),
            steps@ == resolved_steps(*template, *bindings).take(i as int),
        decreases template.step.len() - i,
    {
        let step = resolve_step(&template.step, &template.layout, &bindings.binding, i)?;
        steps.push(step);
        proof {
            assert(resolved_steps(*template, *bindings).take(i + 1) =~= resolved_steps(
                *template,
                *bindings,
            ).take(i as int).push(step));
        }
        i += 1;
    }
    assert(resolved_steps(*template, *bindings).take(i as int) =~= resolved_steps(
        *template,
        *bindings,
    ));
    let unused = find_unused_slots(&template.step, &bindings.binding);
    if unused.len() > 0 {
        assert(text::strs(unused@).len() == unused.len());
        return Err(
            text::concat(
                "binding(s) for unused slot(s): ",
                text::join(&text::sort(unused), ", ").as_str(),
            ),
        );
    }
    assert(unused_slots(template.step@, bindings.binding@).len() == 0);
    Ok(steps)
}

/// The distinct slots that some steps name, in the order in which each is
/// named first.
pub open spec fn distinct_slots(steps: Seq<TemplateStep>) -> Seq<Seq<char>>
    decreases steps.len(),
{
    if steps.len() == 0 {
        Seq::empty()
    } else {
        let before = distinct_slots(steps.drop_last());
        match steps.last().slot {
            Some(slot) => if before.contains(slot@) {
                before
            } else {
                before.push(slot@)
            },
            None => before,
        }
    }
}

/// The distinct slots that a template's steps name, in the order in which each
/// is named first.
pub fn distinct_slot_names(template: &Template) -> (slots: Vec<&str>)
    ensures
        text::strs(slots@) == distinct_slots(template.step@),
{
    let mut slots: Vec<&str> = Vec::new();
    let mut i: usize = 0;
    proof {
        assert(template.step@.take(0) =~= Seq::<TemplateStep>::empty());
        assert(text::strs(slots@) =~= Seq::<Seq<char>>::empty());
    }
    while i < template.step.len()
        invariant
            i <= template.step.len(),
            text::strs(slots@) == distinct_slots(template.step@.take(i as int)),
        decreases template.step.len() - i,
    {
        proof {
            assert(template.step@.take(i + 1).drop_last() =~= template.step@.take(i as int));
            assert(template.step@.take(i + 1).last() == template.step@[i as int]);
        }
        if let Some(slot) = &template.step[i].slot {
            if !holds(&slots, slot.as_str()) {
                let ghost before = slots@;
                slots.push(slot.as_str());
                assert(text::strs(slots@) =~= text::strs(before).push(slot@));
            }
        }
        i += 1;
    }
    assert(template.step@.take(i as int) =~= template.step@);
    slots
}

fn holds(values: &Vec<&str>, value: &str) -> (held: bool)
    ensures
        held == text::strs(values@).contains(value@),
{
    let mut i: usize = 0;
    while i < values.len()
        invariant
            i <= values.len(),
            forall|j: int| 0 <= j < i ==> (#[trigger] text::strs(values@)[j]) != value@,
        decreases values.len() - i,
    {
        assert(text::strs(values@)[i as int] == values@[i as int]@);
        if text::same_text(values[i], value) {
            return true;
        }
        i += 1;
    }
    false
}

/// Whether a step is the first that names a slot.
pub open spec fn first_named_at(steps: Seq<TemplateStep>, slot: Seq<char>, at: int) -> bool {
    &&& 0 <= at < steps.len()
    &&& text::opt_text(steps[at].slot) == Some(slot)
    &&& !slot_named(steps.take(at), slot)
}

/// The first step that names a slot is the same with a step added behind; where
/// no other names it, it is the added one.
proof fn lemma_first_named_at(steps: Seq<TemplateStep>, slot: Seq<char>, at: int)
    requires
        steps.len() > 0,
        first_named_at(steps, slot, at),
    ensures
        slot_named(steps.drop_last(), slot) ==> first_named_at(steps.drop_last(), slot, at),
        !slot_named(steps.drop_last(), slot) ==> at == steps.len() - 1,
{
    let init = steps.drop_last();
    if at < init.len() {
        assert(init.take(at) =~= steps.take(at));
        assert(text::opt_text(init[at].slot) == Some(slot));
    } else {
        assert(steps.take(at) =~= init);
    }
}

/// No slot is listed twice, the slots that are listed are those that a step
/// names, and they come in the order in which each is named first.
pub proof fn law_distinct_slots(steps: Seq<TemplateStep>)
    ensures
        distinct_slots(steps).no_duplicates(),
        forall|slot: Seq<char>| #[trigger]
            distinct_slots(steps).contains(slot) <==> slot_named(steps, slot),
        forall|i: int, j: int, a: int, b: int|
            #![trigger first_named_at(steps, distinct_slots(steps)[i], a), first_named_at(steps, distinct_slots(steps)[j], b)]
            0 <= i < j < distinct_slots(steps).len() && first_named_at(
                steps,
                distinct_slots(steps)[i],
                a,
            ) && first_named_at(steps, distinct_slots(steps)[j], b) ==> a < b,
    decreases steps.len(),
{
    if steps.len() > 0 {
        let init = steps.drop_last();
        law_distinct_slots(init);
        let before = distinct_slots(init);
        let after = distinct_slots(steps);
        assert forall|slot: Seq<char>| #[trigger]
            after.contains(slot) <==> slot_named(steps, slot) by {
            if slot_named(init, slot) {
                let i = choose|i: int|
                    0 <= i < init.len() && text::opt_text((#[trigger] init[i]).slot) == Some(slot);
                assert(text::opt_text(steps[i].slot) == Some(slot));
            }
            if before.contains(slot) {
                let k = choose|k: int| 0 <= k < before.len() && before[k] == slot;
                assert(after[k] == slot);
            }
            if text::opt_text(steps.last().slot) == Some(slot) {
                assert(text::opt_text(steps[steps.len() - 1].slot) == Some(slot));
                if !before.contains(slot) {
                    assert(after[before.len() as int] == slot);
                }
            }
            if slot_named(steps, slot) && text::opt_text(steps.last().slot) != Some(slot) {
                let i = choose|i: int|
                    0 <= i < steps.len() && text::opt_text((#[trigger] steps[i]).slot) == Some(
                        slot,
                    );
                assert(text::opt_text(init[i].slot) == Some(slot));
            }
        }
        assert forall|i: int, j: int, a: int, b: int|
            #![trigger first_named_at(steps, after[i], a), first_named_at(steps, after[j], b)]
            0 <= i < j < after.len() && first_named_at(steps, after[i], a) && first_named_at(
                steps,
                after[j],
                b,
            ) implies a < b by {
            lemma_first_named_at(steps, after[i], a);
            lemma_first_named_at(steps, after[j], b);
            assert(before.contains(after[i])) by {
                assert(before[i] == after[i]);
            }
            if j < before.len() {
                assert(before[j] == after[j]);
                assert(before.contains(after[j]));
            } else {
                assert(!before.contains(after[j]));
            }
        }
    }
}

/// The applications in a list that is separated by commas, without the white
/// space around each.
pub open spec fn listed_apps(apps: Seq<char>) -> Seq<Seq<char>> {
    text::split_on(apps, ',').map_values(|app: Seq<char>| text::trimmed(app))
}

/// The first of some texts that is empty.
pub open spec fn first_empty(values: Seq<Seq<char>>, from: int) -> Option<int>
    decreases values.len() - from,
{
    if from >= values.len() {
        None
    } else if values[from].len() == 0 {
        Some(from)
    } else {
        first_empty(values, from + 1)
    }
}

/// What is wrong with a list of applications for a template: that it has not
/// one for each slot, or that one is empty.
pub open spec fn apps_fault(steps: Seq<TemplateStep>, apps: Seq<char>) -> Option<Seq<char>> {
    let slots = distinct_slots(steps);
    let listed = listed_apps(apps);
    if listed.len() != slots.len() {
        Some(
            "template needs "@ + text::decimal(slots.len()) + " application(s) ("@ + text::joined(
                slots,
                ", "@,
            ) + "), got "@ + text::decimal(listed.len()),
        )
    } else {
        match first_empty(listed, 0) {
            Some(i) => Some(
                "--apps: empty application for slot "@ + text::debug_form(slots[i]),
            ),
            None => None,
        }
    }
}

/// Whether a binding launches a command into a slot, and says nothing else.
pub open spec fn launches_into(binding: Binding, slot: Seq<char>, command: Seq<char>) -> bool {
    &&& binding.slot@ == slot
    &&& text::opt_text(binding.command) == Some(command)
    &&& binding.con_id is None
    &&& !binding.existing
    &&& binding.app_id is None
    &&& binding.class is None
    &&& binding.mark_match is None
}

/// Whether some bindings launch the applications of a list into the slots of a
/// template, the first into the slot that is named first, and so on.
pub open spec fn launches_listed(
    bindings: Seq<Binding>,
    steps: Seq<TemplateStep>,
    apps: Seq<char>,
) -> bool {
    &&& bindings.len() == distinct_slots(steps).len()
    &&& forall|i: int|
        0 <= i < bindings.len() ==> launches_into(
            #[trigger] bindings[i],
            distinct_slots(steps)[i],
            listed_apps(apps)[i],
        )
}

/// The bindings that launch the applications of a list into the slots of a
/// template.
pub fn bindings_from_apps(template: &Template, apps: &str) -> (result: Result<Bindings, String>)
    ensures
        match result {
            Ok(bindings) => apps_fault(template.step@, apps@) is None && launches_listed(
                bindings.binding@,
                template.step@,
                apps@,
            ),
            Err(error) => apps_fault(template.step@, apps@) == Some(error@),
        },
{
    let slots = distinct_slot_names(template);
    let parts = text::split(apps, ',');
    let ghost listed = listed_apps(apps@);
    proof {
        assert(text::strs(slots@).len() == slots.len());
        assert(text::strs(parts@).len() == parts.len());
    }
    if parts.len() != slots.len() {
        let mut error = text::concat3(
            "template needs ",
            text::decimal_text(slots.len() as u128).as_str(),
            " application(s) (",
        );
        error.append(text::join(&slots, ", ").as_str());
        error.append("), got ");
        error.append(text::decimal_text(parts.len() as u128).as_str());
        return Err(error);
    }
    let mut i: usize = 0;
    while i < parts.len()
        invariant
            i <= parts.len(),
            parts.len() == slots.len(),
            text::strs(slots@) == distinct_slots(template.step@),
            text::strs(parts@) == text::split_on(apps@, ','),
            listed == listed_apps(apps@),
            listed.len() == parts.len(),
            first_empty(listed, 0) == first_empty(listed, i as int),
        decreases parts.len() - i,
    {
        assert(text::strs(parts@)[i as int] == parts@[i as int]@);
        assert(text::strs(slots@)[i as int] == slots@[i as int]@);
        if text::trim(parts[i]).is_empty() {
            return Err(
                text::concat(
                    "--apps: empty application for slot ",
                    text::debug_text(slots[i]).as_str(),
                ),
            );
        }
        i += 1;
    }
    let mut binding: Vec<Binding> = Vec::new();
    let mut i: usize = 0;
    while i < parts.len()
        invariant
            i <= parts.len(),
            parts.len() == slots.len(),
            text::strs(slots@) == distinct_slots(template.step@),
            text::strs(parts@) == text::split_on(apps@, ','),
            binding.len() == i,
            forall|j: int|
                0 <= j < i ==> launches_into(
                    #[trigger] binding@[j],
                    distinct_slots(template.step@)[j],
                    listed_apps(apps@)[j],
                ),
        decreases parts.len() - i,
    {
        assert(text::strs(parts@)[i as int] == parts@[i as int]@);
        assert(text::strs(slots@)[i as int] == slots@[i as int]@);
        binding.push(
            Binding {
                slot: slots[i].to_owned(),
                command: Some(text::trim(parts[i]).to_owned()),
                con_id: None,
                existing: false,
                app_id: None,
                class: None,
                mark_match: None,
            },
        );
        i += 1;
    }
    Ok(Bindings { binding })
}

proof fn lemma_no_step_is_faulty(
    steps: Seq<TemplateStep>,
    bindings: Seq<Binding>,
    from: int,
    i: int,
)
    requires
        0 <= from <= i < steps.len(),
        steps_fault(steps, bindings, from) is None,
    ensures
        step_fault(steps, bindings, i) is None,
    decreases i - from,
{
    if from < i {
        lemma_no_step_is_faulty(steps, bindings, from + 1, i);
    }
}

proof fn lemma_no_step_is_faulty_conversely(
    steps: Seq<TemplateStep>,
    bindings: Seq<Binding>,
    from: int,
)
    requires
        0 <= from,
        forall|i: int| from <= i < steps.len() ==> #[trigger] step_fault(steps, bindings, i) is None,
    ensures
        steps_fault(steps, bindings, from) is None,
    decreases steps.len() - from,
{
    if from < steps.len() {
        assert(step_fault(steps, bindings, from) is None);
        lemma_no_step_is_faulty_conversely(steps, bindings, from + 1);
    }
}

proof fn lemma_no_binding_is_faulty_conversely(bindings: Seq<Binding>, from: int)
    requires
        0 <= from,
        forall|i: int| from <= i < bindings.len() ==> #[trigger] binding_fault(bindings, i) is None,
    ensures
        bindings_fault(bindings, from) is None,
    decreases bindings.len() - from,
{
    if from < bindings.len() {
        assert(binding_fault(bindings, from) is None);
        lemma_no_binding_is_faulty_conversely(bindings, from + 1);
    }
}

/// The steps that a template resolves to: there is one for each step of the
/// template; each has exactly one of the fields that say which window to act
/// on, and at most one by which a window is matched; a step is named where it
/// fills a slot, after the slot; and no two of them have the same name.
pub proof fn law_resolved_steps_are_sound(template: Template, bindings: Bindings)
    requires
        resolve_fault(template, bindings) is None,
    ensures
        resolved_steps(template, bindings).len() == template.step.len(),
        forall|i: int|
            0 <= i < template.step.len() ==> {
                let step = #[trigger] resolved_steps(template, bindings)[i];
                &&& step.target_fields() == 1
                &&& step.match_fields() <= 1
                &&& step.id == template.step@[i].slot
                &&& !layout::given_blank(step.id)
            },
        forall|i: int, j: int|
            #![trigger resolved_steps(template, bindings)[i], resolved_steps(template, bindings)[j]]
            0 <= i < j < template.step.len() && resolved_steps(template, bindings)[i].id is Some
                && resolved_steps(template, bindings)[j].id is Some ==> resolved_steps(
                template,
                bindings,
            )[i].id->0@ != resolved_steps(template, bindings)[j].id->0@,
{
    let steps = template.step@;
    let bound = bindings.binding@;
    let resolved = resolved_steps(template, bindings);
    assert forall|i: int| 0 <= i < steps.len() implies {
        let step = #[trigger] resolved[i];
        &&& step.target_fields() == 1
        &&& step.match_fields() <= 1
        &&& step.id == steps[i].slot
        &&& !layout::given_blank(step.id)
    } by {
        lemma_no_step_is_faulty(steps, bound, 0, i);
    }
    assert forall|i: int, j: int|
        #![trigger resolved[i], resolved[j]]
        0 <= i < j < steps.len() && resolved[i].id is Some && resolved[j].id is Some implies
        resolved[i].id->0@ != resolved[j].id->0@ by {
        lemma_no_step_is_faulty(steps, bound, 0, j);
        if resolved[i].id->0@ == resolved[j].id->0@ {
            assert(text::opt_text(steps.take(j)[i].slot) == Some(steps[j].slot->0@));
            assert(slot_named(steps.take(j), steps[j].slot->0@));
        }
    }
}

/// A step's own workspace and its own output win over the template's, each by
/// itself.
pub proof fn law_the_layout_context_is_a_fallback(
    step: TemplateStep,
    context: TemplateLayoutContext,
    bindings: Seq<Binding>,
)
    ensures
        step.workspace is Some ==> resolved_step(step, context, bindings).workspace
            == step.workspace,
        step.workspace is None ==> resolved_step(step, context, bindings).workspace
            == context.workspace,
        step.output is Some ==> resolved_step(step, context, bindings).output == step.output,
        step.output is None ==> resolved_step(step, context, bindings).output == context.output,
{
}

proof fn lemma_binding_for_at(bindings: Seq<Binding>, slot: Seq<char>, i: int)
    requires
        0 <= i < bindings.len(),
        bindings[i].slot@ == slot,
        forall|j: int| 0 <= j < i ==> (#[trigger] bindings[j]).slot@ != slot,
    ensures
        binding_for(bindings, slot) == Some(bindings[i]),
    decreases i,
{
    if i > 0 {
        let rest = bindings.drop_first();
        assert(bindings[0].slot@ != slot);
        assert forall|j: int| 0 <= j < i - 1 implies (#[trigger] rest[j]).slot@ != slot by {
            assert(rest[j] == bindings[j + 1]);
        }
        lemma_binding_for_at(rest, slot, i - 1);
    }
}

proof fn lemma_none_empty(values: Seq<Seq<char>>, from: int, i: int)
    requires
        0 <= from <= i < values.len(),
        first_empty(values, from) is None,
    ensures
        values[i].len() > 0,
    decreases i - from,
{
    if from < i {
        lemma_none_empty(values, from + 1, i);
    }
}

/// Whether a template's steps are sound by themselves: each fills a slot with
/// a name or acts on a named window, and no slot is filled twice.
pub open spec fn steps_sound(steps: Seq<TemplateStep>) -> bool {
    forall|i: int|
        0 <= i < steps.len() ==> match ((#[trigger] steps[i]).slot, steps[i].target_id) {
            (Some(slot), None) => !text::blank(slot@) && !slot_named(steps.take(i), slot@),
            (None, Some(target_id)) => !text::blank(target_id@),
            _ => false,
        }
}

/// The bindings that come of a list of applications always fit the template
/// that they were made for: a template whose steps are sound by themselves
/// resolves against them, and each application of the list is the command of
/// the step that fills the slot at the same place among the template's slots.
pub proof fn law_listed_applications_resolve(template: Template, apps: Seq<char>, bindings: Bindings)
    requires
        steps_sound(template.step@),
        apps_fault(template.step@, apps) is None,
        launches_listed(bindings.binding@, template.step@, apps),
    ensures
        resolve_fault(template, bindings) is None,
        forall|k: int, i: int|
            #![trigger distinct_slots(template.step@)[k], resolved_steps(template, bindings)[i]]
            0 <= k < distinct_slots(template.step@).len() && 0 <= i < template.step.len()
                && text::opt_text(template.step@[i].slot) == Some(
                distinct_slots(template.step@)[k],
            ) ==> text::opt_text(resolved_steps(template, bindings)[i].command) == Some(
                listed_apps(apps)[k],
            ),
{
    let steps = template.step@;
    let bound = bindings.binding@;
    let slots = distinct_slots(steps);
    let listed = listed_apps(apps);
    law_distinct_slots(steps);
    assert forall|i: int| 0 <= i < bound.len() implies #[trigger] binding_fault(bound, i) is None by {
        assert(launches_into(bound[i], slots[i], listed[i]));
        assert(slots.contains(slots[i]));
        let k = choose|k: int|
            0 <= k < steps.len() && text::opt_text((#[trigger] steps[k]).slot) == Some(slots[i]);
        assert(!text::blank(slots[i]));
        if slot_bound(bound.take(i), slots[i]) {
            let j = choose|j: int|
                0 <= j < i && (#[trigger] bound.take(i)[j]).slot@ == slots[i];
            assert(bound.take(i)[j] == bound[j]);
            assert(launches_into(bound[j], slots[j], listed[j]));
            assert(slots[j] != slots[i]);
        }
    }
    lemma_no_binding_is_faulty_conversely(bound, 0);
    assert forall|i: int| 0 <= i < steps.len() implies #[trigger] step_fault(steps, bound, i) is None by {
        if let Some(slot) = steps[i].slot {
            assert(slot_named(steps, slot@)) by {
                assert(text::opt_text(steps[i].slot) == Some(slot@));
            }
            assert(slots.contains(slot@));
            let k = choose|k: int| 0 <= k < slots.len() && slots[k] == slot@;
            assert(launches_into(bound[k], slots[k], listed[k]));
            assert forall|j: int| 0 <= j < k implies (#[trigger] bound[j]).slot@ != slot@ by {
                assert(launches_into(bound[j], slots[j], listed[j]));
            }
            lemma_binding_for_at(bound, slot@, k);
            lemma_none_empty(listed, 0, k);
            let part = text::split_on(apps, ',')[k];
            assert(listed[k] == text::trimmed(part));
            text::lemma_trimmed_is_not_blank(part);
        }
    }
    lemma_no_step_is_faulty_conversely(steps, bound, 0);
    let resolved = resolved_steps(template, bindings);
    assert forall|k: int, i: int|
        #![trigger slots[k], resolved[i]]
        0 <= k < slots.len() && 0 <= i < steps.len() && text::opt_text(steps[i].slot) == Some(
            slots[k],
        ) implies text::opt_text(resolved[i].command) == Some(listed[k]) by {
        assert(launches_into(bound[k], slots[k], listed[k]));
        assert forall|j: int| 0 <= j < k implies (#[trigger] bound[j]).slot@ != slots[k] by {
            assert(launches_into(bound[j], slots[j], listed[j]));
        }
        lemma_binding_for_at(bound, slots[k], k);
    }
    let all = bound.map_values(|binding: Binding| binding.slot@);
    let unnamed = |slot: Seq<char>| !slot_named(steps, slot);
    if unused_slots(steps, bound).len() > 0 {
        broadcast use vstd::seq_lib::group_filter_ensures;

        let slot = unused_slots(steps, bound)[0];
        assert(unnamed(slot));
        text::lemma_filter_members(all, unnamed);
        assert(all.contains(slot));
        let k = choose|k: int| 0 <= k < all.len() && all[k] == slot;
        assert(launches_into(bound[k], slots[k], listed[k]));
        assert(slots.contains(slots[k]));
    }
}

/// Whether a layout step says to do to its window what a template step says to
/// do to the window of its slot, field by field.
pub open spec fn says_the_same(resolved: LayoutStep, step: TemplateStep) -> bool {
    &&& resolved.split == step.split
    &&& resolved.floating == step.floating
    &&& resolved.sticky == step.sticky
    &&& resolved.fullscreen == step.fullscreen
    &&& resolved.focus == step.focus
    &&& resolved.mark == step.mark
    &&& resolved.new_column == step.new_column
    &&& resolved.new_row == step.new_row
    &&& resolved.height == step.height
    &&& resolved.width == step.width
    &&& resolved.position == step.position
    &&& resolved.scratchpad == step.scratchpad
    &&& resolved.timeout == step.timeout
    &&& resolved.wait_time == step.wait_time
}

/// Whether a layout step acts on what a binding says: the command, the
/// container or the open window that the binding has, found by what it has.
pub open spec fn acts_on_bound(resolved: LayoutStep, binding: Binding) -> bool {
    &&& resolved.command == binding.command
    &&& resolved.con_id == binding.con_id
    &&& resolved.existing == binding.existing
    &&& resolved.app_id == binding.app_id
    &&& resolved.class == binding.class
    &&& resolved.mark_match == binding.mark_match
    &&& resolved.target_id is None
}

/// Where a template resolves, there is one layout step for each of its steps,
/// in its order, and each says what its template step says, field by field: only
/// the workspace and the output can come from the template, where the step has
/// none of its own.
pub proof fn law_resolved_steps_keep_what_they_say(template: Template, bindings: Bindings)
    requires
        resolve_fault(template, bindings) is None,
    ensures
        ({
            let resolved = resolved_steps(template, bindings);
            &&& resolved.len() == template.step@.len()
            &&& forall|i: int|
                0 <= i < resolved.len() ==> {
                    let step = template.step@[i];
                    &&& (#[trigger] resolved[i]).split == step.split
                    &&& resolved[i].floating == step.floating
                    &&& resolved[i].sticky == step.sticky
                    &&& resolved[i].fullscreen == step.fullscreen
                    &&& resolved[i].focus == step.focus
                    &&& resolved[i].mark == step.mark
                    &&& resolved[i].new_column == step.new_column
                    &&& resolved[i].new_row == step.new_row
                    &&& resolved[i].height == step.height
                    &&& resolved[i].width == step.width
                    &&& resolved[i].position == step.position
                    &&& resolved[i].scratchpad == step.scratchpad
                    &&& resolved[i].timeout == step.timeout
                    &&& resolved[i].wait_time == step.wait_time
                    &&& resolved[i].workspace == if step.workspace is Some {
                        step.workspace
                    } else {
                        template.layout.workspace
                    }
                    &&& resolved[i].output == if step.output is Some {
                        step.output
                    } else {
                        template.layout.output
                    }
                }
        }),
{
}

proof fn lemma_binding_for(bindings: Seq<Binding>, slot: Seq<char>)
    ensures
        match binding_for(bindings, slot) {
            Some(binding) => exists|j: int|
                0 <= j < bindings.len() && (#[trigger] bindings[j]) == binding && binding.slot@
                    == slot,
            None => forall|j: int|
                0 <= j < bindings.len() ==> (#[trigger] bindings[j]).slot@ != slot,
        },
    decreases bindings.len(),
{
    if bindings.len() > 0 && bindings[0].slot@ != slot {
        let rest = bindings.drop_first();
        lemma_binding_for(rest, slot);
        match binding_for(bindings, slot) {
            Some(binding) => {
                let j = choose|j: int|
                    0 <= j < rest.len() && (#[trigger] rest[j]) == binding && binding.slot@ == slot;
                assert(bindings[j + 1] == binding);
            },
            None => {
                assert forall|j: int| 0 <= j < bindings.len() implies (
                #[trigger] bindings[j]).slot@ != slot by {
                    if j > 0 {
                        assert(rest[j - 1].slot@ != slot);
                    }
                }
            },
        }
    }
}

proof fn lemma_no_binding_is_faulty(bindings: Seq<Binding>, from: int, i: int)
    requires
        0 <= from <= i < bindings.len(),
        bindings_fault(bindings, from) is None,
    ensures
        binding_fault(bindings, i) is None,
    decreases i - from,
{
    if from < i {
        lemma_no_binding_is_faulty(bindings, from + 1, i);
    }
}

/// Where a template resolves, a step that fills a slot is named after the slot
/// and acts on what the binding for that slot says, and a step that names an
/// earlier slot acts on that slot's window and on nothing else.
pub proof fn law_resolved_steps_act_on_what_is_bound(template: Template, bindings: Bindings)
    requires
        resolve_fault(template, bindings) is None,
    ensures
        forall|i: int|
            0 <= i < template.step@.len() ==> {
                let resolved = #[trigger] resolved_steps(template, bindings)[i];
                match template.step@[i].slot {
                    Some(slot) => {
                        &&& resolved.id == Some(slot)
                        &&& exists|j: int|
                            0 <= j < bindings.binding@.len() && (
                            #[trigger] bindings.binding@[j]).slot@ == slot@ && acts_on_bound(
                                resolved,
                                bindings.binding@[j],
                            )
                    },
                    None => {
                        &&& template.step@[i].target_id is Some
                        &&& resolved.target_id == template.step@[i].target_id
                        &&& resolved.id is None
                        &&& resolved.command is None
                        &&& resolved.con_id is None
                        &&& !resolved.existing
                        &&& resolved.app_id is None
                        &&& resolved.class is None
                        &&& resolved.mark_match is None
                    },
                }
            },
{
    let bound = bindings.binding@;
    assert forall|i: int| 0 <= i < template.step@.len() implies {
        let resolved = #[trigger] resolved_steps(template, bindings)[i];
        match template.step@[i].slot {
            Some(slot) => {
                &&& resolved.id == Some(slot)
                &&& exists|j: int|
                    0 <= j < bound.len() && (#[trigger] bound[j]).slot@ == slot@ && acts_on_bound(
                        resolved,
                        bound[j],
                    )
            },
            None => {
                &&& template.step@[i].target_id is Some
                &&& resolved.target_id == template.step@[i].target_id
                &&& resolved.id is None
                &&& resolved.command is None
                &&& resolved.con_id is None
                &&& !resolved.existing
                &&& resolved.app_id is None
                &&& resolved.class is None
                &&& resolved.mark_match is None
            },
        }
    } by {
        lemma_no_step_is_faulty(template.step@, bound, 0, i);
        if let Some(slot) = template.step@[i].slot {
            lemma_binding_for(bound, slot@);
            let binding = binding_for(bound, slot@)->0;
            let j = choose|j: int|
                0 <= j < bound.len() && (#[trigger] bound[j]) == binding && binding.slot@ == slot@;
            assert(acts_on_bound(resolved_steps(template, bindings)[i], bound[j]));
        }
    }
}

/// Whether a binding says what goes into its slot: one of a command that is not
/// blank, a container, or an open window; and at most one thing to find a window
/// by.
pub open spec fn usable(binding: Binding) -> bool {
    &&& {
        ||| binding.command is Some && binding.con_id is None && !binding.existing
        ||| binding.command is None && binding.con_id is Some && !binding.existing
        ||| binding.command is None && binding.con_id is None && binding.existing
    }
    &&& binding.command matches Some(command) ==> !text::blank(command@)
    &&& {
        ||| binding.app_id is None && binding.class is None
        ||| binding.app_id is None && binding.mark_match is None
        ||| binding.class is None && binding.mark_match is None
    }
}

/// Whether each step fills a slot or names the window of one, by a name that is
/// not blank; whether no two steps fill the same slot; and whether there is a
/// usable binding for each slot.
pub open spec fn steps_fit(steps: Seq<TemplateStep>, bindings: Seq<Binding>) -> bool {
    &&& forall|i: int|
        0 <= i < steps.len() ==> {
            ||| (#[trigger] steps[i]).slot is Some && steps[i].target_id is None && !text::blank(
                steps[i].slot->0@,
            )
            ||| steps[i].slot is None && steps[i].target_id is Some && !text::blank(
                steps[i].target_id->0@,
            )
        }
    &&& forall|i: int, j: int|
        #![trigger steps[i], steps[j]]
        0 <= i < j < steps.len() && steps[i].slot is Some && steps[j].slot is Some
            ==> steps[i].slot->0@ != steps[j].slot->0@
    &&& forall|i: int|
        0 <= i < steps.len() && (#[trigger] steps[i]).slot is Some ==> exists|j: int|
            0 <= j < bindings.len() && (#[trigger] bindings[j]).slot@ == steps[i].slot->0@
                && usable(bindings[j])
}

/// Whether each binding is for a slot with a name, no two are for the same slot,
/// and each is for a slot that some step fills.
pub open spec fn bindings_fit(steps: Seq<TemplateStep>, bindings: Seq<Binding>) -> bool {
    &&& forall|j: int| 0 <= j < bindings.len() ==> !text::blank((#[trigger] bindings[j]).slot@)
    &&& forall|j: int, k: int|
        #![trigger bindings[j], bindings[k]]
        0 <= j < k < bindings.len() ==> bindings[j].slot@ != bindings[k].slot@
    &&& forall|j: int|
        0 <= j < bindings.len() ==> exists|i: int|
            0 <= i < steps.len() && (#[trigger] steps[i]).slot is Some && steps[i].slot->0@ == (
            #[trigger] bindings[j]).slot@
}

proof fn lemma_step_fits(steps: Seq<TemplateStep>, bindings: Seq<Binding>, i: int)
    requires
        0 <= i < steps.len(),
        forall|j: int, k: int|
            #![trigger bindings[j], bindings[k]]
            0 <= j < k < bindings.len() ==> bindings[j].slot@ != bindings[k].slot@,
    ensures
        step_fault(steps, bindings, i) is None <==> {
            ||| {
                &&& steps[i].slot is Some
                &&& steps[i].target_id is None
                &&& !text::blank(steps[i].slot->0@)
                &&& forall|k: int|
                    0 <= k < i && (#[trigger] steps[k]).slot is Some ==> steps[k].slot->0@
                        != steps[i].slot->0@
                &&& exists|j: int|
                    0 <= j < bindings.len() && (#[trigger] bindings[j]).slot@ == steps[i].slot->0@
                        && usable(bindings[j])
            }
            ||| steps[i].slot is None && steps[i].target_id is Some && !text::blank(
                steps[i].target_id->0@,
            )
        },
{
    if let (Some(slot), None) = (steps[i].slot, steps[i].target_id) {
        lemma_binding_for(bindings, slot@);
        assert(slot_named(steps.take(i), slot@) <==> exists|k: int|
            0 <= k < i && (#[trigger] steps[k]).slot is Some && steps[k].slot->0@ == slot@) by {
            if slot_named(steps.take(i), slot@) {
                let k = choose|k: int|
                    0 <= k < i && text::opt_text((#[trigger] steps.take(i)[k]).slot) == Some(slot@);
                assert(steps[k].slot is Some && steps[k].slot->0@ == slot@);
            }
            if exists|k: int|
                0 <= k < i && (#[trigger] steps[k]).slot is Some && steps[k].slot->0@ == slot@ {
                let k = choose|k: int|
                    0 <= k < i && (#[trigger] steps[k]).slot is Some && steps[k].slot->0@ == slot@;
                assert(text::opt_text(steps.take(i)[k].slot) == Some(slot@));
            }
        }
        if let Some(binding) = binding_for(bindings, slot@) {
            let j = choose|j: int|
                0 <= j < bindings.len() && (#[trigger] bindings[j]) == binding && binding.slot@
                    == slot@;
            assert(bound_fault(binding, slot@) is None <==> usable(binding));
            assert forall|k: int|
                0 <= k < bindings.len() && (#[trigger] bindings[k]).slot@ == slot@ implies k == j by {
                assert(bindings[j].slot@ == slot@);
            }
        }
    }
}

/// A template resolves against bindings exactly where the steps and the bindings
/// fit each other: nothing is left without a binding, and no binding is left
/// over.
pub proof fn law_a_template_resolves_where_all_fits(template: Template, bindings: Bindings)
    ensures
        resolve_fault(template, bindings) is None <==> steps_fit(template.step@, bindings.binding@)
            && bindings_fit(template.step@, bindings.binding@),
{
    let steps = template.step@;
    let bound = bindings.binding@;
    let all = bound.map_values(|binding: Binding| binding.slot@);
    let unnamed = |slot: Seq<char>| !slot_named(steps, slot);
    assert forall|slot: Seq<char>| #[trigger] slot_named(steps, slot) <==> exists|i: int|
        0 <= i < steps.len() && (#[trigger] steps[i]).slot is Some && steps[i].slot->0@ == slot by {
        if slot_named(steps, slot) {
            let i = choose|i: int|
                0 <= i < steps.len() && text::opt_text((#[trigger] steps[i]).slot) == Some(slot);
            assert(steps[i].slot is Some && steps[i].slot->0@ == slot);
        }
        if exists|i: int|
            0 <= i < steps.len() && (#[trigger] steps[i]).slot is Some && steps[i].slot->0@ == slot {
            let i = choose|i: int|
                0 <= i < steps.len() && (#[trigger] steps[i]).slot is Some && steps[i].slot->0@
                    == slot;
            assert(text::opt_text(steps[i].slot) == Some(slot));
        }
    }
    if resolve_fault(template, bindings) is None {
        assert forall|j: int| 0 <= j < bound.len() implies !text::blank(
            (#[trigger] bound[j]).slot@,
        ) by {
            lemma_no_binding_is_faulty(bound, 0, j);
        }
        assert forall|j: int, k: int|
            #![trigger bound[j], bound[k]]
            0 <= j < k < bound.len() implies bound[j].slot@ != bound[k].slot@ by {
            lemma_no_binding_is_faulty(bound, 0, k);
            if bound[j].slot@ == bound[k].slot@ {
                assert(bound.take(k)[j].slot@ == bound[k].slot@);
                assert(slot_bound(bound.take(k), bound[k].slot@));
            }
        }
        assert forall|j: int| 0 <= j < bound.len() implies exists|i: int|
            0 <= i < steps.len() && (#[trigger] steps[i]).slot is Some && steps[i].slot->0@ == (
            #[trigger] bound[j]).slot@ by {
            if !slot_named(steps, bound[j].slot@) {
                broadcast use vstd::seq_lib::group_filter_ensures;

                assert(all[j] == bound[j].slot@);
                assert(unnamed(all[j]));
                assert(all.filter(unnamed).contains(all[j]));
                assert(unused_slots(steps, bound).len() > 0);
            }
        }
        assert forall|i: int| 0 <= i < steps.len() implies #[trigger] step_fault(
            steps,
            bound,
            i,
        ) is None by {
            lemma_no_step_is_faulty(steps, bound, 0, i);
        }
        assert forall|i: int| 0 <= i < steps.len() implies {
            ||| (#[trigger] steps[i]).slot is Some && steps[i].target_id is None && !text::blank(
                steps[i].slot->0@,
            )
            ||| steps[i].slot is None && steps[i].target_id is Some && !text::blank(
                steps[i].target_id->0@,
            )
        } by {
            assert(step_fault(steps, bound, i) is None);
            lemma_step_fits(steps, bound, i);
        }
        assert forall|i: int, j: int|
            #![trigger steps[i], steps[j]]
            0 <= i < j < steps.len() && steps[i].slot is Some && steps[j].slot is Some implies
            steps[i].slot->0@ != steps[j].slot->0@ by {
            assert(step_fault(steps, bound, j) is None);
            lemma_step_fits(steps, bound, j);
        }
        assert forall|i: int| 0 <= i < steps.len() && (#[trigger] steps[i]).slot is Some implies
            exists|j: int|
            0 <= j < bound.len() && (#[trigger] bound[j]).slot@ == steps[i].slot->0@ && usable(
                bound[j],
            ) by {
            assert(step_fault(steps, bound, i) is None);
            lemma_step_fits(steps, bound, i);
        }
    }
    if steps_fit(steps, bound) && bindings_fit(steps, bound) {
        assert forall|j: int| 0 <= j < bound.len() implies #[trigger] binding_fault(
            bound,
            j,
        ) is None by {
            if slot_bound(bound.take(j), bound[j].slot@) {
                let k = choose|k: int|
                    0 <= k < j && (#[trigger] bound.take(j)[k]).slot@ == bound[j].slot@;
                assert(bound[k].slot@ == bound[j].slot@);
            }
        }
        lemma_no_binding_is_faulty_conversely(bound, 0);
        assert forall|i: int| 0 <= i < steps.len() implies #[trigger] step_fault(
            steps,
            bound,
            i,
        ) is None by {
            lemma_step_fits(steps, bound, i);
        }
        lemma_no_step_is_faulty_conversely(steps, bound, 0);
        if unused_slots(steps, bound).len() > 0 {
            broadcast use vstd::seq_lib::group_filter_ensures;

            let slot = unused_slots(steps, bound)[0];
            assert(unnamed(slot));
            text::lemma_filter_members(all, unnamed);
            assert(all.contains(slot));
            let j = choose|j: int| 0 <= j < all.len() && all[j] == slot;
            assert(bound[j].slot@ == slot);
        }
    }
}

/// What the first thing that is wrong is answered: with a binding, then with a
/// step, then that a binding is left over.
pub proof fn law_the_first_fault_is_the_one_reported(
    template: Template,
    bindings: Bindings,
    at: int,
)
    ensures
        ({
            let steps = template.step@;
            let bound = bindings.binding@;
            &&& 0 <= at < bound.len() && binding_fault(bound, at) is Some && (forall|j: int|
                0 <= j < at ==> #[trigger] binding_fault(bound, j) is None) ==> resolve_fault(
                template,
                bindings,
            ) == binding_fault(bound, at)
            &&& (forall|j: int|
                0 <= j < bound.len() ==> #[trigger] binding_fault(bound, j) is None) && 0 <= at
                < steps.len() && step_fault(steps, bound, at) is Some && (forall|j: int|
                0 <= j < at ==> #[trigger] step_fault(steps, bound, j) is None) ==> resolve_fault(
                template,
                bindings,
            ) == step_fault(steps, bound, at)
        }),
{
    let steps = template.step@;
    let bound = bindings.binding@;
    if 0 <= at < bound.len() && binding_fault(bound, at) is Some && (forall|j: int|
        0 <= j < at ==> #[trigger] binding_fault(bound, j) is None) {
        lemma_first_binding_fault(bound, 0, at);
    }
    if (forall|j: int| 0 <= j < bound.len() ==> #[trigger] binding_fault(bound, j) is None) && 0
        <= at < steps.len() && step_fault(steps, bound, at) is Some && (forall|j: int|
        0 <= j < at ==> #[trigger] step_fault(steps, bound, j) is None) {
        lemma_no_binding_is_faulty_conversely(bound, 0);
        lemma_first_step_fault(steps, bound, 0, at);
    }
}

proof fn lemma_first_binding_fault(bindings: Seq<Binding>, from: int, at: int)
    requires
        0 <= from <= at < bindings.len(),
        binding_fault(bindings, at) is Some,
        forall|j: int| 0 <= j < at ==> #[trigger] binding_fault(bindings, j) is None,
    ensures
        bindings_fault(bindings, from) == binding_fault(bindings, at),
    decreases at - from,
{
    if from < at {
        assert(binding_fault(bindings, from) is None);
        lemma_first_binding_fault(bindings, from + 1, at);
    }
}

proof fn lemma_first_step_fault(
    steps: Seq<TemplateStep>,
    bindings: Seq<Binding>,
    from: int,
    at: int,
)
    requires
        0 <= from <= at < steps.len(),
        step_fault(steps, bindings, at) is Some,
        forall|j: int| 0 <= j < at ==> #[trigger] step_fault(steps, bindings, j) is None,
    ensures
        steps_fault(steps, bindings, from) == step_fault(steps, bindings, at),
    decreases at - from,
{
    if from < at {
        assert(step_fault(steps, bindings, from) is None);
        lemma_first_step_fault(steps, bindings, from + 1, at);
    }
}

/// What a step is answered that has nothing to fill its slot, that has both a
/// slot and a target or neither, or whose slot an earlier step fills.
pub proof fn law_what_a_step_that_does_not_fit_is_answered(
    steps: Seq<TemplateStep>,
    bindings: Seq<Binding>,
    i: int,
)
    requires
        0 <= i < steps.len(),
    ensures
        (steps[i].slot is Some <==> steps[i].target_id is Some) ==> step_fault(steps, bindings, i)
            == Some("template step must set exactly one of: slot, target_id"@),
        steps[i].slot is Some && steps[i].target_id is None && text::blank(steps[i].slot->0@)
            ==> step_fault(steps, bindings, i) == Some(
            "slot"@ + " must not be empty or whitespace-only"@,
        ),
        steps[i].slot is None && steps[i].target_id is Some && text::blank(steps[i].target_id->0@)
            ==> step_fault(steps, bindings, i) == Some(
            "target_id"@ + " must not be empty or whitespace-only"@,
        ),
        steps[i].slot is Some && steps[i].target_id is None && !text::blank(steps[i].slot->0@) && (
        forall|j: int|
            0 <= j < bindings.len() ==> (#[trigger] bindings[j]).slot@ != steps[i].slot->0@)
            ==> step_fault(steps, bindings, i) == Some(
            "no binding for slot "@ + text::debug_form(steps[i].slot->0@),
        ),
{
    if let Some(slot) = steps[i].slot {
        lemma_binding_for(bindings, slot@);
    }
}

/// What a binding is answered that does not say what goes into its slot.
pub proof fn law_what_an_unusable_binding_is_answered(binding: Binding, slot: Seq<char>)
    ensures
        bound_fault(binding, slot) is None <==> usable(binding),
        binding.command is None && binding.con_id is None && !binding.existing ==> bound_fault(
            binding,
            slot,
        ) == Some(
            "binding for slot "@ + text::debug_form(slot)
                + " must set exactly one of: command, con_id, existing"@,
        ),
        binding.command is Some && binding.con_id is None && !binding.existing && text::blank(
            binding.command->0@,
        ) ==> bound_fault(binding, slot) == Some(
            "binding for slot "@ + text::debug_form(slot) + ": "@ + ("command"@
                + " must not be empty or whitespace-only"@),
        ),
        binding.existing && binding.command is None && binding.con_id is None
            && binding.app_id is Some && binding.class is Some ==> bound_fault(binding, slot)
            == Some(
            "binding for slot "@ + text::debug_form(slot)
                + " must set only one of: app_id, class, mark_match"@,
        ),
{
}

/// What a template says of itself is accepted exactly where neither its
/// description nor its category is blank; the description is looked at first.
pub proof fn law_a_template_has_to_describe_itself(template: Template)
    ensures
        metadata_fault(template) is None <==> !text::blank(template.template.description@)
            && !text::blank(template.template.category@),
        text::blank(template.template.description@) ==> metadata_fault(template) == Some(
            "template.description"@ + " must not be empty or whitespace-only"@,
        ),
        !text::blank(template.template.description@) && text::blank(template.template.category@)
            ==> metadata_fault(template) == Some(
            "template.category"@ + " must not be empty or whitespace-only"@,
        ),
{
}

proof fn lemma_first_empty(values: Seq<Seq<char>>, from: int)
    requires
        0 <= from,
    ensures
        match first_empty(values, from) {
            Some(i) => from <= i < values.len() && values[i].len() == 0 && forall|j: int|
                from <= j < i ==> (#[trigger] values[j]).len() > 0,
            None => forall|j: int| from <= j < values.len() ==> (#[trigger] values[j]).len() > 0,
        },
    decreases values.len() - from,
{
    if from < values.len() && values[from].len() > 0 {
        lemma_first_empty(values, from + 1);
    }
}

/// A list of applications fits a template exactly where it has one for each
/// slot and none of them is blank. It is taken apart at its commas, all of them,
/// and the white space around each application is dropped.
pub proof fn law_a_list_of_applications_fits_where_each_slot_has_one(
    steps: Seq<TemplateStep>,
    apps: Seq<char>,
)
    ensures
        ({
            let parts = text::split_on(apps, ',');
            &&& text::joined(parts, seq![',']) == apps
            &&& forall|i: int| 0 <= i < parts.len() ==> !(#[trigger] parts[i]).contains(',')
            &&& listed_apps(apps).len() == parts.len()
            &&& forall|i: int|
                0 <= i < parts.len() ==> (#[trigger] listed_apps(apps)[i]) == text::trimmed(
                    parts[i],
                )
            &&& apps_fault(steps, apps) is None <==> parts.len() == distinct_slots(steps).len() && (
            forall|i: int| 0 <= i < parts.len() ==> !text::blank(#[trigger] parts[i]))
            &&& parts.len() != distinct_slots(steps).len() ==> apps_fault(steps, apps) == Some(
                "template needs "@ + text::decimal(distinct_slots(steps).len())
                    + " application(s) ("@ + text::joined(distinct_slots(steps), ", "@)
                    + "), got "@ + text::decimal(parts.len()),
            )
            &&& forall|i: int|
                0 <= i < parts.len() && parts.len() == distinct_slots(steps).len() && text::blank(
                    #[trigger] parts[i],
                ) && (forall|j: int| 0 <= j < i ==> !text::blank(#[trigger] parts[j]))
                    ==> apps_fault(steps, apps) == Some(
                    "--apps: empty application for slot "@ + text::debug_form(
                        distinct_slots(steps)[i],
                    ),
                )
        }),
{
    let parts = text::split_on(apps, ',');
    let listed = listed_apps(apps);
    text::lemma_split_on(apps, ',');
    lemma_first_empty(listed, 0);
    assert forall|i: int| 0 <= i < parts.len() implies (#[trigger] listed[i]) == text::trimmed(
        parts[i],
    ) && (text::blank(parts[i]) <==> listed[i].len() == 0) by {
        text::lemma_blank_is_trimmed_to_nothing(parts[i]);
    }
    assert forall|i: int| 0 <= i < parts.len() implies (text::blank(#[trigger] parts[i])
        <==> listed[i].len() == 0) by {
        assert(listed[i] == text::trimmed(parts[i]));
    }
    if let Some(at) = first_empty(listed, 0) {
        assert(text::blank(parts[at]));
        assert forall|i: int|
            0 <= i < parts.len() && text::blank(#[trigger] parts[i]) && (forall|j: int|
                0 <= j < i ==> !text::blank(#[trigger] parts[j])) implies i == at by {
            assert(listed[i].len() == 0);
        }
    }
}

/// The bindings that come of a list launch each application into its own slot,
/// by its command alone.
pub proof fn law_listed_applications_are_launched_and_nothing_else(
    bindings: Seq<Binding>,
    steps: Seq<TemplateStep>,
    apps: Seq<char>,
    i: int,
)
    requires
        launches_listed(bindings, steps, apps),
        0 <= i < bindings.len(),
    ensures
        bindings.len() == distinct_slots(steps).len(),
        bindings[i].slot@ == distinct_slots(steps)[i],
        bindings[i].command is Some,
        bindings[i].command->0@ == listed_apps(apps)[i],
        bindings[i].con_id is None,
        !bindings[i].existing,
        bindings[i].app_id is None,
        bindings[i].class is None,
        bindings[i].mark_match is None,
{
}

/// The slots that are reported as left over are just those of the bindings that
/// are for no step's slot; they are reported in order.
pub proof fn law_slots_that_are_left_over_are_reported(template: Template, bindings: Bindings)
    ensures
        ({
            let steps = template.step@;
            let bound = bindings.binding@;
            let unused = unused_slots(steps, bound);
            &&& forall|slot: Seq<char>| #[trigger]
                unused.contains(slot) <==> (exists|j: int|
                    0 <= j < bound.len() && (#[trigger] bound[j]).slot@ == slot) && forall|i: int|
                    0 <= i < steps.len() ==> text::opt_text((#[trigger] steps[i]).slot) != Some(
                        slot,
                    )
            &&& bindings_fault(bound, 0) is None && steps_fault(steps, bound, 0) is None
                && unused.len() > 0 ==> exists|sorted: Seq<Seq<char>>| #[trigger]
                vstd::relations::sorted_by(sorted, text::text_order()) && sorted.to_multiset()
                    == unused.to_multiset() && resolve_fault(template, bindings) == Some(
                    "binding(s) for unused slot(s): "@ + text::joined(sorted, ", "@),
                )
        }),
{
    broadcast use vstd::seq_lib::group_filter_ensures;

    let steps = template.step@;
    let bound = bindings.binding@;
    let unused = unused_slots(steps, bound);
    let all = bound.map_values(|binding: Binding| binding.slot@);
    let unnamed = |slot: Seq<char>| !slot_named(steps, slot);
    text::lemma_filter_members(all, unnamed);
    text::lemma_text_order();
    assert forall|slot: Seq<char>| #[trigger] unused.contains(slot) <==> (exists|j: int|
        0 <= j < bound.len() && (#[trigger] bound[j]).slot@ == slot) && forall|i: int|
        0 <= i < steps.len() ==> text::opt_text((#[trigger] steps[i]).slot) != Some(slot) by {
        if unused.contains(slot) {
            let k = choose|k: int| 0 <= k < unused.len() && unused[k] == slot;
            assert(all.contains(unused[k]));
            assert(unnamed(unused[k]));
            let j = choose|j: int| 0 <= j < all.len() && all[j] == slot;
            assert(bound[j].slot@ == slot);
        }
        if (exists|j: int| 0 <= j < bound.len() && (#[trigger] bound[j]).slot@ == slot)
            && unnamed(slot) {
            let j = choose|j: int| 0 <= j < bound.len() && (#[trigger] bound[j]).slot@ == slot;
            assert(all[j] == slot);
            assert(all.filter(unnamed).contains(all[j]));
        }
    }
    unused.lemma_sort_by_ensures(text::text_order());
    assert(vstd::relations::sorted_by(
        unused.sort_by(text::text_order()),
        text::text_order(),
    ));
}

/// What a slot that is bound or filled twice is answered, and a binding for a
/// slot without a name.
pub proof fn law_what_a_slot_that_comes_twice_is_answered(
    steps: Seq<TemplateStep>,
    bindings: Seq<Binding>,
    k: int,
    i: int,
)
    requires
        0 <= k < i,
    ensures
        i < bindings.len() && text::blank(bindings[i].slot@) ==> binding_fault(bindings, i) == Some(
            "binding.slot"@ + " must not be empty or whitespace-only"@,
        ),
        i < bindings.len() && !text::blank(bindings[i].slot@) && bindings[k].slot@
            == bindings[i].slot@ ==> binding_fault(bindings, i) == Some(
            "slot "@ + text::debug_form(bindings[i].slot@) + " has more than one binding"@,
        ),
        i < steps.len() && steps[i].slot is Some && steps[i].target_id is None && !text::blank(
            steps[i].slot->0@,
        ) && (binding_for(bindings, steps[i].slot->0@) matches Some(binding) && usable(binding))
            && steps[k].slot is Some && steps[k].slot->0@ == steps[i].slot->0@ ==> step_fault(
            steps,
            bindings,
            i,
        ) == Some(
            "template: slot "@ + text::debug_form(steps[i].slot->0@) + " is used more than once"@,
        ),
{
    if i < bindings.len() && bindings[k].slot@ == bindings[i].slot@ {
        assert(bindings.take(i)[k].slot@ == bindings[i].slot@);
        assert(slot_bound(bindings.take(i), bindings[i].slot@));
    }
    if i < steps.len() && steps[i].slot is Some && steps[k].slot is Some && steps[k].slot->0@
        == steps[i].slot->0@ {
        assert(text::opt_text(steps.take(i)[k].slot) == Some(steps[i].slot->0@));
        assert(slot_named(steps.take(i), steps[i].slot->0@));
        if let Some(binding) = binding_for(bindings, steps[i].slot->0@) {
            law_what_an_unusable_binding_is_answered(binding, steps[i].slot->0@);
        }
    }
}

} // verus!
