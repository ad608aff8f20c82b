//! What a command line asks for, where its flags do not settle it one by one.

use crate::launch::Target;
use crate::layout::TargetView;
use vstd::prelude::*;

verus! {

broadcast use vstd::string::group_string_axioms;

/// What a command line without a window to act on is answered.
pub const MISSING_TARGET_ERROR: &'static str = "Missing COMMAND, or one of --con-id/--existing";

/// What a command line that asks for an open window without saying which is
/// answered.
pub const MISSING_MATCH_ERROR: &'static str = "--existing requires --app-id or --class";

/// What a template without one source of applications is answered.
pub const MISSING_BINDINGS_ERROR: &'static str = "--template requires one of --bindings/--apps";

/// What is wrong with the flags that say which window to act on.
pub open spec fn target_fault(
    debug_events: bool,
    command: Seq<char>,
    con_id: Option<i64>,
    existing: bool,
    app_id: Seq<char>,
    class: Seq<char>,
) -> Option<Seq<char>> {
    if !debug_events && command.len() == 0 && con_id is None && !existing {
        Some(MISSING_TARGET_ERROR@)
    } else if existing && app_id.len() == 0 && class.len() == 0 {
        Some(MISSING_MATCH_ERROR@)
    } else {
        None
    }
}

/// The window to act on: the one with the given container id, else an open one
/// where asked for, else that of the command.
pub fn choose_target<'a>(
    debug_events: bool,
    command: &'a str,
    con_id: Option<i64>,
    existing: bool,
    app_id_match: &str,
    class_match: &str,
) -> (result: Result<Target<'a>, String>)
    ensures
        ({
            let fault = target_fault(
                debug_events,
                command@,
                con_id,
                existing,
                app_id_match@,
                class_match@,
            );
            match result {
                Ok(target) => fault is None && target@ == match con_id {
                    Some(con_id) => TargetView::ConId(con_id),
                    None => if existing {
                        TargetView::Existing
                    } else {
                        TargetView::Exec { command: command@ }
                    },
                },
                Err(error) => fault == Some(error@),
            }
        }),
        result matches Ok(target) ==> {
            &&& con_id matches Some(id) ==> target == Target::ConId(id)
            &&& con_id is None && existing ==> target is Existing
            &&& con_id is None && !existing ==> target == (Target::Exec { command })
        },
{
    if !debug_events && command.is_empty() && con_id.is_none() && !existing {
        return Err(MISSING_TARGET_ERROR.to_owned());
    }
    if existing && app_id_match.is_empty() && class_match.is_empty() {
        return Err(MISSING_MATCH_ERROR.to_owned());
    }
    Ok(
        match con_id {
            Some(con_id) => Target::ConId(con_id),
            None => if existing {
                Target::Existing
            } else {
                Target::Exec { command }
            },
        },
    )
}

/// Where the applications for a template's slots come from.
#[derive(Copy, Clone, Debug, PartialEq, Eq, Structural)]
pub enum BindingsSource {
    File,
    Apps,
}

/// Where the applications for a template's slots come from: a file of bindings
/// or a list of applications, and not both.
pub fn choose_bindings_source(bindings_given: bool, apps_given: bool) -> (result: Result<
    BindingsSource,
    String,
>)
    ensures
        match result {
            Ok(source) => bindings_given != apps_given && source == if bindings_given {
                BindingsSource::File
            } else {
                BindingsSource::Apps
            },
            Err(error) => bindings_given == apps_given && error@ == MISSING_BINDINGS_ERROR@,
        },
{
    match (bindings_given, apps_given) {
        (true, false) => Ok(BindingsSource::File),
        (false, true) => Ok(BindingsSource::Apps),
        _ => Err(MISSING_BINDINGS_ERROR.to_owned()),
    }
}

/// A command line says which window to act on exactly where it has a command, a
/// container or asks for an open one, and says of an open one by what to find
/// it; only the display of events needs no window.
pub proof fn law_a_command_line_needs_a_window(
    debug_events: bool,
    command: Seq<char>,
    con_id: Option<i64>,
    existing: bool,
    app_id: Seq<char>,
    class: Seq<char>,
)
    ensures
        ({
            let fault = target_fault(debug_events, command, con_id, existing, app_id, class);
            let named = debug_events || command.len() > 0 || con_id is Some || existing;
            let found = existing ==> app_id.len() > 0 || class.len() > 0;
            &&& fault is None <==> named && found
            &&& !named ==> fault == Some("Missing COMMAND, or one of --con-id/--existing"@)
            &&& named && !found ==> fault == Some("--existing requires --app-id or --class"@)
        }),
{
    assert(MISSING_TARGET_ERROR@ == "Missing COMMAND, or one of --con-id/--existing"@);
    assert(MISSING_MATCH_ERROR@ == "--existing requires --app-id or --class"@);
}

/// What a template without one source of applications is answered.
pub proof fn law_what_a_template_without_applications_is_answered()
    ensures
        MISSING_BINDINGS_ERROR@ == "--template requires one of --bindings/--apps"@,
{
}

} // verus!
