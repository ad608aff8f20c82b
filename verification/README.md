# sway_launch

`sway-launch` launches applications in a [Sway](https://swaywm.org/) session and acts on the
windows they create: it waits for the new window, moves, splits, sizes, marks or focuses it, and
prints its container id. Whole arrangements are described in TOML, as layouts (steps that name
their applications) or as templates (steps that name slots, filled by bindings or by a list of
applications).

The library in `src/` holds what the tool decides, checks and says, written in Rust and proved
with Verus. It does no input or output of its own: where something has to be asked of the
compositor, waited for or read from the system, a *run* says what it asks for next and takes the
answer as an event. A run also gives the lines that tell a user what it is doing and what it saw.
The program in `app/` does what the runs ask for and prints what they tell.

- `text`, `time`: texts as sequences of characters, spans of time in nanoseconds.
- `values`: sizes, positions and quoted strings, and the checks that let them in.
- `ipc`: phrasing commands, quoting values, reading replies.
- `tree`, `query`: the tree of containers and what its answers say of a window.
- `action`, `confirmation`: the actions on a window, and how their effect is told.
- `wait_time`, `event_wait`, `exec_wait`: running an action by the clock, by an event, or by
  finding a launched window.
- `process_marker`: telling a launched process by its environment.
- `outcome`, `launch`, `run`: the plan for one window, and following it.
- `layout`, `template`, `builtin`, `steps`, `cli`: files, built-in templates, steps and flags.

Proof functions whose names begin with `law_` state what holds of the library as a whole.

What comes from elsewhere is stated rather than proved: how a regular expression matches
(`values::captures`), what an embedded directory holds (`builtin`), the stem of a file name
(`builtin::stem_of`) and the quoted form of a text (`text::debug_text`).
