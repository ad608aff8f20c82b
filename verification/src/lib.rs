//! Launching applications in a Sway session and acting on the windows they
//! create: the decisions, checks and texts behind the `sway-launch` tool.

pub mod text;
pub mod time;
pub mod values;
pub mod ipc;
pub mod tree;
pub mod outcome;
pub mod process_marker;
pub mod query;
pub mod action;
pub mod confirmation;
pub mod wait_time;
pub mod event_wait;
pub mod exec_wait;
pub mod launch;
pub mod run;
pub mod layout;
pub mod template;
pub mod builtin;
pub mod cli;
pub mod steps;
