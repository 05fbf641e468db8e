//! The requests and notifications of the editor.

pub mod capabilities;
pub mod commands;
pub mod events;
pub mod git_head;
pub mod initialize;
pub mod laws;
pub mod operation_laws;
pub mod panic_guard;
pub mod progress;
pub mod start_laws;
pub mod step_laws;
