use vstd::prelude::*;

pub mod text;
pub mod commands;
pub mod command_history;
pub mod tui;
pub mod keybinds;
pub mod backends;
pub mod message;
pub mod hooks;
pub mod config;
pub mod util;
pub mod local;
pub mod backend_actor;
pub mod signal;
pub mod matrix;

verus! {

} // verus!
