use vstd::prelude::*;

pub mod clipboard;
pub mod command;
pub mod control;
pub mod host_input;
pub mod json_command;
pub mod keycodes;
pub mod keys_sequence;
pub mod plan;
pub mod protocol;
pub mod server;
pub mod session;
pub mod startup;
pub mod text;
pub mod window;

verus! {

} // verus!
