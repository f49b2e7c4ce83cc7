//! Command definitions and message matching for a chat robot.
//!
//! A configuration object maps message patterns to command declarations.
//! Each declaration is compiled into a [`command::WXWorkCommand`]; incoming
//! messages are matched against those commands and the captures are projected
//! into an environment mapping for whatever runs the command.
use vstd::prelude::*;

pub mod command;
pub mod env;
pub mod json;
pub mod text;

verus! {

} // verus!
