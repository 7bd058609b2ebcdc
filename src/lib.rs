use vstd::prelude::*;

pub mod commands;
pub mod history;
pub mod ps;
pub mod rc;
pub mod session;
pub mod shell;
pub mod system;
pub mod terminal;
pub mod text;
pub mod valid_pbuf;

verus! {

/// This shell's name, as scripts see it.
pub const NAME: &'static str = "lambdashell";

/// This shell's version.
pub const VERSION: &'static str = "0.1.0";

} // verus!
