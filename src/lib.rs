//! Run a command in a CI job and report its outcome as a comment on the
//! pull request that the build belongs to.
use vstd::prelude::*;

pub mod pull_request;
pub mod run;
pub mod template;
pub mod text;

pub use pull_request::Environment;
pub use run::{exit_code, parse_command_name_and_args, publish_step, run, Event, Failure, RunState, Success};
pub use template::{
    build_comment, expand_template_variables, CommandResult, DEFAULT_EXIT_NON_ZERO, DEFAULT_EXIT_ZERO,
};

verus! {

} // verus!
