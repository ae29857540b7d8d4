//! Renders the two halves of an interactive shell prompt.
//!
//! The library is a pure function from ambient shell state, handed in as
//! plain values (working directory, home directory, multiplexer session
//! root, a version-control status report, the previous command's exit code
//! and duration), to the escaped text a shell displays. Reading that state
//! and printing the result is left to the caller.

use vstd::prelude::*;

pub mod colors;
pub mod git;
pub mod num;
pub mod path;
pub mod prompt;
pub mod text;
pub mod timing;

pub use colors::Colors;
pub use colors::select_colors;
pub use git::Divergence;
pub use git::get_git_status;
pub use git::parse_git_ab;
pub use path::get_path;
pub use path::home_substitution;
pub use path::tmux_substitution;
pub use prompt::get_exit_code;
pub use prompt::get_left_prompt;
pub use prompt::get_right_prompt;
pub use timing::format_timing;
pub use timing::get_timing;

verus! {

/// The fatal configuration faults a segment builder can report. Every
/// other malformed input degrades to an absent or placeholder segment;
/// these two are surfaced so the caller can abort before printing a
/// half-rendered prompt.
#[derive(Clone, Copy, Debug, PartialEq, Eq, Structural)]
pub enum PromptError {
    /// A `branch.ab` status value did not have the `+<ahead> -<behind>`
    /// shape.
    MalformedAheadBehind,
    /// The multiplexer session root has no extractable final path
    /// component.
    MalformedSessionPath,
}

} // verus!
