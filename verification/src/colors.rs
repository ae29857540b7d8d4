//! Escape-sequence profiles for the two supported shells.
//!
//! Each profile wraps the same ANSI color codes in the shell's own
//! zero-width markers, so that the shell's line editor does not count the
//! escape bytes toward the visible prompt width.

use vstd::prelude::*;

verus! {

/// The escape sequences used by the prompt segments: an alert color for
/// failed exit codes, an emphasis color for the path, a muted color for
/// timing, and the reset that closes each of them.
pub struct Colors {
    pub red: &'static str,
    pub cyan: &'static str,
    pub reset: &'static str,
    pub dim: &'static str,
}

/// The alert escape of the profile selected for `is_zsh`.
pub open spec fn red_seq(is_zsh: bool) -> Seq<char> {
    if is_zsh {
        "%{\x1b[31m%}"@
    } else {
        "\x01\x1b[31m\x02"@
    }
}

/// The emphasis escape of the profile selected for `is_zsh`.
pub open spec fn cyan_seq(is_zsh: bool) -> Seq<char> {
    if is_zsh {
        "%{\x1b[36m%}"@
    } else {
        "\x01\x1b[36m\x02"@
    }
}

/// The reset escape of the profile selected for `is_zsh`.
pub open spec fn reset_seq(is_zsh: bool) -> Seq<char> {
    if is_zsh {
        "%{\x1b[0m%}"@
    } else {
        "\x01\x1b[0m\x02"@
    }
}

/// The muted escape of the profile selected for `is_zsh`.
pub open spec fn dim_seq(is_zsh: bool) -> Seq<char> {
    if is_zsh {
        "%{\x1b[2m%}"@
    } else {
        "\x01\x1b[2m\x02"@
    }
}

/// Holds when `c` is exactly the profile selected for `is_zsh`.
pub open spec fn is_profile(c: Colors, is_zsh: bool) -> bool {
    &&& c.red@ == red_seq(is_zsh)
    &&& c.cyan@ == cyan_seq(is_zsh)
    &&& c.reset@ == reset_seq(is_zsh)
    &&& c.dim@ == dim_seq(is_zsh)
}

/// Chooses the escape profile once per invocation: zsh wraps escapes in
/// `%{`..`%}`, every other shell gets readline's `\x01`..`\x02` markers.
pub fn select_colors(is_zsh: bool) -> (c: Colors)
    ensures
        is_profile(c, is_zsh),
{
    if is_zsh {
        Colors {
            red: "%{\x1b[31m%}",
            cyan: "%{\x1b[36m%}",
            reset: "%{\x1b[0m%}",
            dim: "%{\x1b[2m%}",
        }
    } else {
        Colors {
            red: "\x01\x1b[31m\x02",
            cyan: "\x01\x1b[36m\x02",
            reset: "\x01\x1b[0m\x02",
            dim: "\x01\x1b[2m\x02",
        }
    }
}

} // verus!
