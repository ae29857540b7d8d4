//! The prompt composer: the exit-code segment, and the left and right
//! prompt lines built from the individual segments.

use vstd::prelude::*;
use vstd::string::StrSliceExecFns;
use vstd::string::StringExecFns;
use crate::PromptError;
use crate::colors::Colors;
use crate::git::get_git_status;
use crate::git::spec_git_summary;
use crate::path::get_path;
use crate::path::path_display_spec;
use crate::text::opt_str_view;
use crate::text::str_eq;
use crate::timing::get_timing;
use crate::timing::timing_spec;

verus! {

/// The exit-code segment: absent exactly for the literal `0`, otherwise
/// the code behind a separating space, wrapped in the alert color. The
/// code is an opaque label; no numeric reading is attempted.
pub open spec fn exit_seg_spec(code: Seq<char>, c: Colors) -> Option<Seq<char>> {
    if code == "0"@ {
        Option::None
    } else {
        Option::Some(" "@ + c.red@ + code + c.reset@)
    }
}

/// Builds the exit-code segment, per [`exit_seg_spec`].
pub fn get_exit_code(code: &str, colors: &Colors) -> (r: Option<String>)
    ensures
        match r {
            Some(s) => exit_seg_spec(code@, *colors) == Some(s@),
            None => exit_seg_spec(code@, *colors) is None,
        },
{
    proof {
        reveal_strlit("0");
        reveal_strlit(" ");
    }
    if str_eq(code, "0") {
        None
    } else {
        let mut out = String::from_str(" ");
        out.append(colors.red);
        out.append(code);
        out.append(colors.reset);
        proof {
            assert(out@ =~= " "@ + colors.red@ + code@ + colors.reset@);
        }
        Some(out)
    }
}

/// The right prompt: empty when both the exit-code and duration segments
/// are absent, the one segment alone when only it is present (the
/// duration in the muted color), and both joined by a muted `in` when
/// both are present.
pub open spec fn right_prompt_spec(code: Seq<char>, traw: Option<Seq<char>>, c: Colors) -> Seq<
    char,
> {
    let e = exit_seg_spec(code, c);
    let t = timing_spec(traw);
    match (e, t) {
        (Option::None, Option::None) => Seq::empty(),
        (Option::None, Option::Some(ts)) => c.dim@ + ts + c.reset@,
        (Option::Some(es), Option::None) => es,
        (Option::Some(es), Option::Some(ts)) => es + " "@ + c.dim@ + "in "@ + ts + c.reset@,
    }
}

/// Builds the right prompt, per [`right_prompt_spec`].
pub fn get_right_prompt(exit_code: &str, timing_raw: Option<&str>, colors: &Colors) -> (r:
    String)
    ensures
        r@ == right_prompt_spec(exit_code@, opt_str_view(timing_raw), *colors),
{
    proof {
        reveal_strlit(" ");
        reveal_strlit("in ");
    }
    let e = get_exit_code(exit_code, colors);
    let t = get_timing(timing_raw);
    match (e, t) {
        (None, None) => String::new(),
        (None, Some(ts)) => {
            let mut out = String::from_str(colors.dim);
            out.append(ts.as_str());
            out.append(colors.reset);
            proof {
                assert(out@ =~= right_prompt_spec(exit_code@, opt_str_view(timing_raw), *colors));
            }
            out
        },
        (Some(es), None) => es,
        (Some(es), Some(ts)) => {
            let mut out = es;
            out.append(" ");
            out.append(colors.dim);
            out.append("in ");
            out.append(ts.as_str());
            out.append(colors.reset);
            proof {
                assert(out@ =~= right_prompt_spec(exit_code@, opt_str_view(timing_raw), *colors));
            }
            out
        },
    }
}

/// The left prompt: the colored working-directory segment, the
/// version-control segment (empty when absent), and the literal `$ `
/// marker; or the first fatal error of the two segment builders.
pub open spec fn left_prompt_spec(
    cwd: Option<Seq<char>>,
    home: Seq<char>,
    root: Option<Seq<char>>,
    report: Option<Seq<char>>,
    c: Colors,
) -> Result<Seq<char>, PromptError> {
    match path_display_spec(cwd, home, root) {
        Err(e) => Err(e),
        Ok(d) => match spec_git_summary(report) {
            Err(e) => Err(e),
            Ok(g) => {
                let gs = match g {
                    Option::Some(x) => x,
                    Option::None => Seq::empty(),
                };
                Ok(c.cyan@ + d + c.reset@ + gs + "$ "@)
            },
        },
    }
}

/// Builds the left prompt, per [`left_prompt_spec`].
pub fn get_left_prompt(
    cwd: Option<&str>,
    home: &str,
    session_root: Option<&str>,
    git_report: Option<&str>,
    colors: &Colors,
) -> (r: Result<String, PromptError>)
    ensures
        ({
            let s = left_prompt_spec(
                opt_str_view(cwd),
                home@,
                opt_str_view(session_root),
                opt_str_view(git_report),
                *colors,
            );
            match r {
                Ok(out) => s == Ok::<Seq<char>, PromptError>(out@),
                Err(e) => s == Err::<Seq<char>, PromptError>(e),
            }
        }),
{
    proof {
        reveal_strlit("$ ");
    }
    let path = match get_path(cwd, home, session_root, colors) {
        Err(e) => {
            return Err(e);
        },
        Ok(p) => p,
    };
    let git = match get_git_status(git_report) {
        Err(e) => {
            return Err(e);
        },
        Ok(g) => g,
    };
    let mut out = path;
    match git {
        Some(g) => {
            out.append(g.as_str());
        },
        None => {},
    }
    out.append("$ ");
    proof {
        assert(out@ =~= left_prompt_spec(
            opt_str_view(cwd),
            home@,
            opt_str_view(session_root),
            opt_str_view(git_report),
            *colors,
        )->Ok_0);
    }
    Ok(out)
}

} // verus!
