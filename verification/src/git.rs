//! The version-control segment: summarises a line-oriented repository
//! status report into ` (<branch><divergence glyph>)`.
//!
//! The report is the machine-readable branch status a version-control
//! tool prints: zero or more lines, among them `# branch.head <name>` and
//! `# branch.ab +<ahead> -<behind>`. The last occurrence of each wins. An
//! absent report (no repository, or the status command failed) yields an
//! absent segment; a present but malformed ahead/behind value is a
//! reported error, never a silent fallback.

use vstd::prelude::*;
use vstd::string::StrSliceExecFns;
use vstd::string::StringExecFns;
use crate::PromptError;
use crate::num::all_digits;
use crate::num::digits_val;
use crate::num::is_digit_char;
use crate::num::lemma_digits_val_nonneg;
use crate::text::has_prefix;
use crate::text::opt_str_view;
use crate::text::spec_split;
use crate::text::spec_tokens;
use crate::text::split_at_char;
use crate::text::split_whitespace_tokens;
use crate::text::try_strip_prefix;

verus! {

/// The ahead/behind relationship between the current branch and its
/// upstream: in sync, ahead only, behind only, or diverged both ways.
#[derive(Clone, Copy, Debug, PartialEq, Eq, Structural)]
pub enum Divergence {
    InSync,
    Ahead,
    Behind,
    Both,
}

/// Maps the two "count is zero" facts to the divergence they denote.
pub open spec fn divergence_of(ahead_zero: bool, behind_zero: bool) -> Divergence {
    if ahead_zero && behind_zero {
        Divergence::InSync
    } else if ahead_zero {
        Divergence::Behind
    } else if behind_zero {
        Divergence::Ahead
    } else {
        Divergence::Both
    }
}

/// The display glyph of each divergence: empty, up arrow, down arrow, or
/// both, each with a leading space.
pub open spec fn glyph_seq(d: Divergence) -> Seq<char> {
    match d {
        Divergence::InSync => Seq::empty(),
        Divergence::Ahead => " ⬆︎"@,
        Divergence::Behind => " ⬇︎"@,
        Divergence::Both => " ⬆︎⬇︎"@,
    }
}

/// Renders a divergence, per [`glyph_seq`].
pub fn divergence_glyph(d: Divergence) -> (r: &'static str)
    ensures
        r@ == glyph_seq(d),
{
    proof {
        reveal_strlit("");
        assert(""@ =~= Seq::<char>::empty());
    }
    match d {
        Divergence::InSync => "",
        Divergence::Ahead => " ⬆︎",
        Divergence::Behind => " ⬇︎",
        Divergence::Both => " ⬆︎⬇︎",
    }
}

/// The divergence mapping is total and exhaustive over the four
/// combinations of zero and nonzero counts, and each combination gets its
/// own glyph: none, up arrow, down arrow, combined.
pub proof fn lemma_divergence_total(ahead_zero: bool, behind_zero: bool)
    ensures
        ahead_zero && behind_zero ==> divergence_of(ahead_zero, behind_zero)
            == Divergence::InSync,
        !ahead_zero && behind_zero ==> divergence_of(ahead_zero, behind_zero)
            == Divergence::Ahead,
        ahead_zero && !behind_zero ==> divergence_of(ahead_zero, behind_zero)
            == Divergence::Behind,
        !ahead_zero && !behind_zero ==> divergence_of(ahead_zero, behind_zero)
            == Divergence::Both,
        glyph_seq(Divergence::InSync) == Seq::<char>::empty(),
        glyph_seq(Divergence::Ahead) == " ⬆︎"@,
        glyph_seq(Divergence::Behind) == " ⬇︎"@,
        glyph_seq(Divergence::Both) == " ⬆︎⬇︎"@,
{
}

/// Whether `t` is a digit string denoting the non-negative integer zero:
/// nonempty, all decimal digits, numeric value 0 (so `0`, `00`, `000` all
/// denote zero).
pub open spec fn is_zero_count(t: Seq<char>) -> bool {
    t.len() > 0 && all_digits(t) && digits_val(t) == 0
}

/// Decides [`is_zero_count`].
fn is_zero_count_str(t: &str) -> (r: bool)
    ensures
        r == is_zero_count(t@),
{
    let n = t.unicode_len();
    if n == 0 {
        return false;
    }
    let mut i: usize = 0;
    let mut nonzero = false;
    while i < n
        invariant
            0 <= i <= n,
            n == t@.len(),
            forall|j: int| 0 <= j < i ==> is_digit_char(t@[j]),
            nonzero <==> digits_val(t@.take(i as int)) != 0,
        decreases n - i,
    {
        let c = t.get_char(i);
        let cu = c as u32;
        let ghost prefix = t@.take(i as int);
        let ghost extended = t@.take(i + 1);
        if cu < 48 || cu > 57 {
            proof {
                assert(!is_digit_char(t@[i as int]));
                assert(!all_digits(t@));
            }
            return false;
        }
        proof {
            assert(extended.drop_last() =~= prefix);
            assert(extended.last() == t@[i as int]);
            assert(all_digits(prefix));
            lemma_digits_val_nonneg(prefix);
        }
        if cu != 48 {
            nonzero = true;
        }
        i += 1;
    }
    proof {
        assert(t@.take(n as int) =~= t@);
    }
    !nonzero
}

/// How an ahead/behind value is read: exactly two whitespace-separated
/// tokens, the first starting with `+` and the second with `-`; each count
/// is read as a non-negative integer, and is zero exactly when the text
/// after the sign is a digit string with numeric value zero. Anything else
/// is malformed.
pub open spec fn spec_parse_ab(ab: Seq<char>) -> Result<Divergence, PromptError> {
    let ts = spec_tokens(ab);
    if ts.len() != 2 {
        Err(PromptError::MalformedAheadBehind)
    } else if ts[0].len() == 0 || ts[0][0] != '+' || ts[1].len() == 0 || ts[1][0] != '-' {
        Err(PromptError::MalformedAheadBehind)
    } else {
        Ok(divergence_of(is_zero_count(ts[0].skip(1)), is_zero_count(ts[1].skip(1))))
    }
}

/// Parses an ahead/behind value, per [`spec_parse_ab`]: the result is an
/// error exactly when the value is malformed.
pub fn parse_git_ab(ab: &str) -> (r: Result<Divergence, PromptError>)
    ensures
        r == spec_parse_ab(ab@),
{
    proof {
        reveal_strlit("+");
        reveal_strlit("-");
    }
    let ts = split_whitespace_tokens(ab);
    proof {
        assert(ts@.map_values(|t: String| t@).len() == ts@.len());
    }
    if ts.len() != 2 {
        return Err(PromptError::MalformedAheadBehind);
    }
    let t0 = ts[0].as_str();
    let t1 = ts[1].as_str();
    proof {
        assert(t0@ == spec_tokens(ab@)[0]);
        assert(t1@ == spec_tokens(ab@)[1]);
        if t0@.len() > 0 {
            assert(t0@.subrange(0, 1)[0] == t0@[0]);
            if t0@[0] == '+' {
                assert(t0@.subrange(0, 1) =~= "+"@);
            }
        }
        assert(has_prefix(t0@, "+"@) <==> (t0@.len() > 0 && t0@[0] == '+'));
        if t1@.len() > 0 {
            assert(t1@.subrange(0, 1)[0] == t1@[0]);
            if t1@[0] == '-' {
                assert(t1@.subrange(0, 1) =~= "-"@);
            }
        }
        assert(has_prefix(t1@, "-"@) <==> (t1@.len() > 0 && t1@[0] == '-'));
    }
    let ahead_number = match try_strip_prefix(t0, "+") {
        Some(rest) => rest,
        None => {
            return Err(PromptError::MalformedAheadBehind);
        },
    };
    let behind_number = match try_strip_prefix(t1, "-") {
        Some(rest) => rest,
        None => {
            return Err(PromptError::MalformedAheadBehind);
        },
    };
    let ahead_zero = is_zero_count_str(ahead_number);
    let behind_zero = is_zero_count_str(behind_number);
    if ahead_zero && behind_zero {
        Ok(Divergence::InSync)
    } else if ahead_zero {
        Ok(Divergence::Behind)
    } else if behind_zero {
        Ok(Divergence::Ahead)
    } else {
        Ok(Divergence::Both)
    }
}

/// The tag that introduces the branch-name status line.
pub open spec fn head_prefix() -> Seq<char> {
    "# branch.head "@
}

/// The tag that introduces the ahead/behind status line.
pub open spec fn ab_prefix() -> Seq<char> {
    "# branch.ab "@
}

/// The value of the last line of `lines` carrying the tag `p`, or `None`
/// when no line does.
pub open spec fn last_tagged(lines: Seq<Seq<char>>, p: Seq<char>) -> Option<Seq<char>>
    decreases lines.len(),
{
    if lines.len() == 0 {
        Option::None
    } else if has_prefix(lines.last(), p) {
        Option::Some(lines.last().skip(p.len() as int))
    } else {
        last_tagged(lines.drop_last(), p)
    }
}

/// The view of an optional owned string.
pub open spec fn opt_string_view(o: Option<String>) -> Option<Seq<char>> {
    match o {
        Option::None => Option::None,
        Option::Some(s) => Option::Some(s@),
    }
}

/// The whole version-control segment: absent when the report is absent;
/// otherwise ` (<branch><glyph>)`, where the branch is the last reported
/// head name (placeholder `???` when none was reported), the glyph comes
/// from the last reported ahead/behind value (no divergence when none was
/// reported), and a malformed ahead/behind value is an error.
pub open spec fn spec_git_summary(report: Option<Seq<char>>) -> Result<
    Option<Seq<char>>,
    PromptError,
> {
    match report {
        Option::None => Ok(Option::None),
        Option::Some(text) => {
            let lines = spec_split(text, '\n');
            let branch = match last_tagged(lines, head_prefix()) {
                Option::Some(b) => b,
                Option::None => "???"@,
            };
            match last_tagged(lines, ab_prefix()) {
                Option::None => Ok(Option::Some(" ("@ + branch + ")"@)),
                Option::Some(ab) => match spec_parse_ab(ab) {
                    Ok(d) => Ok(Option::Some(" ("@ + branch + glyph_seq(d) + ")"@)),
                    Err(e) => Err(e),
                },
            }
        },
    }
}

/// Summarises a status report, per [`spec_git_summary`].
pub fn get_git_status(report: Option<&str>) -> (r: Result<Option<String>, PromptError>)
    ensures
        ({
            let s = spec_git_summary(opt_str_view(report));
            match r {
                Ok(out) => match out {
                    Option::Some(seg) => s == Ok::<Option<Seq<char>>, PromptError>(
                        Option::Some(seg@),
                    ),
                    Option::None => s == Ok::<Option<Seq<char>>, PromptError>(Option::None),
                },
                Err(e) => s == Err::<Option<Seq<char>>, PromptError>(e),
            }
        }),
{
    proof {
        reveal_strlit("# branch.head ");
        reveal_strlit("# branch.ab ");
        reveal_strlit("???");
        reveal_strlit(" (");
        reveal_strlit(")");
    }
    let text = match report {
        None => {
            return Ok(None);
        },
        Some(t) => t,
    };
    let lines = split_at_char(text, '\n');
    let ghost lseq = spec_split(text@, '\n');
    let n = lines.len();
    let mut branch: Option<String> = None;
    let mut ab: Option<String> = None;
    let mut idx: usize = 0;
    while idx < n
        invariant
            0 <= idx <= n,
            n == lines@.len(),
            lines@.map_values(|t: String| t@) == lseq,
            opt_string_view(branch) == last_tagged(lseq.take(idx as int), head_prefix()),
            opt_string_view(ab) == last_tagged(lseq.take(idx as int), ab_prefix()),
        decreases n - idx,
    {
        let line = lines[idx].as_str();
        proof {
            assert(line@ == lseq[idx as int]);
            assert(lseq.take(idx + 1).drop_last() =~= lseq.take(idx as int));
            assert(lseq.take(idx + 1).last() == lseq[idx as int]);
        }
        if let Some(rest) = try_strip_prefix(line, "# branch.head ") {
            branch = Some(rest.to_owned());
        }
        if let Some(rest) = try_strip_prefix(line, "# branch.ab ") {
            ab = Some(rest.to_owned());
        }
        idx += 1;
    }
    proof {
        assert(lseq.take(n as int) =~= lseq);
    }
    let branch_str: String = match branch {
        Some(b) => b,
        None => String::from_str("???"),
    };
    match ab {
        None => {
            let mut out = String::from_str(" (");
            out.append(branch_str.as_str());
            out.append(")");
            proof {
                assert(out@ =~= " ("@ + branch_str@ + ")"@);
            }
            Ok(Some(out))
        },
        Some(ab_str) => {
            match parse_git_ab(ab_str.as_str()) {
                Err(e) => Err(e),
                Ok(d) => {
                    let g = divergence_glyph(d);
                    let mut out = String::from_str(" (");
                    out.append(branch_str.as_str());
                    out.append(g);
                    out.append(")");
                    proof {
                        assert(out@ =~= " ("@ + branch_str@ + glyph_seq(d) + ")"@);
                    }
                    Ok(Some(out))
                },
            }
        },
    }
}

} // verus!
