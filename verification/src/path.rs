//! The working-directory segment: abbreviates an absolute path with the
//! multiplexer-session and home-directory rules.
//!
//! Paths are plain `/`-separated strings, assumed normalised (absolute,
//! no trailing separator except the filesystem root `/` itself); an
//! undeterminable working directory degrades to the placeholder `???`.

use vstd::prelude::*;
use vstd::string::StrSliceExecFns;
use vstd::string::StringExecFns;
use crate::PromptError;
use crate::colors::Colors;
use crate::text::opt_str_view;
use crate::text::starts_with;
use crate::text::str_eq;

verus! {

/// Whether `p` is strictly inside the directory `root`: `root`, then a
/// separator, then a nonempty remainder.
pub open spec fn strictly_inside(p: Seq<char>, root: Seq<char>) -> bool {
    &&& p.len() > root.len() + 1
    &&& p.subrange(0, root.len() as int) == root
    &&& p[root.len() as int] == '/'
}

/// The remainder of `p` below `root`, without the separator.
pub open spec fn rel_path(p: Seq<char>, root: Seq<char>) -> Seq<char> {
    p.skip(root.len() as int + 1)
}

/// Whether `p` sits below the filesystem root `/` taken as the home
/// directory: the root carries its separator itself, so every other
/// absolute path is below it.
pub open spec fn below_root_home(p: Seq<char>, home: Seq<char>) -> bool {
    home == "/"@ && p.len() > 1 && p[0] == '/'
}

/// Home abbreviation: exactly `~` for the home directory itself,
/// `~/<rest>` strictly below it (for the home `/`, the rest is the path
/// after its leading separator), and the path unchanged anywhere else.
pub open spec fn home_subst_spec(p: Seq<char>, home: Seq<char>) -> Seq<char> {
    if p == home {
        "~"@
    } else if strictly_inside(p, home) {
        "~/"@ + rel_path(p, home)
    } else if below_root_home(p, home) {
        "~"@ + p
    } else {
        p
    }
}

/// Abbreviates `path` against the home directory, per [`home_subst_spec`].
pub fn home_substitution(path: &str, home: &str) -> (r: String)
    ensures
        r@ == home_subst_spec(path@, home@),
{
    proof {
        reveal_strlit("~");
        reveal_strlit("~/");
    }
    proof {
        reveal_strlit("/");
    }
    if str_eq(path, home) {
        String::from_str("~")
    } else {
        let n = path.unicode_len();
        let hl = home.unicode_len();
        if hl < n && n - hl > 1 && starts_with(path, home) && path.get_char(hl) == '/' {
            let mut out = String::from_str("~/");
            let rest = path.substring_char(hl + 1, n);
            out.append(rest);
            proof {
                assert(out@ =~= home_subst_spec(path@, home@));
            }
            out
        } else if str_eq(home, "/") && n > 1 && path.get_char(0) == '/' {
            let mut out = String::from_str("~");
            out.append(path);
            proof {
                assert(out@ =~= home_subst_spec(path@, home@));
            }
            out
        } else {
            path.to_owned()
        }
    }
}

/// Index of the first character of the final path component of `s`: the
/// position right after the last `/`, or 0 when `s` has none.
pub open spec fn leaf_start(s: Seq<char>) -> int
    decreases s.len(),
{
    if s.len() == 0 {
        0
    } else if s.last() == '/' {
        s.len() as int
    } else {
        leaf_start(s.drop_last())
    }
}

/// The final path component of `s`; empty when `s` is empty or ends in
/// `/`.
pub open spec fn session_leaf(s: Seq<char>) -> Seq<char> {
    s.skip(leaf_start(s))
}

/// Any index after which no `/` occurs, and which is 0 or right after a
/// `/`, is [`leaf_start`].
pub proof fn lemma_leaf_start_unique(s: Seq<char>, k: int)
    requires
        0 <= k <= s.len(),
        k > 0 ==> s[k - 1] == '/',
        forall|j: int| k <= j < s.len() ==> s[j] != '/',
    ensures
        k == leaf_start(s),
    decreases s.len(),
{
    if s.len() == 0 {
    } else if s.last() == '/' {
        assert(k == s.len()) by {
            if k < s.len() {
                assert(s[s.len() - 1] != '/');
            }
        }
    } else {
        assert(k < s.len()) by {
            if k == s.len() {
                assert(s[k - 1] == '/');
            }
        }
        assert forall|j: int| k <= j < s.drop_last().len() implies s.drop_last()[j] != '/' by {
            assert(s.drop_last()[j] == s[j]);
        }
        if k > 0 {
            assert(s.drop_last()[k - 1] == s[k - 1]);
        }
        lemma_leaf_start_unique(s.drop_last(), k);
    }
}

/// Finds [`leaf_start`] of `s` by scanning from the end.
fn find_leaf_start(s: &str) -> (i: usize)
    ensures
        i == leaf_start(s@),
        i <= s@.len(),
{
    let n = s.unicode_len();
    let mut i: usize = n;
    while i > 0
        invariant
            0 <= i <= n,
            n == s@.len(),
            forall|j: int| i <= j < n ==> s@[j] != '/',
        decreases i,
    {
        if s.get_char(i - 1) == '/' {
            proof {
                lemma_leaf_start_unique(s@, i as int);
            }
            return i;
        }
        i -= 1;
    }
    proof {
        lemma_leaf_start_unique(s@, 0);
    }
    0
}

/// Session substitution: an error when the session root has no final
/// component; the leaf name alone for the root itself; the leaf name plus
/// the relative remainder strictly below the root; absent for a path
/// outside the root.
pub open spec fn session_subst_spec(p: Seq<char>, root: Seq<char>) -> Result<
    Option<Seq<char>>,
    PromptError,
> {
    let leaf = session_leaf(root);
    if leaf.len() == 0 {
        Err(PromptError::MalformedSessionPath)
    } else if p == root {
        Ok(Option::Some(leaf))
    } else if strictly_inside(p, root) {
        Ok(Option::Some(leaf + "/"@ + rel_path(p, root)))
    } else {
        Ok(Option::None)
    }
}

/// Substitutes the session name for the session root, per
/// [`session_subst_spec`].
pub fn tmux_substitution(path: &str, session_root: &str) -> (r: Result<
    Option<String>,
    PromptError,
>)
    ensures
        ({
            let s = session_subst_spec(path@, session_root@);
            match r {
                Ok(out) => match out {
                    Option::Some(seg) => s == Ok::<Option<Seq<char>>, PromptError>(
                        Option::Some(seg@),
                    ),
                    Option::None => s == Ok::<Option<Seq<char>>, PromptError>(Option::None),
                },
                Err(e) => s == Err::<Option<Seq<char>>, PromptError>(e),
            }
        }),
{
    proof {
        reveal_strlit("/");
    }
    let rl = session_root.unicode_len();
    let ls = find_leaf_start(session_root);
    if ls >= rl {
        proof {
            assert(session_leaf(session_root@).len() == 0);
        }
        return Err(PromptError::MalformedSessionPath);
    }
    let leaf = session_root.substring_char(ls, rl);
    if str_eq(path, session_root) {
        return Ok(Some(leaf.to_owned()));
    }
    let n = path.unicode_len();
    if rl < n && n - rl > 1 && starts_with(path, session_root) && path.get_char(rl) == '/' {
        let mut out = leaf.to_owned();
        out.append("/");
        let rest = path.substring_char(rl + 1, n);
        out.append(rest);
        proof {
            assert(out@ =~= session_leaf(session_root@) + "/"@ + rel_path(path@, session_root@));
        }
        Ok(Some(out))
    } else {
        Ok(None)
    }
}

/// The abbreviated display of the working directory: the placeholder
/// `???` when it is undeterminable, otherwise the session substitution
/// when a session root is set and applies, otherwise the home
/// abbreviation.
pub open spec fn path_display_spec(
    cwd: Option<Seq<char>>,
    home: Seq<char>,
    root: Option<Seq<char>>,
) -> Result<Seq<char>, PromptError> {
    match cwd {
        Option::None => Ok("???"@),
        Option::Some(p) => match root {
            Option::None => Ok(home_subst_spec(p, home)),
            Option::Some(rt) => match session_subst_spec(p, rt) {
                Err(e) => Err(e),
                Ok(Option::Some(s)) => Ok(s),
                Ok(Option::None) => Ok(home_subst_spec(p, home)),
            },
        },
    }
}

/// Law: with no session root configured, abbreviation is governed by the
/// home rule alone — `~` for the home directory itself, `~/` plus the
/// relative remainder strictly below it, and the path unchanged outside
/// it.
pub proof fn lemma_home_abbreviation(p: Seq<char>, home: Seq<char>)
    ensures
        path_display_spec(Option::Some(p), home, Option::None) == Ok::<
            Seq<char>,
            PromptError,
        >(home_subst_spec(p, home)),
        p == home ==> home_subst_spec(p, home) == "~"@,
        p != home && strictly_inside(p, home) ==> home_subst_spec(p, home) == "~/"@ + rel_path(
            p,
            home,
        ),
        p != home && !strictly_inside(p, home) && below_root_home(p, home)
            ==> home_subst_spec(p, home) == "~"@ + p,
        p != home && !strictly_inside(p, home) && !below_root_home(p, home)
            ==> home_subst_spec(p, home) == p,
{
}

/// Law: session substitution takes priority over home substitution. When
/// a session root with a valid leaf is configured and the path is at or
/// below that root, the display is the session form — even when the path
/// is also at or below the home directory — never the `~` form.
pub proof fn lemma_session_priority(p: Seq<char>, home: Seq<char>, root: Seq<char>)
    requires
        session_leaf(root).len() > 0,
        p == root || strictly_inside(p, root),
    ensures
        p == root ==> path_display_spec(Option::Some(p), home, Option::Some(root)) == Ok::<
            Seq<char>,
            PromptError,
        >(session_leaf(root)),
        p != root ==> path_display_spec(Option::Some(p), home, Option::Some(root)) == Ok::<
            Seq<char>,
            PromptError,
        >(session_leaf(root) + "/"@ + rel_path(p, root)),
{
}

/// Builds the working-directory segment, wrapped in the emphasis color,
/// per [`path_display_spec`].
pub fn get_path(
    cwd: Option<&str>,
    home: &str,
    session_root: Option<&str>,
    colors: &Colors,
) -> (r: Result<String, PromptError>)
    ensures
        ({
            let d = path_display_spec(opt_str_view(cwd), home@, opt_str_view(session_root));
            match r {
                Ok(s) => d is Ok && s@ == colors.cyan@ + d->Ok_0 + colors.reset@,
                Err(e) => d == Err::<Seq<char>, PromptError>(e),
            }
        }),
{
    proof {
        reveal_strlit("???");
    }
    let display: String = match cwd {
        None => String::from_str("???"),
        Some(p) => match session_root {
            None => home_substitution(p, home),
            Some(rt) => match tmux_substitution(p, rt) {
                Err(e) => {
                    return Err(e);
                },
                Ok(Some(s)) => s,
                Ok(None) => home_substitution(p, home),
            },
        },
    };
    let mut out = String::from_str(colors.cyan);
    out.append(display.as_str());
    out.append(colors.reset);
    Ok(out)
}

} // verus!
