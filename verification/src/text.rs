//! Character-sequence helpers shared by the prompt segments: equality and
//! prefix tests on `&str`, and splitting into lines or whitespace tokens.
//!
//! All exec functions are specified against their views (`Seq<char>`), so
//! callers reason purely over mathematical sequences.

use vstd::prelude::*;
use vstd::string::StrSliceExecFns;

verus! {

/// The whitespace characters recognised when a status line is tokenised:
/// the ASCII blank characters.
pub open spec fn is_space_char(c: char) -> bool {
    c == ' ' || c == '\t' || c == '\n' || c == '\r' || c == '\x0b' || c == '\x0c'
}

/// Exec mirror of [`is_space_char`].
pub fn is_space(c: char) -> (r: bool)
    ensures
        r == is_space_char(c),
{
    c == ' ' || c == '\t' || c == '\n' || c == '\r' || c == '\x0b' || c == '\x0c'
}

/// The view of an optional string.
pub open spec fn opt_str_view(o: Option<&str>) -> Option<Seq<char>> {
    match o {
        Option::None => Option::None,
        Option::Some(s) => Option::Some(s@),
    }
}

/// Whether `p` is a prefix of `s`.
pub open spec fn has_prefix(s: Seq<char>, p: Seq<char>) -> bool {
    p.len() <= s.len() && s.subrange(0, p.len() as int) == p
}

/// Character-wise string equality, decided over the views.
pub fn str_eq(a: &str, b: &str) -> (r: bool)
    ensures
        r == (a@ == b@),
{
    let alen = a.unicode_len();
    let blen = b.unicode_len();
    if alen != blen {
        proof {
            assert(a@ != b@) by {
                if a@ == b@ {
                    assert(a@.len() == b@.len());
                }
            }
        }
        return false;
    }
    let mut i: usize = 0;
    while i < alen
        invariant
            0 <= i <= alen,
            alen == a@.len(),
            alen == b@.len(),
            forall|j: int| 0 <= j < i ==> a@[j] == b@[j],
        decreases alen - i,
    {
        if a.get_char(i) != b.get_char(i) {
            proof {
                assert(a@ != b@) by {
                    if a@ == b@ {
                        assert(a@[i as int] == b@[i as int]);
                    }
                }
            }
            return false;
        }
        i += 1;
    }
    proof {
        assert(a@ =~= b@);
    }
    true
}

/// Decides whether `p@` is a prefix of `s@`.
pub fn starts_with(s: &str, p: &str) -> (r: bool)
    ensures
        r == has_prefix(s@, p@),
{
    let slen = s.unicode_len();
    let plen = p.unicode_len();
    if plen > slen {
        return false;
    }
    let mut i: usize = 0;
    while i < plen
        invariant
            0 <= i <= plen,
            plen == p@.len(),
            slen == s@.len(),
            plen <= slen,
            forall|j: int| 0 <= j < i ==> s@[j] == p@[j],
        decreases plen - i,
    {
        if s.get_char(i) != p.get_char(i) {
            proof {
                assert(!has_prefix(s@, p@)) by {
                    if has_prefix(s@, p@) {
                        assert(s@.subrange(0, p@.len() as int)[i as int] == p@[i as int]);
                    }
                }
            }
            return false;
        }
        i += 1;
    }
    proof {
        assert(s@.subrange(0, p@.len() as int) =~= p@);
    }
    true
}

/// Returns the remainder of `s` after the prefix `p`, or `None` when `p@`
/// is not a prefix of `s@`.
pub fn try_strip_prefix<'a>(s: &'a str, p: &str) -> (r: Option<&'a str>)
    ensures
        match r {
            Some(rest) => has_prefix(s@, p@) && rest@ == s@.skip(p@.len() as int),
            None => !has_prefix(s@, p@),
        },
{
    if starts_with(s, p) {
        let slen = s.unicode_len();
        let plen = p.unicode_len();
        Some(s.substring_char(plen, slen))
    } else {
        None
    }
}

/// The predicate "is exactly the character `sep`".
pub open spec fn eq_char(sep: char) -> spec_fn(char) -> bool {
    |c: char| c == sep
}

/// Index of the first character of `s` satisfying `p`, or `s.len()` when
/// none does.
pub open spec fn first_index(s: Seq<char>, p: spec_fn(char) -> bool) -> int
    decreases s.len(),
{
    if s.len() == 0 {
        0
    } else if p(s[0]) {
        0
    } else {
        1 + first_index(s.skip(1), p)
    }
}

/// The defining properties of [`first_index`]: it is in bounds, nothing
/// before it satisfies `p`, and it does unless it is `s.len()`.
pub proof fn lemma_first_index(s: Seq<char>, p: spec_fn(char) -> bool)
    ensures
        0 <= first_index(s, p) <= s.len(),
        forall|j: int| 0 <= j < first_index(s, p) ==> !p(s[j]),
        first_index(s, p) < s.len() ==> p(s[first_index(s, p)]),
    decreases s.len(),
{
    if s.len() == 0 {
    } else if p(s[0]) {
    } else {
        lemma_first_index(s.skip(1), p);
        assert forall|j: int| 0 <= j < first_index(s, p) implies !p(s[j]) by {
            if j > 0 {
                assert(s.skip(1)[j - 1] == s[j]);
            }
        }
        if first_index(s, p) < s.len() {
            assert(s.skip(1)[first_index(s, p) - 1] == s[first_index(s, p)]);
        }
    }
}

/// Any index with the properties of [`lemma_first_index`] is it.
pub proof fn lemma_first_index_unique(s: Seq<char>, p: spec_fn(char) -> bool, k: int)
    requires
        0 <= k <= s.len(),
        forall|j: int| 0 <= j < k ==> !p(s[j]),
        k < s.len() ==> p(s[k]),
    ensures
        k == first_index(s, p),
{
    lemma_first_index(s, p);
    if k < first_index(s, p) {
        assert(!p(s[k]));
    } else if first_index(s, p) < k {
        assert(!p(s[first_index(s, p)]));
    }
}

/// `s` split at every occurrence of `sep`; the separators themselves are
/// dropped, and n separators yield n + 1 (possibly empty) pieces.
pub open spec fn spec_split(s: Seq<char>, sep: char) -> Seq<Seq<char>>
    decreases s.len(),
    via spec_split_decreases
{
    let i = first_index(s, eq_char(sep));
    if i >= s.len() {
        seq![s]
    } else {
        seq![s.take(i)] + spec_split(s.skip(i + 1), sep)
    }
}

#[via_fn]
proof fn spec_split_decreases(s: Seq<char>, sep: char) {
    lemma_first_index(s, eq_char(sep));
}

/// Position of the first character equal to `sep`, or the length of `s`.
pub fn find_char(s: &str, sep: char) -> (i: usize)
    ensures
        i == first_index(s@, eq_char(sep)),
{
    let n = s.unicode_len();
    let mut i: usize = 0;
    while i < n
        invariant
            0 <= i <= n,
            n == s@.len(),
            forall|j: int| 0 <= j < i ==> s@[j] != sep,
        decreases n - i,
    {
        if s.get_char(i) == sep {
            proof {
                lemma_first_index_unique(s@, eq_char(sep), i as int);
            }
            return i;
        }
        i += 1;
    }
    proof {
        lemma_first_index_unique(s@, eq_char(sep), n as int);
    }
    n
}

/// Splits `s` at every occurrence of `sep`, per [`spec_split`].
pub fn split_at_char(s: &str, sep: char) -> (r: Vec<String>)
    ensures
        r@.map_values(|t: String| t@) == spec_split(s@, sep),
    decreases s@.len(),
{
    let n = s.unicode_len();
    let i = find_char(s, sep);
    proof {
        lemma_first_index(s@, eq_char(sep));
    }
    if i >= n {
        let mut v: Vec<String> = Vec::new();
        v.push(s.to_owned());
        proof {
            assert(v@.map_values(|t: String| t@) =~= spec_split(s@, sep));
        }
        v
    } else {
        let head = s.substring_char(0, i);
        let tail = s.substring_char(i + 1, n);
        proof {
            assert(tail@ == s@.skip(i + 1));
        }
        let mut rest = split_at_char(tail, sep);
        let mut v: Vec<String> = Vec::new();
        v.push(head.to_owned());
        v.append(&mut rest);
        proof {
            assert(head@ == s@.take(i as int));
            assert(v@.map_values(|t: String| t@) =~= spec_split(s@, sep));
        }
        v
    }
}

/// The predicate [`is_space_char`] as a function value.
pub open spec fn space_pred() -> spec_fn(char) -> bool {
    |c: char| is_space_char(c)
}

/// The whitespace-separated tokens of `s`, in order, each nonempty;
/// leading, trailing and repeated whitespace is dropped.
pub open spec fn spec_tokens(s: Seq<char>) -> Seq<Seq<char>>
    decreases s.len(),
    via spec_tokens_decreases
{
    if s.len() == 0 {
        Seq::empty()
    } else if is_space_char(s[0]) {
        spec_tokens(s.skip(1))
    } else {
        let e = first_index(s, space_pred());
        seq![s.take(e)] + spec_tokens(s.skip(e))
    }
}

#[via_fn]
proof fn spec_tokens_decreases(s: Seq<char>) {
    if s.len() > 0 && !is_space_char(s[0]) {
        lemma_first_index(s, space_pred());
        assert(first_index(s, space_pred()) != 0);
    }
}

/// Position of the first whitespace character, or the length of `s`.
pub fn find_space(s: &str) -> (i: usize)
    ensures
        i == first_index(s@, space_pred()),
{
    let n = s.unicode_len();
    let mut i: usize = 0;
    while i < n
        invariant
            0 <= i <= n,
            n == s@.len(),
            forall|j: int| 0 <= j < i ==> !is_space_char(s@[j]),
        decreases n - i,
    {
        if is_space(s.get_char(i)) {
            proof {
                lemma_first_index_unique(s@, space_pred(), i as int);
            }
            return i;
        }
        i += 1;
    }
    proof {
        lemma_first_index_unique(s@, space_pred(), n as int);
    }
    n
}

/// Splits `s` into whitespace-separated tokens, per [`spec_tokens`].
pub fn split_whitespace_tokens(s: &str) -> (r: Vec<String>)
    ensures
        r@.map_values(|t: String| t@) == spec_tokens(s@),
    decreases s@.len(),
{
    let n = s.unicode_len();
    if n == 0 {
        let v: Vec<String> = Vec::new();
        proof {
            assert(v@.map_values(|t: String| t@) =~= spec_tokens(s@));
        }
        v
    } else if is_space(s.get_char(0)) {
        let tail = s.substring_char(1, n);
        proof {
            assert(tail@ == s@.skip(1));
        }
        split_whitespace_tokens(tail)
    } else {
        let e = find_space(s);
        proof {
            lemma_first_index(s@, space_pred());
            assert(e != 0);
        }
        let head = s.substring_char(0, e);
        let tail = s.substring_char(e, n);
        proof {
            assert(head@ == s@.take(e as int));
            assert(tail@ == s@.skip(e as int));
        }
        let mut rest = split_whitespace_tokens(tail);
        let mut v: Vec<String> = Vec::new();
        v.push(head.to_owned());
        v.append(&mut rest);
        proof {
            assert(v@.map_values(|t: String| t@) =~= spec_tokens(s@));
        }
        v
    }
}

} // verus!
