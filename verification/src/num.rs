//! Decimal rendering and parsing of integers, specified over `Seq<char>`.

use vstd::prelude::*;
use vstd::string::StrSliceExecFns;
use vstd::string::StringExecFns;

verus! {

/// Whether `c` is an ASCII decimal digit.
pub open spec fn is_digit_char(c: char) -> bool {
    48 <= c as int && c as int <= 57
}

/// Numeric value of a digit character.
pub open spec fn digit_val(c: char) -> int {
    c as int - 48
}

/// The digit character for a value in 0..=9.
pub open spec fn digit_char_of(d: int) -> char {
    if d == 0 {
        '0'
    } else if d == 1 {
        '1'
    } else if d == 2 {
        '2'
    } else if d == 3 {
        '3'
    } else if d == 4 {
        '4'
    } else if d == 5 {
        '5'
    } else if d == 6 {
        '6'
    } else if d == 7 {
        '7'
    } else if d == 8 {
        '8'
    } else {
        '9'
    }
}

/// The usual decimal rendering of `n`: most significant digit first, no
/// leading zero except for `n == 0` itself.
pub open spec fn dec_digits(n: nat) -> Seq<char>
    decreases n,
{
    if n < 10 {
        seq![digit_char_of(n as int)]
    } else {
        dec_digits(n / 10) + seq![digit_char_of((n % 10) as int)]
    }
}

/// The single-character string for a digit value.
fn digit_str(d: u64) -> (r: &'static str)
    requires
        d < 10,
    ensures
        r@ == seq![digit_char_of(d as int)],
{
    proof {
        reveal_strlit("0");
        reveal_strlit("1");
        reveal_strlit("2");
        reveal_strlit("3");
        reveal_strlit("4");
        reveal_strlit("5");
        reveal_strlit("6");
        reveal_strlit("7");
        reveal_strlit("8");
        reveal_strlit("9");
    }
    if d == 0 {
        "0"
    } else if d == 1 {
        "1"
    } else if d == 2 {
        "2"
    } else if d == 3 {
        "3"
    } else if d == 4 {
        "4"
    } else if d == 5 {
        "5"
    } else if d == 6 {
        "6"
    } else if d == 7 {
        "7"
    } else if d == 8 {
        "8"
    } else {
        "9"
    }
}

/// Renders `n` in decimal, per [`dec_digits`].
pub fn u64_to_string(n: u64) -> (r: String)
    ensures
        r@ == dec_digits(n as nat),
    decreases n,
{
    if n < 10 {
        digit_str(n).to_owned()
    } else {
        let mut s = u64_to_string(n / 10);
        s.append(digit_str(n % 10));
        proof {
            assert(s@ =~= dec_digits(n as nat));
        }
        s
    }
}

/// Whether every character of `s` is a decimal digit.
pub open spec fn all_digits(s: Seq<char>) -> bool {
    forall|i: int| 0 <= i < s.len() ==> is_digit_char(s[i])
}

/// Value of a nonempty digit string, most significant digit first.
pub open spec fn digits_val(s: Seq<char>) -> int
    decreases s.len(),
{
    if s.len() == 0 {
        0
    } else {
        digits_val(s.drop_last()) * 10 + digit_val(s.last())
    }
}

/// A digit string has a non-negative value.
pub proof fn lemma_digits_val_nonneg(s: Seq<char>)
    requires
        all_digits(s),
    ensures
        digits_val(s) >= 0,
    decreases s.len(),
{
    if s.len() > 0 {
        assert(all_digits(s.drop_last()));
        lemma_digits_val_nonneg(s.drop_last());
    }
}

/// How `str::parse::<i32>` reads a string: an optional single `+` or `-`
/// sign, then one or more decimal digits, and the signed value must fit in
/// 32 bits; anything else does not parse.
pub open spec fn spec_parse_i32(s: Seq<char>) -> Option<int> {
    let signed = s.len() > 0 && (s[0] == '-' || s[0] == '+');
    let body = if signed {
        s.skip(1)
    } else {
        s
    };
    let neg = s.len() > 0 && s[0] == '-';
    if body.len() == 0 || !all_digits(body) {
        None
    } else {
        let v = if neg {
            -digits_val(body)
        } else {
            digits_val(body)
        };
        if -0x8000_0000 <= v <= 0x7fff_ffff {
            Some(v)
        } else {
            None
        }
    }
}

/// Accumulator correctness for the parsing loop: exact while the prefix
/// value still fits, saturated just above the 32-bit boundary after.
spec fn acc_tracks(acc: int, pv: int) -> bool {
    if pv <= 0x8000_0000 {
        acc == pv
    } else {
        acc == 0x8000_0001
    }
}

/// Parses `s` as a 32-bit signed integer, per [`spec_parse_i32`].
pub fn parse_i32(s: &str) -> (r: Option<i32>)
    ensures
        match r {
            Some(v) => spec_parse_i32(s@) == Some(v as int),
            None => spec_parse_i32(s@) is None,
        },
{
    let n = s.unicode_len();
    if n == 0 {
        return None;
    }
    let c0 = s.get_char(0);
    let neg = c0 == '-';
    let start: usize = if c0 == '-' || c0 == '+' {
        1
    } else {
        0
    };
    if start >= n {
        return None;
    }
    let ghost body = if start == 1 {
        s@.skip(1)
    } else {
        s@
    };
    proof {
        assert(body =~= s@.skip(start as int));
    }
    let mut i: usize = start;
    let mut acc: u64 = 0;
    while i < n
        invariant
            start <= i <= n,
            n == s@.len(),
            start < n,
            start <= 1,
            body == (if start == 1 {
                s@.skip(1)
            } else {
                s@
            }),
            body =~= s@.skip(start as int),
            start == 1 <==> (s@[0] == '-' || s@[0] == '+'),
            neg == (s@[0] == '-'),
            forall|j: int| start <= j < i ==> is_digit_char(s@[j]),
            acc <= 0x8000_0001,
            acc_tracks(acc as int, digits_val(s@.subrange(start as int, i as int))),
        decreases n - i,
    {
        let c = s.get_char(i);
        let cu = c as u32;
        let ghost prefix = s@.subrange(start as int, i as int);
        let ghost extended = s@.subrange(start as int, i + 1);
        if cu < 48 || cu > 57 {
            proof {
                assert(!is_digit_char(s@[i as int]));
                assert(body[i - start] == s@[i as int]);
                assert(!all_digits(body));
            }
            return None;
        }
        let d: u64 = (cu - 48) as u64;
        proof {
            assert(extended.drop_last() =~= prefix);
            assert(extended.last() == s@[i as int]);
            assert(digits_val(extended) == digits_val(prefix) * 10 + digit_val(s@[i as int]));
            assert(all_digits(prefix));
            lemma_digits_val_nonneg(prefix);
        }
        let raw: u64 = acc * 10 + d;
        acc = if raw > 0x8000_0000 {
            0x8000_0001
        } else {
            raw
        };
        i += 1;
    }
    proof {
        assert(s@.subrange(start as int, n as int) =~= body);
        assert(all_digits(body));
        lemma_digits_val_nonneg(body);
    }
    if neg {
        if acc <= 0x8000_0000 {
            let v: i32 = (-(acc as i64)) as i32;
            Some(v)
        } else {
            None
        }
    } else {
        if acc <= 0x7fff_ffff {
            Some(acc as i32)
        } else {
            None
        }
    }
}

} // verus!
