//! The duration segment: how many milliseconds the previous command took,
//! rendered in one of five precision tiers.
//!
//! The tier is selected, and all (floor) divisions are taken, on the
//! magnitude of the value; a negative value only contributes a leading
//! minus sign.

use vstd::prelude::*;
use vstd::string::StrSliceExecFns;
use vstd::string::StringExecFns;
use crate::num::dec_digits;
use crate::num::spec_parse_i32;
use crate::num::parse_i32;
use crate::num::u64_to_string;
use crate::text::opt_str_view;

verus! {

/// Milliseconds in a minute.
pub const MILLIS_PER_MIN: u64 = 60000;

/// Milliseconds in an hour.
pub const MILLIS_PER_HOUR: u64 = 3600000;

/// A non-negative value rendered to at least two characters: a single
/// digit gets a leading zero.
pub open spec fn pad2_display(t: int) -> Seq<char> {
    if 0 <= t < 10 {
        seq!['0'] + dec_digits(t as nat)
    } else {
        dec_digits(t as nat)
    }
}

/// The five tiers of the duration display, on a non-negative magnitude
/// `t`: raw milliseconds below a tenth of a second, then tenths, then
/// seconds and tenths, then minutes and seconds, then hours and minutes.
/// All divisions are floor divisions.
pub open spec fn mag_display(t: int) -> Seq<char> {
    if t < 100 {
        pad2_display(t) + "ms"@
    } else if t < 1000 {
        "."@ + dec_digits((t / 10) as nat) + "s"@
    } else if t < 60000 {
        dec_digits((t / 1000) as nat) + "."@ + dec_digits(((t % 1000) / 100) as nat) + "s"@
    } else if t < 3600000 {
        dec_digits((t / 60000) as nat) + "m"@ + dec_digits(((t % 60000) / 1000) as nat) + "s"@
    } else {
        dec_digits((t / 3600000) as nat) + "h"@ + dec_digits(((t % 3600000) / 60000) as nat) + "m"@
    }
}

/// The duration display of a signed value: the tier rendering of the
/// magnitude, behind a minus sign when the value is negative.
pub open spec fn timing_display(t: int) -> Seq<char> {
    if t < 0 {
        seq!['-'] + mag_display(-t)
    } else {
        mag_display(t)
    }
}

/// Renders a non-negative magnitude, per [`mag_display`].
fn format_magnitude(t: u64) -> (r: String)
    ensures
        r@ == mag_display(t as int),
{
    proof {
        reveal_strlit("0");
        reveal_strlit("ms");
        reveal_strlit(".");
        reveal_strlit("s");
        reveal_strlit("m");
        reveal_strlit("h");
    }
    if t < 100 {
        let mut s = if t < 10 {
            let mut z = String::from_str("0");
            let digits = u64_to_string(t);
            z.append(digits.as_str());
            z
        } else {
            u64_to_string(t)
        };
        s.append("ms");
        proof {
            assert(s@ =~= mag_display(t as int));
        }
        s
    } else if t < 1000 {
        let mut s = String::from_str(".");
        let tenths = u64_to_string(t / 10);
        s.append(tenths.as_str());
        s.append("s");
        proof {
            assert(s@ =~= mag_display(t as int));
        }
        s
    } else if t < MILLIS_PER_MIN {
        let mut s = u64_to_string(t / 1000);
        s.append(".");
        let tenths = u64_to_string(t % 1000 / 100);
        s.append(tenths.as_str());
        s.append("s");
        proof {
            assert(s@ =~= mag_display(t as int));
        }
        s
    } else if t < MILLIS_PER_HOUR {
        let mut s = u64_to_string(t / 60000);
        s.append("m");
        let secs = u64_to_string(t % 60000 / 1000);
        s.append(secs.as_str());
        s.append("s");
        proof {
            assert(s@ =~= mag_display(t as int));
        }
        s
    } else {
        let mut s = u64_to_string(t / 3600000);
        s.append("h");
        let mins = u64_to_string(t % 3600000 / 60000);
        s.append(mins.as_str());
        s.append("m");
        proof {
            assert(s@ =~= mag_display(t as int));
        }
        s
    }
}

/// Renders a duration in milliseconds, per [`timing_display`].
pub fn format_timing(t: i32) -> (r: String)
    ensures
        r@ == timing_display(t as int),
{
    if t >= 0 {
        format_magnitude(t as u64)
    } else {
        let mag: u64 = (-(t as i64)) as u64;
        let mut s = String::from_str("-");
        let rest = format_magnitude(mag);
        s.append(rest.as_str());
        proof {
            reveal_strlit("-");
            assert(s@ =~= timing_display(t as int));
        }
        s
    }
}

/// The duration segment for the raw timing value handed in from the
/// environment: absent when the value is absent or does not parse as a
/// 32-bit integer, else the rendering of the parsed value.
pub open spec fn timing_spec(raw: Option<Seq<char>>) -> Option<Seq<char>> {
    match raw {
        Option::None => Option::None,
        Option::Some(s) => match spec_parse_i32(s) {
            Option::None => Option::None,
            Option::Some(v) => Option::Some(timing_display(v)),
        },
    }
}

/// Builds the duration segment, per [`timing_spec`]. A malformed value is
/// a silent absence, never an error: the prompt must not fail over stale
/// ambient state.
pub fn get_timing(raw: Option<&str>) -> (r: Option<String>)
    ensures
        match r {
            Some(out) => timing_spec(opt_str_view(raw)) == Some(out@),
            None => timing_spec(opt_str_view(raw)) is None,
        },
{
    match raw {
        None => None,
        Some(s) => match parse_i32(s) {
            None => None,
            Some(v) => Some(format_timing(v)),
        },
    }
}

} // verus!
