//! Parsing and rendering of 24-hour clock times.
//!
//! The accepted time grammar is one or two digits for the hour, a colon,
//! then one or two digits for the minute, with nothing around them; the
//! hour must be below 24 and the minute below 60.

use crate::strings::push_two_dec;
use crate::strings::two_dec_of;
use vstd::arithmetic::div_mod::lemma_add_mod_noop_right;
use vstd::arithmetic::div_mod::lemma_small_mod;
use vstd::prelude::*;

verus! {

/// Whether `c` is an ASCII decimal digit.
pub open spec fn is_digit_char(c: char) -> bool {
    c == '0' || c == '1' || c == '2' || c == '3' || c == '4' || c == '5' || c == '6' || c == '7'
        || c == '8' || c == '9'
}

/// The numeric value of an ASCII decimal digit.
pub open spec fn digit_val(c: char) -> nat
    recommends
        is_digit_char(c),
{
    if c == '0' {
        0
    } else if c == '1' {
        1
    } else if c == '2' {
        2
    } else if c == '3' {
        3
    } else if c == '4' {
        4
    } else if c == '5' {
        5
    } else if c == '6' {
        6
    } else if c == '7' {
        7
    } else if c == '8' {
        8
    } else {
        9
    }
}

/// The digit value of `c`, or `None` when `c` is not a digit.
fn digit_of(c: char) -> (r: Option<u8>)
    ensures
        r is Some <==> is_digit_char(c),
        r matches Some(d) ==> d == digit_val(c) && d < 10,
{
    match c {
        '0' => Some(0),
        '1' => Some(1),
        '2' => Some(2),
        '3' => Some(3),
        '4' => Some(4),
        '5' => Some(5),
        '6' => Some(6),
        '7' => Some(7),
        '8' => Some(8),
        '9' => Some(9),
        _ => None,
    }
}

/// The index of the separating colon: after one digit when the second
/// character is the colon, otherwise after two.
pub open spec fn colon_ix(s: Seq<char>) -> int {
    if s.len() >= 2 && s[1] == ':' {
        1
    } else {
        2
    }
}

/// Whether `s` has the shape of a clock time: one or two digits, a colon,
/// then one or two digits.
pub open spec fn hhmm_shape(s: Seq<char>) -> bool {
    let k = colon_ix(s);
    &&& k + 2 <= s.len() <= k + 3
    &&& s[k] == ':'
    &&& forall|t: int| 0 <= t < k ==> is_digit_char(s[t])
    &&& forall|t: int| k < t < s.len() ==> is_digit_char(s[t])
}

/// The hour field of a well-shaped clock time.
pub open spec fn spec_hour(s: Seq<char>) -> nat
    recommends
        hhmm_shape(s),
{
    let k = colon_ix(s);
    if k == 1 {
        digit_val(s[0])
    } else {
        digit_val(s[0]) * 10 + digit_val(s[1])
    }
}

/// The minute field of a well-shaped clock time.
pub open spec fn spec_minute(s: Seq<char>) -> nat
    recommends
        hhmm_shape(s),
{
    let k = colon_ix(s);
    if s.len() == k + 2 {
        digit_val(s[k + 1])
    } else {
        digit_val(s[k + 1]) * 10 + digit_val(s[k + 2])
    }
}

/// Whether `s` parses as a clock time: well shaped, hour below 24 and
/// minute below 60.
pub open spec fn parse_ok(s: Seq<char>) -> bool {
    hhmm_shape(s) && spec_hour(s) < 24 && spec_minute(s) < 60
}

/// Parses a 24-hour `HH:MM` time of day.  Returns the hour and minute, or
/// a description of why the input was rejected.
pub fn parse_hhmm(s: &str) -> (r: Result<(u8, u8), String>)
    ensures
        r is Ok <==> parse_ok(s@),
        r matches Ok(hm) ==> hm.0 == spec_hour(s@) && hm.1 == spec_minute(s@) && hm.0 < 24 && hm.1
            < 60,
        !hhmm_shape(s@) ==> (r matches Err(d) && d@ == "expected HH:MM"@),
        hhmm_shape(s@) && !parse_ok(s@) ==> (r matches Err(d) && d@ == "value out of range"@),
{
    let n = s.unicode_len();
    if n < 3 || n > 5 {
        return Err(String::from_str("expected HH:MM"));
    }
    let k: usize = if s.get_char(1) == ':' {
        1
    } else {
        2
    };
    proof {
        assert(k == colon_ix(s@));
    }
    if n < k + 2 || n > k + 3 {
        return Err(String::from_str("expected HH:MM"));
    }
    if s.get_char(k) != ':' {
        return Err(String::from_str("expected HH:MM"));
    }
    let h: u8 = if k == 1 {
        match digit_of(s.get_char(0)) {
            Some(d) => d,
            None => {
                return Err(String::from_str("expected HH:MM"));
            },
        }
    } else {
        match (digit_of(s.get_char(0)), digit_of(s.get_char(1))) {
            (Some(d0), Some(d1)) => d0 * 10 + d1,
            _ => {
                return Err(String::from_str("expected HH:MM"));
            },
        }
    };
    let m: u8 = if n == k + 2 {
        match digit_of(s.get_char(k + 1)) {
            Some(d) => d,
            None => {
                return Err(String::from_str("expected HH:MM"));
            },
        }
    } else {
        match (digit_of(s.get_char(k + 1)), digit_of(s.get_char(k + 2))) {
            (Some(d0), Some(d1)) => d0 * 10 + d1,
            _ => {
                return Err(String::from_str("expected HH:MM"));
            },
        }
    };
    if h >= 24 || m >= 60 {
        return Err(String::from_str("value out of range"));
    }
    Ok((h, m))
}

/// The `HH:MM` rendering of an hour and minute, each zero padded to two
/// digits.
pub open spec fn hhmm_text(h: nat, m: nat) -> Seq<char> {
    two_dec_of(h) + ":"@ + two_dec_of(m)
}

/// The `HH:MM:SS` rendering of a full clock reading.
pub open spec fn hhmmss_text(h: nat, m: nat, s: nat) -> Seq<char> {
    two_dec_of(h) + ":"@ + two_dec_of(m) + ":"@ + two_dec_of(s)
}

/// Renders `h:m` as zero-padded `HH:MM`.
pub fn format_hhmm(h: u8, m: u8) -> (r: String)
    requires
        h < 100,
        m < 100,
    ensures
        r@ == hhmm_text(h as nat, m as nat),
{
    let mut out = String::new();
    push_two_dec(&mut out, h as u64);
    out.append(":");
    push_two_dec(&mut out, m as u64);
    proof {
        assert(out@ =~= hhmm_text(h as nat, m as nat));
    }
    out
}

/// Renders `h:m:s` as zero-padded `HH:MM:SS`.
pub fn format_hhmmss(h: u8, m: u8, s: u8) -> (r: String)
    requires
        h < 100,
        m < 100,
        s < 100,
    ensures
        r@ == hhmmss_text(h as nat, m as nat, s as nat),
{
    let mut out = String::new();
    push_two_dec(&mut out, h as u64);
    out.append(":");
    push_two_dec(&mut out, m as u64);
    out.append(":");
    push_two_dec(&mut out, s as u64);
    proof {
        assert(out@ =~= hhmmss_text(h as nat, m as nat, s as nat));
    }
    out
}

/// The hour field of the clock time `add` minutes after `h:m`, wrapping at
/// midnight.
pub open spec fn plus_minutes_hour(h: nat, m: nat, add: nat) -> nat {
    ((h * 60 + m + add) % 1440) / 60
}

/// The minute field of the clock time `add` minutes after `h:m`, wrapping
/// at midnight.
pub open spec fn plus_minutes_minute(h: nat, m: nat, add: nat) -> nat {
    ((h * 60 + m + add) % 1440) % 60
}

/// Renders the clock time `add` minutes after `h:m` as `HH:MM`.
pub fn quick_time_text(h: u8, m: u8, add: u64) -> (r: String)
    requires
        h < 24,
        m < 60,
    ensures
        r@ == hhmm_text(
            plus_minutes_hour(h as nat, m as nat, add as nat),
            plus_minutes_minute(h as nat, m as nat, add as nat),
        ),
{
    let base: u64 = h as u64 * 60 + m as u64;
    let a: u64 = add % 1440;
    let total: u64 = (base + a) % 1440;
    proof {
        lemma_add_mod_noop_right(base as int, add as int, 1440);
        assert((base + a) as int % 1440 == (base + add) as int % 1440);
        lemma_small_mod((total % 60) as nat, 60);
    }
    let qh: u64 = total / 60;
    let qm: u64 = total % 60;
    format_hhmm(qh as u8, qm as u8)
}

} // verus!
