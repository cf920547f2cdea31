//! Process exit codes of a loaded entrypoint's result.
use vstd::prelude::*;
use vstd::string::*;

use crate::error::CliError;
use crate::text::{chars_of, is_digit};
use crate::version::{decimal_value, digit_value};

verus! {

broadcast use vstd::string::group_string_axioms;

/// Exit code of success.
pub const EXIT_SUCCESS: i32 = 0;

/// Exit code of failure.
pub const EXIT_FAILURE: i32 = 1;

/// Whether text is an integer as `str::parse::<i32>` reads it: an optional
/// sign and at least one ASCII digit.
pub open spec fn is_int_text(s: Seq<char>) -> bool {
    all_digits(int_digits(s))
}

/// The digits of integer text: what follows an optional sign.
pub open spec fn int_digits(s: Seq<char>) -> Seq<char> {
    if s.len() > 0 && (s[0] == '+' || s[0] == '-') {
        s.drop_first()
    } else {
        s
    }
}

/// At least one character, all ASCII digits.
pub open spec fn all_digits(d: Seq<char>) -> bool {
    d.len() > 0 && forall|i: int| 0 <= i < d.len() ==> is_digit(#[trigger] d[i])
}

/// The value of integer text.
pub open spec fn int_text_value(s: Seq<char>) -> int {
    if s.len() > 0 && s[0] == '-' {
        -(decimal_value(s.drop_first()) as int)
    } else if s.len() > 0 && s[0] == '+' {
        decimal_value(s.drop_first()) as int
    } else {
        decimal_value(s) as int
    }
}

/// The exit code a number of the `exit-code` domain names: an integer in
/// `0..=255`.
pub open spec fn exit_code_of(s: Seq<char>) -> Option<int> {
    if is_int_text(s) && 0 <= int_text_value(s) <= 255 {
        Some(int_text_value(s))
    } else {
        None
    }
}

/// The error for an `exit-code` number outside `0..=255`.
fn exit_code_error() -> (e: CliError)
    ensures
        e.message@ == "CLI exit-code number must be an integer in 0..=255"@,
{
    CliError::msg("CLI exit-code number must be an integer in 0..=255")
}

/// Reads an `exit-code` number's canonical text as a process exit code.
pub fn exit_code_from_number(canonical: &str) -> (r: Result<i32, CliError>)
    ensures
        match exit_code_of(canonical@) {
            Some(v) => r matches Ok(c) && c == v,
            None => r matches Err(e) && e.message@ == "CLI exit-code number must be an integer in 0..=255"@,
        },
{
    let s = chars_of(canonical);
    let mut start: usize = 0;
    let mut negative = false;
    if s.len() > 0 && (s[0] == '+' || s[0] == '-') {
        negative = s[0] == '-';
        start = 1;
    }
    let ghost d = s@.skip(start as int);
    proof {
        if start == 1 {
            assert(d =~= s@.drop_first());
        } else {
            assert(d =~= s@);
        }
    }
    if start >= s.len() {
        return Err(exit_code_error());
    }
    let mut acc: u32 = 0;
    let mut big = false;
    let mut i: usize = start;
    while i < s.len()
        invariant
            start <= i <= s@.len(),
            s@ == canonical@,
            d == s@.skip(start as int),
            d == int_digits(s@),
            forall|j: int| start <= j < i ==> is_digit(#[trigger] s@[j]),
            !big ==> acc == decimal_value(s@.subrange(start as int, i as int)) && acc <= 255,
            big ==> decimal_value(s@.subrange(start as int, i as int)) > 255,
        decreases s@.len() - i,
    {
        let c = s[i];
        if !('0' <= c && c <= '9') {
            proof {
                assert(d[i - start] == c);
                assert(!is_digit(d[i - start]));
                assert(!is_int_text(canonical@));
            }
            return Err(exit_code_error());
        }
        let dv: u32 = (c as u32) - ('0' as u32);
        proof {
            let sub = s@.subrange(start as int, i + 1);
            assert(sub.drop_last() =~= s@.subrange(start as int, i as int));
            assert(sub.last() == c);
            assert(dv == digit_value(c));
            let v = decimal_value(s@.subrange(start as int, i as int));
            assert(v <= v * 10) by (nonlinear_arith);
        }
        if !big {
            if acc * 10 + dv > 255 {
                big = true;
            } else {
                acc = acc * 10 + dv;
            }
        }
        i = i + 1;
    }
    proof {
        assert(s@.subrange(start as int, s@.len() as int) =~= d);
        assert forall|j: int| 0 <= j < d.len() implies is_digit(#[trigger] d[j]) by {
            assert(d[j] == s@[j + start]);
        }
    }
    if big {
        return Err(exit_code_error());
    }
    if negative {
        if acc == 0 {
            Ok(0)
        } else {
            Err(exit_code_error())
        }
    } else {
        Ok(acc as i32)
    }
}

/// The exit code of a truth value: success or failure.
pub fn exit_code_from_truth(success: bool) -> (r: i32)
    ensures
        r == (if success { EXIT_SUCCESS } else { EXIT_FAILURE }),
{
    if success {
        EXIT_SUCCESS
    } else {
        EXIT_FAILURE
    }
}

} // verus!
