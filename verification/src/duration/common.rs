use vstd::prelude::*;

use crate::error::{reflects, ErrorKind, ParseError};
use crate::integer::{integer, integer_spec};

verus! {

/// ASCII lower-casing of a single byte.
pub open spec fn to_lower(b: u8) -> u8 {
    if 65 <= b && b <= 90 {
        (b + 32) as u8
    } else {
        b
    }
}

/// Two bytes match as ASCII letters, ignoring case.
pub open spec fn eq_no_case(a: u8, b: u8) -> bool {
    to_lower(a) == to_lower(b)
}

/// Outcome of the number-then-unit-letter grammar on a remaining input: an
/// integer immediately followed by the unit byte, matched case-insensitively.
/// The letter is consumed as a terminator; the number is the value.
pub open spec fn number_and_char_no_case_spec(s: Seq<u8>, unit: u8) -> Result<
    (nat, u32),
    (nat, ErrorKind),
> {
    match integer_spec(s) {
        Ok((k, v)) => if k < s.len() && eq_no_case(s[k as int], unit) {
            Ok(((k + 1) as nat, v))
        } else {
            Err((k, ErrorKind::NoMatch))
        },
        Err(e) => Err(e),
    }
}

/// Compares two bytes as ASCII letters, ignoring case.
fn eq_no_case_exec(a: u8, b: u8) -> (r: bool)
    ensures
        r == eq_no_case(a, b),
{
    let la: u8 = if 65 <= a && a <= 90 {
        a + 32
    } else {
        a
    };
    let lb: u8 = if 65 <= b && b <= 90 {
        b + 32
    } else {
        b
    };
    la == lb
}

/// Parses an integer followed by the given unit letter at `pos`.
pub fn number_and_char_no_case(s: &[u8], pos: usize, unit: u8) -> (r: Result<
    (usize, u32),
    ParseError,
>)
    requires
        pos <= s@.len(),
    ensures
        reflects(r, number_and_char_no_case_spec(s@.skip(pos as int), unit), s@, pos as int),
{
    let ghost rem = s@.skip(pos as int);
    match integer(s, pos) {
        Ok((end, v)) => {
            proof {
                if end < s@.len() {
                    assert(rem[(end - pos) as int] == s@[end as int]);
                }
            }
            if end < s.len() && eq_no_case_exec(s[end], unit) {
                Ok((end + 1, v))
            } else {
                Err(ParseError { pos: end, kind: ErrorKind::NoMatch })
            }
        },
        Err(e) => Err(e),
    }
}

} // verus!
