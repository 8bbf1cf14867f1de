use vstd::prelude::*;

use crate::error::{reflects, ErrorKind, ParseError};
use crate::integer::{integer, integer_spec};

verus! {

/// Outcome of the percentage grammar on a remaining input: an integer
/// immediately followed by a literal `%`. The `%` byte is a terminator,
/// consumed but not part of the returned value, and the value is not
/// range-checked against 100.
pub open spec fn percentage_spec(s: Seq<u8>) -> Result<(nat, u32), (nat, ErrorKind)> {
    match integer_spec(s) {
        Ok((k, v)) => if k < s.len() && s[k as int] == 37u8 {
            Ok(((k + 1) as nat, v))
        } else {
            Err((k, ErrorKind::NoMatch))
        },
        Err(e) => Err(e),
    }
}

/// Parses an integer followed by `%` at `pos`.
pub fn percentage(s: &[u8], pos: usize) -> (r: Result<(usize, u32), ParseError>)
    requires
        pos <= s@.len(),
    ensures
        reflects(r, percentage_spec(s@.skip(pos as int)), s@, pos as int),
{
    let ghost rem = s@.skip(pos as int);
    match integer(s, pos) {
        Ok((end, v)) => {
            proof {
                if end < s@.len() {
                    assert(rem[(end - pos) as int] == s@[end as int]);
                }
            }
            if end < s.len() && s[end] == 37 {
                Ok((end + 1, v))
            } else {
                Err(ParseError { pos: end, kind: ErrorKind::NoMatch })
            }
        },
        Err(e) => Err(e),
    }
}

/// A parse is a function of the unconsumed remainder alone: cursors with
/// equal remainders parse equally, and an empty remainder fails cleanly.
pub proof fn lemma_percentage_parses_independently(s1: Seq<u8>, pos1: int, s2: Seq<u8>, pos2: int)
    requires
        0 <= pos1 <= s1.len(),
        0 <= pos2 <= s2.len(),
        s1.skip(pos1) == s2.skip(pos2),
    ensures
        percentage_spec(s1.skip(pos1)) == percentage_spec(s2.skip(pos2)),
        percentage_spec(Seq::<u8>::empty()) == Err::<(nat, u32), (nat, ErrorKind)>(
            ((0, ErrorKind::NoMatch)),
        ),
{
}

} // verus!
