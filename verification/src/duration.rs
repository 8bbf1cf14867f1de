use vstd::prelude::*;

pub mod common;
pub mod ttl_time_unix;

use crate::duration::ttl_time_unix::{ttl_unit, ttl_unit_spec, TtlTimeUnix};
use crate::error::{reflects, ErrorKind, ParseError};
use crate::integer::{integer, integer_spec};

verus! {

/// Outcome of the plain-seconds grammar: a bare integer read directly as a
/// count of seconds.
pub open spec fn seconds_spec(s: Seq<u8>) -> Result<(nat, u32), (nat, ErrorKind)> {
    integer_spec(s)
}

/// Parses a plain second count at `pos`.
pub fn seconds(s: &[u8], pos: usize) -> (r: Result<(usize, u32), ParseError>)
    requires
        pos <= s@.len(),
    ensures
        reflects(r, seconds_spec(s@.skip(pos as int)), s@, pos as int),
{
    integer(s, pos)
}

/// Outcome of the duration grammar on a remaining input: the compound
/// unit-suffixed form is attempted first; when it matched no component at
/// all, a bare integer is read as raw seconds instead.
pub open spec fn duration_spec(s: Seq<u8>) -> Result<(nat, TtlTimeUnix), (nat, ErrorKind)> {
    match ttl_unit_spec(s) {
        Ok(ok) => Ok(ok),
        Err((o, kind)) => if kind is IncompleteComposite {
            match seconds_spec(s) {
                Ok((k, v)) => Ok(
                    ((k, TtlTimeUnix { weeks: 0, days: 0, hours: 0, minutes: 0, seconds: v })),
                ),
                Err(e) => Err(e),
            }
        } else {
            Err((o, kind))
        },
    }
}

/// Parses a duration at `pos`: either the compound `w d h m s` form or a
/// plain second count.
pub fn duration(s: &[u8], pos: usize) -> (r: Result<(usize, TtlTimeUnix), ParseError>)
    requires
        pos <= s@.len(),
    ensures
        reflects(r, duration_spec(s@.skip(pos as int)), s@, pos as int),
{
    match ttl_unit(s, pos) {
        Ok(ok) => Ok(ok),
        Err(e) => {
            if matches!(e.kind, ErrorKind::IncompleteComposite) {
                match integer(s, pos) {
                    Ok((end, v)) => Ok(
                        ((end, TtlTimeUnix {
                            weeks: 0,
                            days: 0,
                            hours: 0,
                            minutes: 0,
                            seconds: v,
                        })),
                    ),
                    Err(e2) => Err(e2),
                }
            } else {
                Err(e)
            }
        },
    }
}

/// A parse is a function of the unconsumed remainder alone: cursors with
/// equal remainders parse equally, and an empty remainder fails cleanly.
pub proof fn lemma_duration_parses_independently(s1: Seq<u8>, pos1: int, s2: Seq<u8>, pos2: int)
    requires
        0 <= pos1 <= s1.len(),
        0 <= pos2 <= s2.len(),
        s1.skip(pos1) == s2.skip(pos2),
    ensures
        duration_spec(s1.skip(pos1)) == duration_spec(s2.skip(pos2)),
        duration_spec(Seq::<u8>::empty()) == Err::<(nat, TtlTimeUnix), (nat, ErrorKind)>(
            ((0, ErrorKind::NoMatch)),
        ),
{
    assert(Seq::<u8>::empty().skip(0) =~= Seq::<u8>::empty());
}

} // verus!
