use vstd::prelude::*;

use crate::duration::common::{number_and_char_no_case, number_and_char_no_case_spec};
use crate::error::{reflects, ErrorKind, ParseError};
use crate::scan::lemma_skip_skip;
use vstd::std_specs::cmp::PartialEqSpec;

verus! {

pub const SECONDS_IN_A_WEEK: u32 = 604800;

pub const SECONDS_IN_A_DAY: u32 = 86400;

pub const SECONDS_IN_AN_HOUR: u32 = 3600;

pub const SECONDS_IN_A_MINUTE: u32 = 60;

pub const SECONDS_IN_A_SECOND: u32 = 1;

/// A compound duration: per-unit counts in the fixed order weeks, days,
/// hours, minutes, seconds. Its identity is its weighted total alone:
/// equality ignores which components expressed the total.
#[derive(Clone, Copy, Debug)]
pub struct TtlTimeUnix {
    pub weeks: u32,
    pub days: u32,
    pub hours: u32,
    pub minutes: u32,
    pub seconds: u32,
}

/// The count of an optional component, an absent component counting as zero.
pub open spec fn or_zero(o: Option<u32>) -> u32 {
    match o {
        Some(v) => v,
        None => 0,
    }
}

impl TtlTimeUnix {
    /// The weighted total in seconds, as an unbounded integer.
    pub open spec fn total_spec(self) -> int {
        self.weeks * SECONDS_IN_A_WEEK + self.days * SECONDS_IN_A_DAY + self.hours
            * SECONDS_IN_AN_HOUR + self.minutes * SECONDS_IN_A_MINUTE + self.seconds
            * SECONDS_IN_A_SECOND
    }

    /// The weighted total in seconds; wide enough that no count overflows it.
    fn total_u64(&self) -> (r: u64)
        ensures
            r == self.total_spec(),
    {
        let w: u64 = self.weeks as u64;
        let d: u64 = self.days as u64;
        let h: u64 = self.hours as u64;
        let m: u64 = self.minutes as u64;
        let sec: u64 = self.seconds as u64;
        proof {
            assert(w * 604800 + d * 86400 + h * 3600 + m * 60 + sec * 1 < 0x8000000000000000)
                by (nonlinear_arith)
                requires
                    w < 0x100000000,
                    d < 0x100000000,
                    h < 0x100000000,
                    m < 0x100000000,
                    sec < 0x100000000,
            ;
        }
        w * 604800 + d * 86400 + h * 3600 + m * 60 + sec * 1
    }

    /// The weighted total in seconds. The caller must know that the total
    /// fits an unsigned 32-bit count.
    pub fn duration(&self) -> (r: u32)
        requires
            self.total_spec() <= u32::MAX,
        ensures
            r == self.total_spec(),
    {
        self.total_u64() as u32
    }

    /// Whether any time is recorded: the weighted total is non-zero.
    pub fn has_time(&self) -> (r: bool)
        ensures
            r == (self.total_spec() > 0),
    {
        self.total_u64() > 0
    }

    /// Builds a compound duration from the five optional counts, in the
    /// order weeks, days, hours, minutes, seconds; an absent count is zero.
    pub fn from_option_tuple(
        tup: (Option<u32>, Option<u32>, Option<u32>, Option<u32>, Option<u32>),
    ) -> (r: TtlTimeUnix)
        ensures
            r == (TtlTimeUnix {
                weeks: or_zero(tup.0),
                days: or_zero(tup.1),
                hours: or_zero(tup.2),
                minutes: or_zero(tup.3),
                seconds: or_zero(tup.4),
            }),
    {
        TtlTimeUnix {
            weeks: match tup.0 {
                Some(v) => v,
                None => 0,
            },
            days: match tup.1 {
                Some(v) => v,
                None => 0,
            },
            hours: match tup.2 {
                Some(v) => v,
                None => 0,
            },
            minutes: match tup.3 {
                Some(v) => v,
                None => 0,
            },
            seconds: match tup.4 {
                Some(v) => v,
                None => 0,
            },
        }
    }
}

impl PartialEq for TtlTimeUnix {
    /// Two durations are equal exactly when their weighted totals agree,
    /// whatever components expressed them.
    fn eq(&self, other: &Self) -> (r: bool) {
        self.total_u64() == other.total_u64()
    }
}

impl vstd::std_specs::cmp::PartialEqSpecImpl for TtlTimeUnix {
    open spec fn obeys_eq_spec() -> bool {
        true
    }

    open spec fn eq_spec(&self, other: &TtlTimeUnix) -> bool {
        self.total_spec() == other.total_spec()
    }
}

/// Duration equality is total-seconds-based: `==` on compound durations
/// holds exactly when the weighted totals agree, so the same span written
/// with different components compares equal.
pub proof fn lemma_duration_equality_total_based(a: TtlTimeUnix, b: TtlTimeUnix)
    ensures
        a.eq_spec(&b) <==> a.total_spec() == b.total_spec(),
{
}

/// Count and consumed length of one optional unit component: a component
/// that fails to match consumes nothing and counts nothing.
pub open spec fn opt_unit_spec(s: Seq<u8>, unit: u8) -> (nat, Option<u32>) {
    match number_and_char_no_case_spec(s, unit) {
        Ok((k, v)) => (k, Some(v)),
        Err(_) => (0, None),
    }
}

/// Outcome of the compound TTL grammar on a remaining input: an optional
/// `count`+letter pair for each unit, attempted in the fixed order
/// `w d h m s` (case-insensitive). At least one component must be present,
/// and the weighted total must fit an unsigned 32-bit second count.
pub open spec fn ttl_unit_spec(s: Seq<u8>) -> Result<(nat, TtlTimeUnix), (nat, ErrorKind)> {
    let (kw, w) = opt_unit_spec(s, 119);
    let (kd, d) = opt_unit_spec(s.skip(kw as int), 100);
    let (kh, h) = opt_unit_spec(s.skip((kw + kd) as int), 104);
    let (km, m) = opt_unit_spec(s.skip((kw + kd + kh) as int), 109);
    let (ks, sec) = opt_unit_spec(s.skip((kw + kd + kh + km) as int), 115);
    let t = TtlTimeUnix {
        weeks: or_zero(w),
        days: or_zero(d),
        hours: or_zero(h),
        minutes: or_zero(m),
        seconds: or_zero(sec),
    };
    if w is None && d is None && h is None && m is None && sec is None {
        Err((0, ErrorKind::IncompleteComposite))
    } else if t.total_spec() > u32::MAX {
        Err((0, ErrorKind::RangeOverflow))
    } else {
        Ok(((kw + kd + kh + km + ks) as nat, t))
    }
}

/// Attempts one optional unit component at `pos`: on failure the cursor
/// does not move and the count is absent.
fn opt_unit(s: &[u8], pos: usize, unit: u8) -> (r: (usize, Option<u32>))
    requires
        pos <= s@.len(),
    ensures
        pos <= r.0 <= s@.len(),
        (((r.0 - pos) as nat, r.1) == opt_unit_spec(s@.skip(pos as int), unit)),
{
    match number_and_char_no_case(s, pos, unit) {
        Ok((end, v)) => (end, Some(v)),
        Err(_) => (pos, None),
    }
}

/// Parses a compound duration at `pos`: optional `count`+unit pairs in the
/// fixed order weeks, days, hours, minutes, seconds.
#[verifier::rlimit(50)]
pub fn ttl_unit(s: &[u8], pos: usize) -> (r: Result<(usize, TtlTimeUnix), ParseError>)
    requires
        pos <= s@.len(),
    ensures
        reflects(r, ttl_unit_spec(s@.skip(pos as int)), s@, pos as int),
{
    let ghost rem = s@.skip(pos as int);
    let (p1, w) = opt_unit(s, pos, 119);
    proof {
        lemma_skip_skip(s@, pos as int, p1 - pos);
        assert(opt_unit_spec(rem, 119) == (((p1 - pos) as nat, w)));
    }
    let (p2, d) = opt_unit(s, p1, 100);
    proof {
        lemma_skip_skip(s@, pos as int, p2 - pos);
        assert(opt_unit_spec(rem.skip((p1 - pos) as int), 100) == (((p2 - p1) as nat, d)));
    }
    let (p3, h) = opt_unit(s, p2, 104);
    proof {
        lemma_skip_skip(s@, pos as int, p3 - pos);
        assert(opt_unit_spec(rem.skip((p2 - pos) as int), 104) == (((p3 - p2) as nat, h)));
    }
    let (p4, m) = opt_unit(s, p3, 109);
    proof {
        lemma_skip_skip(s@, pos as int, p4 - pos);
        assert(opt_unit_spec(rem.skip((p3 - pos) as int), 109) == (((p4 - p3) as nat, m)));
    }
    let (p5, sec) = opt_unit(s, p4, 115);
    proof {
        assert(opt_unit_spec(rem.skip((p4 - pos) as int), 115) == (((p5 - p4) as nat, sec)));
    }
    let t = TtlTimeUnix::from_option_tuple((w, d, h, m, sec));
    if w.is_none() && d.is_none() && h.is_none() && m.is_none() && sec.is_none() {
        Err(ParseError { pos, kind: ErrorKind::IncompleteComposite })
    } else if t.total_u64() > u32::MAX as u64 {
        Err(ParseError { pos, kind: ErrorKind::RangeOverflow })
    } else {
        Ok((p5, t))
    }
}

} // verus!
