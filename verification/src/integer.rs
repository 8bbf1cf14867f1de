use vstd::prelude::*;

use crate::error::{reflects, ErrorKind, ParseError};
use crate::scan::{dec_value, digit_run_end, digit_val, is_digit, lemma_dec_value_agree,
    lemma_dec_value_mono, lemma_run_len, run_len};

verus! {

pub const MIN_INTEGER: u32 = 0;

pub const MAX_INTEGER: u32 = 4294967295;

/// Outcome of the unsigned 32-bit integer grammar on a remaining input:
/// the maximal digit run at the front is consumed and read as a decimal
/// numeral. An empty run is no match; a run whose value exceeds
/// `MAX_INTEGER` is a range overflow. Sign characters never match.
pub open spec fn integer_spec(s: Seq<u8>) -> Result<(nat, u32), (nat, ErrorKind)> {
    let k = run_len(s);
    if k == 0 {
        Err((0, ErrorKind::NoMatch))
    } else if dec_value(s, k as int) > MAX_INTEGER {
        Err((0, ErrorKind::RangeOverflow))
    } else {
        Ok((k, dec_value(s, k as int) as u32))
    }
}

/// Parses an unsigned 32-bit decimal integer at `pos`.
pub fn integer(s: &[u8], pos: usize) -> (r: Result<(usize, u32), ParseError>)
    requires
        pos <= s@.len(),
    ensures
        reflects(r, integer_spec(s@.skip(pos as int)), s@, pos as int),
{
    let ghost rem = s@.skip(pos as int);
    let end = digit_run_end(s, pos);
    if end == pos {
        return Err(ParseError { pos, kind: ErrorKind::NoMatch });
    }
    let mut acc: u32 = 0;
    let mut j: usize = pos;
    while j < end
        invariant
            pos <= j <= end <= s@.len(),
            rem == s@.skip(pos as int),
            end - pos == run_len(rem),
            end > pos,
            acc == dec_value(rem, j - pos),
        decreases end - j,
    {
        proof {
            lemma_run_len(rem);
            assert(rem[(j - pos) as int] == s@[j as int]);
        }
        let b = s[j];
        let d: u32 = (b - 48) as u32;
        let wide: u64 = acc as u64 * 10 + d as u64;
        proof {
            assert(wide == dec_value(rem, j + 1 - pos));
        }
        if wide > MAX_INTEGER as u64 {
            proof {
                lemma_dec_value_mono(rem, j + 1 - pos, run_len(rem) as int);
            }
            return Err(ParseError { pos, kind: ErrorKind::RangeOverflow });
        }
        acc = wide as u32;
        j = j + 1;
    }
    Ok((end, acc))
}

/// The decimal text of `n`: its digit bytes, most significant first.
pub open spec fn dec_text(n: nat) -> Seq<u8>
    decreases n,
{
    if n < 10 {
        seq![(48 + n) as u8]
    } else {
        dec_text(n / 10).push((48 + (n % 10)) as u8)
    }
}

proof fn lemma_dec_text_digits(n: nat)
    ensures
        dec_text(n).len() >= 1,
        forall|j: int| 0 <= j < dec_text(n).len() ==> is_digit(#[trigger] dec_text(n)[j]),
    decreases n,
{
    if n < 10 {
        assert(dec_text(n)[0] == (48 + n) as u8);
    } else {
        lemma_dec_text_digits(n / 10);
        let u = dec_text(n / 10);
        let t = dec_text(n);
        assert forall|j: int| 0 <= j < t.len() implies is_digit(#[trigger] t[j]) by {
            if j < u.len() {
                assert(t[j] == u[j]);
            } else {
                assert(t[j] == (48 + (n % 10)) as u8);
            }
        }
    }
}

proof fn lemma_dec_text_value(n: nat)
    ensures
        dec_value(dec_text(n), dec_text(n).len() as int) == n,
    decreases n,
{
    if n < 10 {
        assert(dec_value(dec_text(n), 0) == 0);
        assert(dec_value(dec_text(n), 1) == digit_val(dec_text(n)[0]));
    } else {
        lemma_dec_text_value(n / 10);
        let u = dec_text(n / 10);
        let t = dec_text(n);
        let len = t.len() as int;
        assert(t[len - 1] == (48 + (n % 10)) as u8);
        assert forall|j: int| 0 <= j < u.len() implies t[j] == u[j] by {}
        lemma_dec_value_agree(t, u, u.len() as int);
        assert((n / 10) * 10 + (n % 10) == n) by {
            vstd::arithmetic::div_mod::lemma_fundamental_div_mod(n as int, 10);
        }
    }
}

/// Parsing the decimal text of any unsigned 32-bit value yields exactly
/// that value and consumes the whole text: the integer grammar inverts
/// decimal printing over the full range.
pub proof fn lemma_integer_round_trip(n: u32)
    ensures
        integer_spec(dec_text(n as nat)) == Ok::<(nat, u32), (nat, ErrorKind)>(
            ((dec_text(n as nat).len(), n)),
        ),
{
    let t = dec_text(n as nat);
    lemma_dec_text_digits(n as nat);
    lemma_dec_text_value(n as nat);
    lemma_run_len(t);
    assert(run_len(t) == t.len());
}

/// A parse is a function of the unconsumed remainder alone: cursors with
/// equal remainders parse equally, and an empty remainder fails cleanly.
pub proof fn lemma_integer_parses_independently(s1: Seq<u8>, pos1: int, s2: Seq<u8>, pos2: int)
    requires
        0 <= pos1 <= s1.len(),
        0 <= pos2 <= s2.len(),
        s1.skip(pos1) == s2.skip(pos2),
    ensures
        integer_spec(s1.skip(pos1)) == integer_spec(s2.skip(pos2)),
        integer_spec(Seq::<u8>::empty()) == Err::<(nat, u32), (nat, ErrorKind)>(
            ((0, ErrorKind::NoMatch)),
        ),
{
}

} // verus!
