use vstd::prelude::*;

use crate::error::{reflects, ErrorKind, ParseError};
use crate::integer::{integer, integer_spec};
use crate::scan::{dec_value, lemma_skip_skip, run_len};

verus! {

/// An IPv4 address: four unsigned 8-bit octets in dotted-decimal order,
/// most significant first.
#[derive(Clone, Copy, Debug, PartialEq, Eq, Structural)]
pub struct Ipv4Addr {
    pub o1: u8,
    pub o2: u8,
    pub o3: u8,
    pub o4: u8,
}

impl Ipv4Addr {
    /// Builds an address from its four octets, most significant first.
    pub fn from_octets(o1: u8, o2: u8, o3: u8, o4: u8) -> (r: Ipv4Addr)
        ensures
            r == (Ipv4Addr { o1, o2, o3, o4 }),
    {
        Ipv4Addr { o1, o2, o3, o4 }
    }
}

/// Outcome of the 8-bit octet grammar on a remaining input: the maximal
/// digit run at the front, whose value must not exceed 255.
pub open spec fn octet_spec(s: Seq<u8>) -> Result<(nat, u8), (nat, ErrorKind)> {
    let k = run_len(s);
    if k == 0 {
        Err((0, ErrorKind::NoMatch))
    } else if dec_value(s, k as int) > 255 {
        Err((0, ErrorKind::RangeOverflow))
    } else {
        Ok((k, dec_value(s, k as int) as u8))
    }
}

/// Parses an unsigned 8-bit decimal octet at `pos`.
pub fn octet(s: &[u8], pos: usize) -> (r: Result<(usize, u8), ParseError>)
    requires
        pos <= s@.len(),
    ensures
        reflects(r, octet_spec(s@.skip(pos as int)), s@, pos as int),
{
    match integer(s, pos) {
        Ok((end, v)) => {
            if v <= 255 {
                Ok((end, v as u8))
            } else {
                Err(ParseError { pos, kind: ErrorKind::RangeOverflow })
            }
        },
        Err(e) => Err(e),
    }
}

/// Outcome of the `.`-then-octet grammar: a literal `.` followed by an
/// 8-bit octet.
pub open spec fn dot_and_octet_spec(s: Seq<u8>) -> Result<(nat, u8), (nat, ErrorKind)> {
    if s.len() == 0 || s[0] != 46u8 {
        Err((0, ErrorKind::NoMatch))
    } else {
        match octet_spec(s.skip(1)) {
            Ok((k, v)) => Ok(((k + 1) as nat, v)),
            Err((o, kind)) => Err(((o + 1) as nat, kind)),
        }
    }
}

/// Parses a literal `.` followed by an octet at `pos`.
pub fn dot_and_octet(s: &[u8], pos: usize) -> (r: Result<(usize, u8), ParseError>)
    requires
        pos <= s@.len(),
    ensures
        reflects(r, dot_and_octet_spec(s@.skip(pos as int)), s@, pos as int),
{
    let ghost rem = s@.skip(pos as int);
    proof {
        if pos < s@.len() {
            assert(rem[0] == s@[pos as int]);
        }
    }
    if pos < s.len() && s[pos] == 46 {
        proof {
            lemma_skip_skip(s@, pos as int, 1);
        }
        match octet(s, pos + 1) {
            Ok((end, v)) => Ok((end, v)),
            Err(e) => Err(e),
        }
    } else {
        Err(ParseError { pos, kind: ErrorKind::NoMatch })
    }
}

/// Outcome of the dotted-quad grammar on a remaining input: exactly four
/// octets separated by literal `.`. A fifth dotted octet immediately
/// following is rejected, so no other octet count matches; a failing octet
/// fails the whole address at its own position.
pub open spec fn ipv4_spec(s: Seq<u8>) -> Result<(nat, Ipv4Addr), (nat, ErrorKind)> {
    match octet_spec(s) {
        Err(e) => Err(e),
        Ok((k1, a)) => match dot_and_octet_spec(s.skip(k1 as int)) {
            Err((o, kind)) => Err(((k1 + o) as nat, kind)),
            Ok((k2, b)) => match dot_and_octet_spec(s.skip((k1 + k2) as int)) {
                Err((o, kind)) => Err(((k1 + k2 + o) as nat, kind)),
                Ok((k3, c)) => match dot_and_octet_spec(s.skip((k1 + k2 + k3) as int)) {
                    Err((o, kind)) => Err(((k1 + k2 + k3 + o) as nat, kind)),
                    Ok((k4, d)) => {
                        let k = (k1 + k2 + k3 + k4) as nat;
                        if dot_and_octet_spec(s.skip(k as int)) is Ok {
                            Err((k, ErrorKind::NoMatch))
                        } else {
                            Ok((k, Ipv4Addr { o1: a, o2: b, o3: c, o4: d }))
                        }
                    },
                },
            },
        },
    }
}

/// Parses a dotted-quad IPv4 address at `pos`.
pub fn ipv4(s: &[u8], pos: usize) -> (r: Result<(usize, Ipv4Addr), ParseError>)
    requires
        pos <= s@.len(),
    ensures
        reflects(r, ipv4_spec(s@.skip(pos as int)), s@, pos as int),
{
    let ghost rem = s@.skip(pos as int);
    let (p1, a) = match octet(s, pos) {
        Ok(x) => x,
        Err(e) => return Err(e),
    };
    proof {
        lemma_skip_skip(s@, pos as int, p1 - pos);
    }
    let (p2, b) = match dot_and_octet(s, p1) {
        Ok(x) => x,
        Err(e) => return Err(e),
    };
    proof {
        lemma_skip_skip(s@, pos as int, p2 - pos);
    }
    let (p3, c) = match dot_and_octet(s, p2) {
        Ok(x) => x,
        Err(e) => return Err(e),
    };
    proof {
        lemma_skip_skip(s@, pos as int, p3 - pos);
    }
    let (p4, d) = match dot_and_octet(s, p3) {
        Ok(x) => x,
        Err(e) => return Err(e),
    };
    proof {
        lemma_skip_skip(s@, pos as int, p4 - pos);
    }
    match dot_and_octet(s, p4) {
        Ok(_) => Err(ParseError { pos: p4, kind: ErrorKind::NoMatch }),
        Err(_) => Ok((p4, Ipv4Addr { o1: a, o2: b, o3: c, o4: d })),
    }
}

/// A parse is a function of the unconsumed remainder alone: cursors with
/// equal remainders parse equally, and an empty remainder fails cleanly.
pub proof fn lemma_ipv4_parses_independently(s1: Seq<u8>, pos1: int, s2: Seq<u8>, pos2: int)
    requires
        0 <= pos1 <= s1.len(),
        0 <= pos2 <= s2.len(),
        s1.skip(pos1) == s2.skip(pos2),
    ensures
        ipv4_spec(s1.skip(pos1)) == ipv4_spec(s2.skip(pos2)),
        ipv4_spec(Seq::<u8>::empty()) == Err::<(nat, Ipv4Addr), (nat, ErrorKind)>(
            ((0, ErrorKind::NoMatch)),
        ),
{
}

} // verus!
