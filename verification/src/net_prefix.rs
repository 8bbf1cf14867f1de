use vstd::prelude::*;

use crate::error::{reflects, ErrorKind, ParseError};
use crate::ipv4::{dot_and_octet, dot_and_octet_spec, ipv4, ipv4_spec, octet, octet_spec,
    Ipv4Addr};
use crate::scan::lemma_skip_skip;

verus! {

/// A masked/prefixed IPv4 address: an address plus a CIDR-style prefix
/// length in `[0, 32]`. Octets left out by a shortened surface form are
/// zero-filled in the low-order (rightmost) positions.
#[derive(Clone, Copy, Debug, PartialEq, Eq, Structural)]
pub struct NetPrefix {
    pub address: Ipv4Addr,
    pub prefix: u8,
}

impl NetPrefix {
    /// Builds a masked address from its parts.
    pub fn new(address: Ipv4Addr, prefix: u8) -> (r: NetPrefix)
        ensures
            r == (NetPrefix { address, prefix }),
    {
        NetPrefix { address, prefix }
    }
}

/// Outcome of the prefix-length number grammar: an octet-sized number that
/// must not exceed 32. A larger value is a distinct too-large failure: the
/// syntactic digit parse succeeded and only the semantic ceiling failed.
pub open spec fn u8_less_than_33_spec(s: Seq<u8>) -> Result<(nat, u8), (nat, ErrorKind)> {
    match octet_spec(s) {
        Ok((k, v)) => if v <= 32 {
            Ok((k, v))
        } else {
            Err((0, ErrorKind::TooLarge))
        },
        Err(e) => Err(e),
    }
}

/// Parses a prefix-length number in `[0, 32]` at `pos`.
pub fn u8_less_than_33(s: &[u8], pos: usize) -> (r: Result<(usize, u8), ParseError>)
    requires
        pos <= s@.len(),
    ensures
        reflects(r, u8_less_than_33_spec(s@.skip(pos as int)), s@, pos as int),
{
    match octet(s, pos) {
        Ok((end, v)) => {
            if v <= 32 {
                Ok((end, v))
            } else {
                Err(ParseError { pos, kind: ErrorKind::TooLarge })
            }
        },
        Err(e) => Err(e),
    }
}

/// Outcome of the `/`-prefix grammar: a literal `/` followed by a prefix
/// length in `[0, 32]`.
pub open spec fn prefix_spec(s: Seq<u8>) -> Result<(nat, u8), (nat, ErrorKind)> {
    if s.len() == 0 || s[0] != 47u8 {
        Err((0, ErrorKind::NoMatch))
    } else {
        match u8_less_than_33_spec(s.skip(1)) {
            Ok((k, v)) => Ok(((k + 1) as nat, v)),
            Err((o, kind)) => Err(((o + 1) as nat, kind)),
        }
    }
}

/// Parses a literal `/` followed by a prefix length at `pos`.
pub fn prefix(s: &[u8], pos: usize) -> (r: Result<(usize, u8), ParseError>)
    requires
        pos <= s@.len(),
    ensures
        reflects(r, prefix_spec(s@.skip(pos as int)), s@, pos as int),
{
    let ghost rem = s@.skip(pos as int);
    proof {
        if pos < s@.len() {
            assert(rem[0] == s@[pos as int]);
        }
    }
    if pos < s.len() && s[pos] == 47 {
        proof {
            lemma_skip_skip(s@, pos as int, 1);
        }
        match u8_less_than_33(s, pos + 1) {
            Ok((end, v)) => Ok((end, v)),
            Err(e) => Err(e),
        }
    } else {
        Err(ParseError { pos, kind: ErrorKind::NoMatch })
    }
}

/// Outcome of the one-octet shortened form: `o1/prefix`, the other three
/// octets implied as zero.
pub open spec fn net_prefix_short_1_spec(s: Seq<u8>) -> Result<(nat, NetPrefix), (nat, ErrorKind)> {
    match octet_spec(s) {
        Err(e) => Err(e),
        Ok((k1, o1)) => match prefix_spec(s.skip(k1 as int)) {
            Err((o, kind)) => Err(((k1 + o) as nat, kind)),
            Ok((k2, p)) => Ok(
                (((k1 + k2) as nat, NetPrefix {
                    address: Ipv4Addr { o1, o2: 0, o3: 0, o4: 0 },
                    prefix: p,
                })),
            ),
        },
    }
}

/// Parses the one-octet shortened form at `pos`.
pub fn net_prefix_short_1(s: &[u8], pos: usize) -> (r: Result<(usize, NetPrefix), ParseError>)
    requires
        pos <= s@.len(),
    ensures
        reflects(r, net_prefix_short_1_spec(s@.skip(pos as int)), s@, pos as int),
{
    let (p1, o1) = match octet(s, pos) {
        Ok(x) => x,
        Err(e) => return Err(e),
    };
    proof {
        lemma_skip_skip(s@, pos as int, p1 - pos);
    }
    match prefix(s, p1) {
        Ok((end, p)) => Ok(
            ((end, NetPrefix { address: Ipv4Addr { o1, o2: 0, o3: 0, o4: 0 }, prefix: p })),
        ),
        Err(e) => Err(e),
    }
}

/// Outcome of the two-octet shortened form: `o1.o2/prefix`, the other two
/// octets implied as zero.
pub open spec fn net_prefix_short_2_spec(s: Seq<u8>) -> Result<(nat, NetPrefix), (nat, ErrorKind)> {
    match octet_spec(s) {
        Err(e) => Err(e),
        Ok((k1, o1)) => match dot_and_octet_spec(s.skip(k1 as int)) {
            Err((o, kind)) => Err(((k1 + o) as nat, kind)),
            Ok((k2, o2)) => match prefix_spec(s.skip((k1 + k2) as int)) {
                Err((o, kind)) => Err(((k1 + k2 + o) as nat, kind)),
                Ok((k3, p)) => Ok(
                    (((k1 + k2 + k3) as nat, NetPrefix {
                        address: Ipv4Addr { o1, o2, o3: 0, o4: 0 },
                        prefix: p,
                    })),
                ),
            },
        },
    }
}

/// Parses the two-octet shortened form at `pos`.
pub fn net_prefix_short_2(s: &[u8], pos: usize) -> (r: Result<(usize, NetPrefix), ParseError>)
    requires
        pos <= s@.len(),
    ensures
        reflects(r, net_prefix_short_2_spec(s@.skip(pos as int)), s@, pos as int),
{
    let (p1, o1) = match octet(s, pos) {
        Ok(x) => x,
        Err(e) => return Err(e),
    };
    proof {
        lemma_skip_skip(s@, pos as int, p1 - pos);
    }
    let (p2, o2) = match dot_and_octet(s, p1) {
        Ok(x) => x,
        Err(e) => return Err(e),
    };
    proof {
        lemma_skip_skip(s@, pos as int, p2 - pos);
    }
    match prefix(s, p2) {
        Ok((end, p)) => Ok(
            ((end, NetPrefix { address: Ipv4Addr { o1, o2, o3: 0, o4: 0 }, prefix: p })),
        ),
        Err(e) => Err(e),
    }
}

/// Outcome of the three-octet shortened form: `o1.o2.o3/prefix`, the last
/// octet implied as zero.
pub open spec fn net_prefix_short_3_spec(s: Seq<u8>) -> Result<(nat, NetPrefix), (nat, ErrorKind)> {
    match octet_spec(s) {
        Err(e) => Err(e),
        Ok((k1, o1)) => match dot_and_octet_spec(s.skip(k1 as int)) {
            Err((o, kind)) => Err(((k1 + o) as nat, kind)),
            Ok((k2, o2)) => match dot_and_octet_spec(s.skip((k1 + k2) as int)) {
                Err((o, kind)) => Err(((k1 + k2 + o) as nat, kind)),
                Ok((k3, o3)) => match prefix_spec(s.skip((k1 + k2 + k3) as int)) {
                    Err((o, kind)) => Err(((k1 + k2 + k3 + o) as nat, kind)),
                    Ok((k4, p)) => Ok(
                        (((k1 + k2 + k3 + k4) as nat, NetPrefix {
                            address: Ipv4Addr { o1, o2, o3, o4: 0 },
                            prefix: p,
                        })),
                    ),
                },
            },
        },
    }
}

/// Parses the three-octet shortened form at `pos`.
pub fn net_prefix_short_3(s: &[u8], pos: usize) -> (r: Result<(usize, NetPrefix), ParseError>)
    requires
        pos <= s@.len(),
    ensures
        reflects(r, net_prefix_short_3_spec(s@.skip(pos as int)), s@, pos as int),
{
    let (p1, o1) = match octet(s, pos) {
        Ok(x) => x,
        Err(e) => return Err(e),
    };
    proof {
        lemma_skip_skip(s@, pos as int, p1 - pos);
    }
    let (p2, o2) = match dot_and_octet(s, p1) {
        Ok(x) => x,
        Err(e) => return Err(e),
    };
    proof {
        lemma_skip_skip(s@, pos as int, p2 - pos);
    }
    let (p3, o3) = match dot_and_octet(s, p2) {
        Ok(x) => x,
        Err(e) => return Err(e),
    };
    proof {
        lemma_skip_skip(s@, pos as int, p3 - pos);
    }
    match prefix(s, p3) {
        Ok((end, p)) => Ok(
            ((end, NetPrefix { address: Ipv4Addr { o1, o2, o3, o4: 0 }, prefix: p })),
        ),
        Err(e) => Err(e),
    }
}

/// Outcome of the full four-octet form: a dotted-quad address followed by
/// `/prefix`.
pub open spec fn net_prefix_no_short_spec(s: Seq<u8>) -> Result<(nat, NetPrefix), (nat, ErrorKind)> {
    match ipv4_spec(s) {
        Err(e) => Err(e),
        Ok((k1, address)) => match prefix_spec(s.skip(k1 as int)) {
            Err((o, kind)) => Err(((k1 + o) as nat, kind)),
            Ok((k2, p)) => Ok((((k1 + k2) as nat, NetPrefix { address, prefix: p }))),
        },
    }
}

/// Parses the full four-octet form at `pos`.
pub fn net_prefix_no_short(s: &[u8], pos: usize) -> (r: Result<(usize, NetPrefix), ParseError>)
    requires
        pos <= s@.len(),
    ensures
        reflects(r, net_prefix_no_short_spec(s@.skip(pos as int)), s@, pos as int),
{
    let (p1, address) = match ipv4(s, pos) {
        Ok(x) => x,
        Err(e) => return Err(e),
    };
    proof {
        lemma_skip_skip(s@, pos as int, p1 - pos);
    }
    match prefix(s, p1) {
        Ok((end, p)) => Ok(((end, NetPrefix { address, prefix: p }))),
        Err(e) => Err(e),
    }
}

/// Outcome of the masked-address grammar: the surface forms are attempted
/// in a fixed order — full four-octet form first, then the one-, two- and
/// three-octet shortened forms — and the first that matches wins. When all
/// fail, the failure is the full form's.
pub open spec fn net_prefix_spec(s: Seq<u8>) -> Result<(nat, NetPrefix), (nat, ErrorKind)> {
    if net_prefix_no_short_spec(s) is Ok {
        net_prefix_no_short_spec(s)
    } else if net_prefix_short_1_spec(s) is Ok {
        net_prefix_short_1_spec(s)
    } else if net_prefix_short_2_spec(s) is Ok {
        net_prefix_short_2_spec(s)
    } else if net_prefix_short_3_spec(s) is Ok {
        net_prefix_short_3_spec(s)
    } else {
        net_prefix_no_short_spec(s)
    }
}

/// Parses a masked/prefixed IPv4 address at `pos`, trying the full form
/// first and then the shortened forms.
pub fn net_prefix(s: &[u8], pos: usize) -> (r: Result<(usize, NetPrefix), ParseError>)
    requires
        pos <= s@.len(),
    ensures
        reflects(r, net_prefix_spec(s@.skip(pos as int)), s@, pos as int),
{
    let full = net_prefix_no_short(s, pos);
    if full.is_ok() {
        return full;
    }
    match net_prefix_short_1(s, pos) {
        Ok(ok) => return Ok(ok),
        Err(_) => (),
    }
    match net_prefix_short_2(s, pos) {
        Ok(ok) => return Ok(ok),
        Err(_) => (),
    }
    match net_prefix_short_3(s, pos) {
        Ok(ok) => return Ok(ok),
        Err(_) => (),
    }
    full
}

/// A parse is a function of the unconsumed remainder alone: cursors with
/// equal remainders parse equally, and an empty remainder fails cleanly.
pub proof fn lemma_net_prefix_parses_independently(s1: Seq<u8>, pos1: int, s2: Seq<u8>, pos2: int)
    requires
        0 <= pos1 <= s1.len(),
        0 <= pos2 <= s2.len(),
        s1.skip(pos1) == s2.skip(pos2),
    ensures
        net_prefix_spec(s1.skip(pos1)) == net_prefix_spec(s2.skip(pos2)),
        net_prefix_spec(Seq::<u8>::empty()) == Err::<(nat, NetPrefix), (nat, ErrorKind)>(
            ((0, ErrorKind::NoMatch)),
        ),
{
}

} // verus!
