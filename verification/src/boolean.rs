use vstd::prelude::*;

use crate::error::{reflects, ErrorKind, ParseError};

verus! {

/// The input begins with the given bytes.
pub open spec fn has_prefix(s: Seq<u8>, t: Seq<u8>) -> bool {
    t.len() <= s.len() && forall|j: int| 0 <= j < t.len() ==> s[j] == t[j]
}

/// The truthy spellings, in the order they are attempted.
pub open spec fn tag_true() -> Seq<u8> {
    seq![116u8, 114u8, 117u8, 101u8]
}

pub open spec fn tag_one() -> Seq<u8> {
    seq![49u8]
}

pub open spec fn tag_yes() -> Seq<u8> {
    seq![121u8, 101u8, 115u8]
}

/// The falsy spellings, in the order they are attempted.
pub open spec fn tag_false() -> Seq<u8> {
    seq![102u8, 97u8, 108u8, 115u8, 101u8]
}

pub open spec fn tag_zero() -> Seq<u8> {
    seq![48u8]
}

pub open spec fn tag_no() -> Seq<u8> {
    seq![110u8, 111u8]
}

/// Does the input at `pos` begin with the bytes of `t`?
fn starts_with(s: &[u8], pos: usize, t: &[u8]) -> (r: bool)
    requires
        pos <= s@.len(),
    ensures
        r == has_prefix(s@.skip(pos as int), t@),
{
    let m = t.len();
    if s.len() - pos < m {
        return false;
    }
    let mut j: usize = 0;
    while j < m
        invariant
            pos <= s@.len(),
            s@.len() <= usize::MAX,
            j <= m,
            m == t@.len(),
            m <= s@.len() - pos,
            forall|i: int| 0 <= i < j ==> s@.skip(pos as int)[i] == t@[i],
        decreases m - j,
    {
        proof {
            assert(s@.skip(pos as int)[j as int] == s@[pos + j]);
        }
        if s[pos + j] != t[j] {
            return false;
        }
        j = j + 1;
    }
    true
}

/// Outcome of the truthy-boolean grammar on a remaining input: the spellings
/// `true`, `1`, `yes` are attempted in that order; the first that is a prefix
/// of the input wins and is consumed.
pub open spec fn boolean_true_spec(s: Seq<u8>) -> Result<(nat, bool), (nat, ErrorKind)> {
    if has_prefix(s, tag_true()) {
        Ok((4, true))
    } else if has_prefix(s, tag_one()) {
        Ok((1, true))
    } else if has_prefix(s, tag_yes()) {
        Ok((3, true))
    } else {
        Err((0, ErrorKind::NoMatch))
    }
}

/// Outcome of the falsy-boolean grammar: the spellings `false`, `0`, `no`
/// are attempted in that order.
pub open spec fn boolean_false_spec(s: Seq<u8>) -> Result<(nat, bool), (nat, ErrorKind)> {
    if has_prefix(s, tag_false()) {
        Ok((5, false))
    } else if has_prefix(s, tag_zero()) {
        Ok((1, false))
    } else if has_prefix(s, tag_no()) {
        Ok((2, false))
    } else {
        Err((0, ErrorKind::NoMatch))
    }
}

/// Outcome of the boolean grammar: the truthy set is attempted first, then
/// the falsy set; failure means no spelling of either set matched.
pub open spec fn boolean_spec(s: Seq<u8>) -> Result<(nat, bool), (nat, ErrorKind)> {
    if boolean_true_spec(s) is Ok {
        boolean_true_spec(s)
    } else {
        boolean_false_spec(s)
    }
}

/// Recognises a truthy boolean literal (`true`, `1`, or `yes`) at `pos`.
pub fn boolean_true(s: &[u8], pos: usize) -> (r: Result<(usize, bool), ParseError>)
    requires
        pos <= s@.len(),
    ensures
        reflects(r, boolean_true_spec(s@.skip(pos as int)), s@, pos as int),
{
    let t_true: [u8; 4] = [116u8, 114u8, 117u8, 101u8];
    let t_one: [u8; 1] = [49u8];
    let t_yes: [u8; 3] = [121u8, 101u8, 115u8];
    proof {
        assert(t_true@ =~= tag_true());
        assert(t_one@ =~= tag_one());
        assert(t_yes@ =~= tag_yes());
        assert(vstd::slice::spec_slice_len(s) == s@.len());
        assert(s@.skip(pos as int).len() == s@.len() - pos);
    }
    if starts_with(s, pos, t_true.as_slice()) {
        Ok((pos + 4, true))
    } else if starts_with(s, pos, t_one.as_slice()) {
        Ok((pos + 1, true))
    } else if starts_with(s, pos, t_yes.as_slice()) {
        Ok((pos + 3, true))
    } else {
        Err(ParseError { pos, kind: ErrorKind::NoMatch })
    }
}

/// Recognises a falsy boolean literal (`false`, `0`, or `no`) at `pos`.
pub fn boolean_false(s: &[u8], pos: usize) -> (r: Result<(usize, bool), ParseError>)
    requires
        pos <= s@.len(),
    ensures
        reflects(r, boolean_false_spec(s@.skip(pos as int)), s@, pos as int),
{
    let t_false: [u8; 5] = [102u8, 97u8, 108u8, 115u8, 101u8];
    let t_zero: [u8; 1] = [48u8];
    let t_no: [u8; 2] = [110u8, 111u8];
    proof {
        assert(t_false@ =~= tag_false());
        assert(t_zero@ =~= tag_zero());
        assert(t_no@ =~= tag_no());
        assert(vstd::slice::spec_slice_len(s) == s@.len());
        assert(s@.skip(pos as int).len() == s@.len() - pos);
    }
    if starts_with(s, pos, t_false.as_slice()) {
        Ok((pos + 5, false))
    } else if starts_with(s, pos, t_zero.as_slice()) {
        Ok((pos + 1, false))
    } else if starts_with(s, pos, t_no.as_slice()) {
        Ok((pos + 2, false))
    } else {
        Err(ParseError { pos, kind: ErrorKind::NoMatch })
    }
}

/// Recognises a boolean literal at `pos`: first the truthy spellings
/// (`true`, `1`, `yes`), then the falsy ones (`false`, `0`, `no`).
pub fn boolean(s: &[u8], pos: usize) -> (r: Result<(usize, bool), ParseError>)
    requires
        pos <= s@.len(),
    ensures
        reflects(r, boolean_spec(s@.skip(pos as int)), s@, pos as int),
{
    match boolean_true(s, pos) {
        Ok(ok) => Ok(ok),
        Err(_) => boolean_false(s, pos),
    }
}

/// A parse is a function of the unconsumed remainder alone: cursors with
/// equal remainders parse equally, and an empty remainder fails cleanly.
pub proof fn lemma_boolean_parses_independently(s1: Seq<u8>, pos1: int, s2: Seq<u8>, pos2: int)
    requires
        0 <= pos1 <= s1.len(),
        0 <= pos2 <= s2.len(),
        s1.skip(pos1) == s2.skip(pos2),
    ensures
        boolean_spec(s1.skip(pos1)) == boolean_spec(s2.skip(pos2)),
        boolean_spec(Seq::<u8>::empty()) == Err::<(nat, bool), (nat, ErrorKind)>(
            ((0, ErrorKind::NoMatch)),
        ),
{
}

} // verus!
