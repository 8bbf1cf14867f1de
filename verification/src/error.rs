use vstd::prelude::*;

verus! {

/// Why a parse failed.
#[derive(Clone, Copy, Debug, PartialEq, Eq, Structural)]
pub enum ErrorKind {
    /// The input does not begin with any token of the expected grammar.
    NoMatch,
    /// Digits are present but their numeric value exceeds the type's maximum.
    RangeOverflow,
    /// A well-formed number exceeds a literal's semantic ceiling.
    TooLarge,
    /// A composite literal matched none of its components.
    IncompleteComposite,
}

/// A parse failure, located at the byte offset in the input where the
/// mismatch or range violation occurred.
#[derive(Clone, Copy, Debug, PartialEq, Eq, Structural)]
pub struct ParseError {
    pub pos: usize,
    pub kind: ErrorKind,
}

/// Relates the result `r` of running a parser on the cursor `(s, pos)` to the
/// outcome `o` of that parser's grammar on the unconsumed remainder
/// `s.skip(pos)`: on success, `r` carries the absolute end position of the
/// consumed text and the parsed value; on failure, the absolute position of
/// the offending byte and the failure kind.
pub open spec fn reflects<V>(
    r: Result<(usize, V), ParseError>,
    o: Result<(nat, V), (nat, ErrorKind)>,
    s: Seq<u8>,
    pos: int,
) -> bool {
    match r {
        Ok((end, v)) => pos <= end <= s.len() && o == Ok::<(nat, V), (nat, ErrorKind)>(
            (((end - pos) as nat, v)),
        ),
        Err(e) => e.pos >= pos && o == Err::<(nat, V), (nat, ErrorKind)>(
            (((e.pos - pos) as nat, e.kind)),
        ),
    }
}

} // verus!
