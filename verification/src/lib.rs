//! Composable parsers for the primitive literal values of a small
//! configuration/rule language: booleans, unsigned 32-bit integers,
//! percentages, IPv4 addresses with CIDR-style prefixes, and durations.
//!
//! Every parser is a pure function of a cursor — an input slice together
//! with a byte position — and returns either the position just past the
//! consumed text plus a typed value, or a typed failure located at the
//! offending position.
use vstd::prelude::*;

pub mod boolean;
pub mod duration;
pub mod error;
pub mod integer;
pub mod ipv4;
pub mod net_prefix;
pub mod percentage;
pub mod scan;

pub use crate::boolean::{boolean, boolean_false, boolean_true};
pub use crate::integer::integer;

verus! {

/// Placeholder for the top-level block grammar of the surrounding rule
/// language, which is out of this library's scope.
pub struct Block {
    _name: String,
}

/// Placeholder block parser: consumes nothing and always succeeds.
pub fn block(s: &[u8], pos: usize) -> (r: Result<(usize, Block), crate::error::ParseError>)
    requires
        pos <= s@.len(),
    ensures
        r matches Ok((end, _)) && end == pos,
{
    Ok((pos, Block { _name: String::from_str("Hola mundo") }))
}

} // verus!
