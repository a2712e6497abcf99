//! A quoted path of up to 259 characters.
use vstd::prelude::*;
use super::{agrees, Outcome, ParseError};
use super::quoted_characters;

verus! {

/// A path, as text.
pub type Path = String;

/// The most characters that a path holds.
pub const MAX_PATH: usize = 259;

/// A quoted string of up to 259 characters.
pub open spec fn spec_parse(s: Seq<u8>) -> Outcome<Seq<char>> {
    quoted_characters::spec_parse(s, 0, MAX_PATH as int)
}

/// Reads a quoted path.
pub fn parse(input: &[u8]) -> (r: Result<(&[u8], Path), ParseError>)
    ensures
        agrees(r, spec_parse(input@)),
{
    quoted_characters::parse(input, 0, MAX_PATH)
}

} // verus!
