//! One space or tab.
use vstd::prelude::*;
use super::{agrees, skip, ErrorKind, Outcome, ParseError, rest_after};

verus! {

/// The whitespace byte read.
pub type Whitespace = u8;

/// A space or a tab.
pub open spec fn spec_parse(s: Seq<u8>) -> Outcome<u8> {
    if s.len() >= 1 && (s[0] == 0x20 || s[0] == 0x09) {
        Ok((skip(s, 1), s[0]))
    } else {
        Err((s, ErrorKind::Tag))
    }
}

/// Reads a space or a tab.
pub fn parse(input: &[u8]) -> (r: Result<(&[u8], Whitespace), ParseError>)
    ensures
        agrees(r, spec_parse(input@)),
{
    if input.len() >= 1 && (input[0] == 0x20 || input[0] == 0x09) {
        Ok((rest_after(input, 1), input[0]))
    } else {
        Err(ParseError::new(input, ErrorKind::Tag))
    }
}

} // verus!
