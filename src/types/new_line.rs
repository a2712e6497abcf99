//! A line break: CR LF, or LF CR.
use vstd::prelude::*;
use super::{agrees, skip, ErrorKind, Outcome, ParseError, rest_after};

verus! {

/// The value that a line break reads as.
pub type NwLn = u8;

/// A line break: `\r\n` or `\n\r`, read as `\n`.
pub open spec fn spec_parse(s: Seq<u8>) -> Outcome<u8> {
    if s.len() >= 2 && ((s[0] == 0x0d && s[1] == 0x0a) || (s[0] == 0x0a && s[1] == 0x0d)) {
        Ok((skip(s, 2), 0x0au8))
    } else {
        Err((s, ErrorKind::Tag))
    }
}

/// Reads a line break.
pub fn parse(input: &[u8]) -> (r: Result<(&[u8], NwLn), ParseError>)
    ensures
        agrees(r, spec_parse(input@)),
{
    if input.len() >= 2 && ((input[0] == 0x0d && input[1] == 0x0a) || (input[0] == 0x0a
        && input[1] == 0x0d)) {
        Ok((rest_after(input, 2), 0x0a))
    } else {
        Err(ParseError::new(input, ErrorKind::Tag))
    }
}

} // verus!
