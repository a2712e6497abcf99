//! `&H` and eight hex digits: a signed 32-bit number in two's complement.
use vstd::prelude::*;
use vstd::string::StringSliceAdditionalSpecFns;
use super::{agrees, hex_group, spec_hex_group, spec_tag, tag, Outcome, ParseError};

verus! {

/// The number read.
pub type HexInt32 = i32;

/// `&H` and eight hex digits, their bits read as a signed number.
pub open spec fn spec_parse(s: Seq<u8>) -> Outcome<i32> {
    match spec_tag(s, "&H".spec_bytes()) {
        Err(e) => Err(e),
        Ok((r1, _)) => match spec_hex_group(r1, 8) {
            Err(e) => Err(e),
            Ok((r2, v)) => Ok((r2, v as u32 as i32)),
        },
    }
}

/// Reads `&H` and eight hex digits.
pub fn parse(input: &[u8]) -> (r: Result<(&[u8], HexInt32), ParseError>)
    ensures
        agrees(r, spec_parse(input@)),
{
    let (r1, _) = tag(input, "&H".as_bytes())?;
    let (r2, v) = hex_group(r1, 8)?;
    Ok((r2, v as u32 as i32))
}

} // verus!
