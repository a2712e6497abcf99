//! Hex text to bytes and back.
use vstd::prelude::*;
use crate::error::InvalidHex;
use vstd::string::StringSliceAdditionalSpecFns;
use crate::text::{all_ascii, ascii_chars, lemma_ascii_utf8, string_from_utf8};
use vstd::utf8::encode_utf8;

verus! {

/// An ASCII hex digit, of either case.
pub open spec fn is_hex_digit(b: u8) -> bool {
    (0x30 <= b <= 0x39) || (0x41 <= b <= 0x46) || (0x61 <= b <= 0x66)
}

/// The value of an ASCII hex digit.
pub open spec fn hex_value(b: u8) -> u8 {
    if 0x30 <= b <= 0x39 {
        (b - 0x30) as u8
    } else if 0x41 <= b <= 0x46 {
        (b - 0x41 + 10) as u8
    } else {
        (b - 0x61 + 10) as u8
    }
}

/// The byte that two hex digits spell, the high nibble first.
pub open spec fn hex_pair_value(hi: u8, lo: u8) -> u8 {
    (hex_value(hi) * 16 + hex_value(lo)) as u8
}

/// The bytes that hex text spells, pair by pair; a trailing lone digit is dropped.
pub open spec fn hex_decode(text: Seq<u8>) -> Seq<u8> {
    Seq::new(text.len() / 2, |i: int| hex_pair_value(text[2 * i], text[2 * i + 1]))
}

/// Every byte is a hex digit.
pub open spec fn all_hex(s: Seq<u8>) -> bool {
    forall|i: int| 0 <= i < s.len() ==> #[trigger] is_hex_digit(s[i])
}

/// The number that hex digits spell, the most significant first.
pub open spec fn hex_number(s: Seq<u8>) -> nat
    decreases s.len(),
{
    if s.len() == 0 {
        0
    } else {
        hex_number(s.drop_last()) * 16 + hex_value(s.last()) as nat
    }
}

/// Sixteen to the power `n`.
pub open spec fn pow16(n: nat) -> nat
    decreases n,
{
    if n == 0 {
        1
    } else {
        16 * pow16((n - 1) as nat)
    }
}

/// The ASCII digit of a nibble, with `A`..`F` or `a`..`f` above nine.
pub open spec fn hex_digit(n: u8, upper: bool) -> u8 {
    if n < 10 {
        (0x30 + n) as u8
    } else if upper {
        (0x41 + n - 10) as u8
    } else {
        (0x61 + n - 10) as u8
    }
}

/// Two hex digits per byte, the high nibble first, no separators.
pub open spec fn hex_encode(bytes: Seq<u8>, upper: bool) -> Seq<u8> {
    Seq::new(
        2 * bytes.len(),
        |k: int|
            if k % 2 == 0 {
                hex_digit(bytes[k / 2] / 16, upper)
            } else {
                hex_digit(bytes[k / 2] % 16, upper)
            },
    )
}

/// Reading hex text undoes spelling bytes as hex, in either case; so
/// `Data::from_str` of the text that `Data::to_hex` gives is the data again.
pub proof fn lemma_hex_round_trip(bytes: Seq<u8>, upper: bool)
    ensures
        forall|i: int|
            0 <= i < hex_encode(bytes, upper).len() ==> is_hex_digit(
                #[trigger] hex_encode(bytes, upper)[i],
            ),
        hex_decode(hex_encode(bytes, upper)) == bytes,
        encode_utf8(ascii_chars(hex_encode(bytes, upper))) == hex_encode(bytes, upper),
{
    let t = hex_encode(bytes, upper);
    assert forall|i: int| 0 <= i < t.len() implies is_hex_digit(#[trigger] t[i]) by {
        let b = bytes[i / 2];
        assert(b / 16 < 16 && b % 16 < 16);
    }
    assert forall|i: int| 0 <= i < bytes.len() implies #[trigger] hex_decode(t)[i] == bytes[i] by {
        let b = bytes[i];
        assert((2 * i) / 2 == i && (2 * i + 1) / 2 == i);
        assert((2 * i) % 2 == 0 && (2 * i + 1) % 2 == 1);
        assert(t[2 * i] == hex_digit(b / 16, upper));
        assert(t[2 * i + 1] == hex_digit(b % 16, upper));
        assert(hex_value(hex_digit(b / 16, upper)) == b / 16);
        assert(hex_value(hex_digit(b % 16, upper)) == b % 16);
    }
    assert(hex_decode(t) =~= bytes);
    assert(all_ascii(t));
    lemma_ascii_utf8(t);
    vstd::utf8::decode_utf8_encode_utf8(t);
}

/// Whether a byte is an ASCII hex digit.
pub fn is_hex(b: u8) -> (r: bool)
    ensures
        r == is_hex_digit(b),
{
    (0x30 <= b && b <= 0x39) || (0x41 <= b && b <= 0x46) || (0x61 <= b && b <= 0x66)
}

/// The value of one ASCII hex digit.
pub fn hex_digit_value(b: u8) -> (r: u8)
    requires
        is_hex_digit(b),
    ensures
        r == hex_value(b),
        r < 16,
{
    if b <= 0x39 {
        b - 0x30
    } else if b <= 0x46 {
        b - 0x41 + 10
    } else {
        b - 0x61 + 10
    }
}

/// The byte that the first two hex digits of `input` spell.
pub fn hex_from_u8_slice(input: &[u8]) -> (r: u8)
    requires
        input@.len() >= 2,
        is_hex_digit(input@[0]),
        is_hex_digit(input@[1]),
    ensures
        r == hex_pair_value(input@[0], input@[1]),
{
    let upper = hex_digit_value(input[0]);
    let lower = hex_digit_value(input[1]);
    upper * 16 + lower
}

/// Spells bytes as hex text, upper or lower case.
pub fn hex_string(bytes: &[u8], upper: bool) -> (r: String)
    requires
        bytes@.len() <= usize::MAX / 2,
    ensures
        r@ == ascii_chars(hex_encode(bytes@, upper)),
{
    let mut out: Vec<u8> = Vec::new();
    let mut i: usize = 0;
    while i < bytes.len()
        invariant
            i <= bytes@.len() <= usize::MAX / 2,
            out@.len() == 2 * i,
            forall|k: int| 0 <= k < 2 * i ==> out@[k] == #[trigger] hex_encode(bytes@, upper)[k],
        decreases bytes@.len() - i,
    {
        let b = bytes[i];
        out.push(nibble_digit(b / 16, upper));
        out.push(nibble_digit(b % 16, upper));
        i += 1;
    }
    let ghost text = hex_encode(bytes@, upper);
    assert(out@ =~= text);
    assert(all_ascii(text));
    proof {
        lemma_ascii_utf8(text);
    }
    match string_from_utf8(out) {
        Some(s) => s,
        None => String::new(),
    }
}

fn nibble_digit(n: u8, upper: bool) -> (r: u8)
    requires
        n < 16,
    ensures
        r == hex_digit(n, upper),
{
    if n < 10 {
        0x30 + n
    } else if upper {
        0x41 + n - 10
    } else {
        0x61 + n - 10
    }
}

/// An owned buffer of bytes that converts to and from hex text.
#[derive(Debug, PartialEq, Eq)]
pub struct Data(pub Vec<u8>);

impl View for Data {
    type V = Seq<u8>;

    open spec fn view(&self) -> Seq<u8> {
        self.0@
    }
}

impl Data {
    /// Reads hex text; fails, holding the text, on any character that is not
    /// an ASCII hex digit. A trailing lone digit is dropped.
    pub fn from_hex(s: &str) -> (r: Result<Data, InvalidHex>)
        ensures
            (forall|i: int| 0 <= i < s.spec_bytes().len() ==> is_hex_digit(#[trigger] s.spec_bytes()[i]))
                <==> r.is_ok(),
            r matches Ok(d) ==> d@ == hex_decode(s.spec_bytes()),
            r matches Err(e) ==> e.0@ == s@,
    {
        let text = s.as_bytes();
        let mut i: usize = 0;
        while i < text.len()
            invariant
                i <= text@.len(),
                text@ == s.spec_bytes(),
                forall|k: int| 0 <= k < i ==> is_hex_digit(#[trigger] text@[k]),
            decreases text@.len() - i,
        {
            if !is_hex(text[i]) {
                return Err(InvalidHex(s.to_owned()));
            }
            i += 1;
        }
        let mut data: Vec<u8> = Vec::new();
        let mut j: usize = 0;
        while j < text.len() / 2
            invariant
                j <= text@.len() / 2,
                text@ == s.spec_bytes(),
                forall|k: int| 0 <= k < text@.len() ==> is_hex_digit(#[trigger] text@[k]),
                data@ =~= hex_decode(text@).subrange(0, j as int),
            decreases text@.len() / 2 - j,
        {
            let hi = hex_digit_value(text[2 * j]);
            let lo = hex_digit_value(text[2 * j + 1]);
            data.push(hi * 16 + lo);
            j += 1;
            assert(data@ =~= hex_decode(text@).subrange(0, j as int));
        }
        Ok(Data(data))
    }

    /// Two upper case hex digits per byte.
    pub fn to_hex(&self) -> (r: String)
        requires
            self@.len() <= usize::MAX / 2,
        ensures
            r@ == ascii_chars(hex_encode(self@, true)),
    {
        hex_string(self.0.as_slice(), true)
    }

    /// The bytes held.
    pub fn as_slice(&self) -> (r: &[u8])
        ensures
            r@ == self@,
    {
        self.0.as_slice()
    }

    /// Gives the bytes up.
    pub fn into_inner(self) -> (r: Vec<u8>)
        ensures
            r@ == self@,
    {
        self.0
    }
}

impl core::str::FromStr for Data {
    type Err = InvalidHex;

    /// Reads hex text, as [`Data::from_hex`] does.
    fn from_str(s: &str) -> (r: Result<Data, InvalidHex>)
        ensures
            (forall|i: int| 0 <= i < s.spec_bytes().len() ==> is_hex_digit(#[trigger] s.spec_bytes()[i]))
                <==> r.is_ok(),
            r matches Ok(d) ==> d@ == hex_decode(s.spec_bytes()),
            r matches Err(e) ==> e.0@ == s@,
    {
        Data::from_hex(s)
    }
}

impl From<Vec<u8>> for Data {
    fn from(value: Vec<u8>) -> (r: Data) {
        Data(value)
    }
}

impl vstd::std_specs::convert::FromSpecImpl<Vec<u8>> for Data {
    open spec fn obeys_from_spec() -> bool {
        true
    }

    open spec fn from_spec(v: Vec<u8>) -> Data {
        Data(v)
    }
}

} // verus!
