//! The name of a module: a letter, then up to 30 letters, digits or `_`.
use vstd::prelude::*;
use super::{agrees, skip, ErrorKind, Outcome, ParseError};
use crate::text::{all_ascii, ascii_chars, lemma_ascii_utf8, string_from_utf8};
use vstd::slice::slice_to_vec;

verus! {

/// A module name, as text.
pub type ModuleIdentifier = String;

/// The most bytes after the first.
pub const MAX_TAIL: usize = 30;

/// An ASCII letter.
pub open spec fn is_alpha(b: u8) -> bool {
    (0x41 <= b <= 0x5a) || (0x61 <= b <= 0x7a)
}

/// An ASCII letter or digit, or `_`.
pub open spec fn is_word(b: u8) -> bool {
    is_alpha(b) || (0x30 <= b <= 0x39) || b == 0x5f
}

/// How many of the bytes from `start` on, at most `max`, are word bytes in a
/// row.
pub open spec fn word_run(s: Seq<u8>, start: int, max: int) -> int
    decreases max,
{
    if max <= 0 || start < 0 || start >= s.len() || !is_word(s[start]) {
        0
    } else {
        1 + word_run(s, start + 1, max - 1)
    }
}

/// A letter, then as many word bytes as follow, up to 30.
pub open spec fn spec_parse(s: Seq<u8>) -> Outcome<Seq<char>> {
    if s.len() >= 1 && is_alpha(s[0]) {
        let n = 1 + word_run(s, 1, MAX_TAIL as int);
        Ok((skip(s, n), ascii_chars(s.subrange(0, n))))
    } else {
        Err((s, ErrorKind::TakeWhileMN))
    }
}

/// A module name is read from the bytes at hand: the rest is no longer than
/// the input.
pub proof fn lemma_consumes(s: Seq<u8>)
    ensures
        spec_parse(s) matches Ok((r, _)) ==> r.len() < s.len(),
{
    if s.len() >= 1 {
        lemma_word_run_bound(s, 1, MAX_TAIL as int);
    }
}

proof fn lemma_word_run_bound(s: Seq<u8>, start: int, max: int)
    requires
        0 <= start <= s.len(),
    ensures
        0 <= word_run(s, start, max) <= s.len() - start,
    decreases max,
{
    if !(max <= 0 || start >= s.len() || !is_word(s[start])) {
        lemma_word_run_bound(s, start + 1, max - 1);
    }
}

fn is_word_byte(b: u8) -> (r: bool)
    ensures
        r == is_word(b),
{
    (0x41 <= b && b <= 0x5a) || (0x61 <= b && b <= 0x7a) || (0x30 <= b && b <= 0x39) || b == 0x5f
}

proof fn lemma_word_run_step(s: Seq<u8>, start: int, max: int, k: int)
    requires
        0 <= k < max,
        1 <= start,
        start + k <= s.len(),
        forall|j: int| start <= j < start + k ==> is_word(#[trigger] s[j]),
    ensures
        word_run(s, start, max) == k + word_run(s, start + k, max - k),
    decreases k,
{
    if k > 0 {
        assert(is_word(s[start]));
        lemma_word_run_step(s, start + 1, max - 1, k - 1);
    }
}

/// Reads a module name.
pub fn parse(input: &[u8]) -> (r: Result<(&[u8], ModuleIdentifier), ParseError>)
    ensures
        agrees(r, spec_parse(input@)),
{
    let ghost s = input@;
    if !(input.len() >= 1 && ((0x41 <= input[0] && input[0] <= 0x5a) || (0x61 <= input[0] && input[0]
        <= 0x7a))) {
        return Err(ParseError::new(input, ErrorKind::TakeWhileMN));
    }
    let mut n: usize = 1;
    while n < input.len() && n <= MAX_TAIL && is_word_byte(input[n])
        invariant
            1 <= n <= input@.len(),
            n <= MAX_TAIL + 1,
            forall|j: int| 1 <= j < n ==> is_word(#[trigger] input@[j]),
        decreases input@.len() - n,
    {
        n += 1;
    }
    proof {
        let k = (n - 1) as int;
        if k < MAX_TAIL as int {
            lemma_word_run_step(s, 1, MAX_TAIL as int, k);
            assert(word_run(s, 1 + k, MAX_TAIL - k) == 0);
        } else {
            lemma_word_run_step(s, 1, MAX_TAIL as int, k - 1);
            assert(word_run(s, k, 1) == 1 + word_run(s, k + 1, 0));
        }
    }
    let (head, rest) = input.split_at(n);
    let ghost bytes = head@;
    assert forall|j: int| 0 <= j < bytes.len() implies #[trigger] bytes[j] < 0x80 by {
        assert(is_word(s[j]) || is_alpha(s[j]));
    }
    assert(all_ascii(bytes));
    proof {
        lemma_ascii_utf8(bytes);
    }
    match string_from_utf8(slice_to_vec(head)) {
        Some(name) => Ok((rest, name)),
        None => Err(ParseError::new(input, ErrorKind::MapRes)),
    }
}

} // verus!
