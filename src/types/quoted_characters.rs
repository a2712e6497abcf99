//! A quoted string: `"`, a bounded number of quoted characters, `"`.
use vstd::prelude::*;
use super::{agrees, skip, spec_tag, starts_with, tag_byte, ErrorKind, Outcome, ParseError};
use super::quoted_character;
use crate::text::{lossy_utf8, string_from_utf8_lossy};

verus! {

/// Prepends bytes read earlier to the bytes of an outcome.
pub open spec fn prefixed(p: Seq<u8>, o: Outcome<Seq<u8>>) -> Outcome<Seq<u8>> {
    match o {
        Ok((rest, v)) => Ok((rest, p + v)),
        Err(e) => Err(e),
    }
}

/// Quoted characters after `count` have been read: as many as follow, up to
/// `max` in all; where fewer than `min` are found, the failure of the next.
pub open spec fn spec_chars(s: Seq<u8>, min: int, max: int, count: int) -> Outcome<Seq<u8>>
    decreases max - count,
{
    if count >= max {
        Ok((s, Seq::empty()))
    } else {
        match quoted_character::spec_parse(s) {
            Ok((rest, c)) => prefixed(seq![c], spec_chars(rest, min, max, count + 1)),
            Err(e) => if count < min {
                Err(e)
            } else {
                Ok((s, Seq::empty()))
            },
        }
    }
}

/// A quoted string of `min` to `max` characters, its bytes read as UTF-8
/// where they are, and lossily where they are not.
pub open spec fn spec_parse(s: Seq<u8>, min: int, max: int) -> Outcome<Seq<char>> {
    match spec_tag(s, seq![0x22u8]) {
        Err(e) => Err(e),
        Ok((r1, _)) => match spec_chars(r1, min, max, 0) {
            Err(e) => Err(e),
            Ok((r2, bytes)) => match spec_tag(r2, seq![0x22u8]) {
                Err(e) => Err(e),
                Ok((r3, _)) => Ok((r3, lossy_utf8(bytes))),
            },
        },
    }
}

/// Reads up to `max` quoted characters, failing where fewer than `min` are
/// found.
pub fn parse_chars(input: &[u8], min: usize, max: usize) -> (r: Result<(&[u8], Vec<u8>), ParseError>)
    ensures
        agrees(r, spec_chars(input@, min as int, max as int, 0)),
{
    let mut cur = input;
    let mut out: Vec<u8> = Vec::new();
    let mut count: usize = 0;
    while count < max
        invariant
            count <= max,
            spec_chars(input@, min as int, max as int, 0) == prefixed(
                out@,
                spec_chars(cur@, min as int, max as int, count as int),
            ),
        decreases max - count,
    {
        match quoted_character::parse(cur) {
            Ok((rest, c)) => {
                let ghost tail = spec_chars(rest@, min as int, max as int, count + 1);
                assert(prefixed(out@, prefixed(seq![c], tail)) == prefixed(out@.push(c), tail)) by {
                    if let Ok((r, v)) = tail {
                        assert(out@ + (seq![c] + v) =~= out@.push(c) + v);
                    }
                }
                out.push(c);
                cur = rest;
                count += 1;
            },
            Err(e) => {
                if count < min {
                    return Err(e);
                }
                assert(out@ + Seq::<u8>::empty() =~= out@);
                return Ok((cur, out));
            },
        }
    }
    assert(out@ + Seq::<u8>::empty() =~= out@);
    Ok((cur, out))
}

/// Reads a quoted string of `min` to `max` characters; a doubled `"` inside
/// stands for one `"`.
pub fn parse(input: &[u8], min: usize, max: usize) -> (r: Result<(&[u8], String), ParseError>)
    ensures
        agrees(r, spec_parse(input@, min as int, max as int)),
{
    let (r1, _) = tag_byte(input, 0x22)?;
    let (r2, bytes) = parse_chars(r1, min, max)?;
    let (r3, _) = tag_byte(r2, 0x22)?;
    Ok((r3, string_from_utf8_lossy(bytes.as_slice())))
}

/// Characters that a quoted string can hold: any but control bytes.
pub open spec fn quotable(v: Seq<u8>) -> bool {
    forall|i: int|
        0 <= i < v.len() ==> (quoted_character::is_plain(#[trigger] v[i]) || v[i] == 0x20 || v[i]
            == 0x09 || v[i] == 0x22)
}

/// How characters are written inside quotes: each `"` doubled.
pub open spec fn quoted_form(v: Seq<u8>) -> Seq<u8>
    decreases v.len(),
{
    if v.len() == 0 {
        Seq::empty()
    } else {
        (if v[0] == 0x22 {
            seq![0x22u8, 0x22u8]
        } else {
            seq![v[0]]
        }) + quoted_form(v.drop_first())
    }
}

proof fn lemma_quoted_form_starts(v: Seq<u8>)
    requires
        v.len() > 0,
    ensures
        quoted_form(v).len() >= 1,
        quoted_form(v)[0] == v[0],
        v[0] == 0x22 ==> quoted_form(v).len() >= 2 && quoted_form(v)[1] == 0x22,
{
    let head = if v[0] == 0x22 { seq![0x22u8, 0x22u8] } else { seq![v[0]] };
    assert(quoted_form(v) == head + quoted_form(v.drop_first()));
}

proof fn lemma_chars_run(v: Seq<u8>, tail: Seq<u8>, min: int, max: int, count: int)
    requires
        quotable(v),
        tail.len() >= 1,
        tail[0] == 0x22,
        tail.len() < 2 || tail[1] != 0x22,
        0 <= count <= max,
        min <= max,
    ensures
        count + v.len() <= max && count + v.len() >= min ==> spec_chars(
            quoted_form(v) + tail,
            min,
            max,
            count,
        ) == Ok::<(Seq<u8>, Seq<u8>), (Seq<u8>, ErrorKind)>((tail, v)),
        count + v.len() < min ==> spec_chars(quoted_form(v) + tail, min, max, count) == Err::<
            (Seq<u8>, Seq<u8>),
            (Seq<u8>, ErrorKind),
        >((tail, ErrorKind::TakeWhileMN)),
        count + v.len() > max ==> spec_chars(quoted_form(v) + tail, min, max, count) == Ok::<
            (Seq<u8>, Seq<u8>),
            (Seq<u8>, ErrorKind),
        >((quoted_form(v.subrange(max - count, v.len() as int)) + tail, v.subrange(0, max - count))),
    decreases v.len(),
{
    let s = quoted_form(v) + tail;
    if v.len() == 0 {
        assert(s =~= tail);
        assert(v =~= Seq::<u8>::empty());
        if count < max {
            assert(quoted_character::spec_parse(s) == Err::<(Seq<u8>, u8), (Seq<u8>, ErrorKind)>(
                (s, ErrorKind::TakeWhileMN),
            ));
        }
    } else if count == max {
        assert(v.subrange(0, 0) =~= Seq::<u8>::empty());
        assert(v.subrange(0, v.len() as int) =~= v);
    } else {
        let rest = v.drop_first();
        assert(quotable(rest)) by {
            assert forall|i: int| 0 <= i < rest.len() implies (quoted_character::is_plain(
                #[trigger] rest[i],
            ) || rest[i] == 0x20 || rest[i] == 0x09 || rest[i] == 0x22) by {
                assert(rest[i] == v[i + 1]);
            }
        }
        assert(quoted_character::is_plain(v[0]) || v[0] == 0x20 || v[0] == 0x09 || v[0] == 0x22);
        let head = if v[0] == 0x22 { seq![0x22u8, 0x22u8] } else { seq![v[0]] };
        assert(quoted_form(v) == head + quoted_form(rest));
        assert(s =~= head + (quoted_form(rest) + tail));
        assert(skip(s, head.len() as int) =~= quoted_form(rest) + tail);
        assert(quoted_character::spec_parse(s) == Ok::<(Seq<u8>, u8), (Seq<u8>, ErrorKind)>(
            (quoted_form(rest) + tail, v[0]),
        ));
        lemma_chars_run(rest, tail, min, max, count + 1);
        let inner = spec_chars(quoted_form(rest) + tail, min, max, count + 1);
        if count + v.len() > max {
            assert(rest.subrange(max - count - 1, rest.len() as int) =~= v.subrange(
                max - count,
                v.len() as int,
            ));
            assert(seq![v[0]] + rest.subrange(0, max - count - 1) =~= v.subrange(0, max - count));
        } else if count + v.len() >= min {
            assert(seq![v[0]] + rest =~= v);
        }
    }
}

/// A quoted string whose characters are written with each `"` doubled reads
/// as those characters exactly when it holds between `min` and `max` of them;
/// with fewer it fails, and with more it does not read through to the
/// closing quote. (The byte after the closing quote is not a second quote.)
pub proof fn lemma_length_bounds(v: Seq<u8>, rest: Seq<u8>, min: int, max: int)
    requires
        quotable(v),
        0 <= min <= max,
        rest.len() == 0 || rest[0] != 0x22,
    ensures
        min <= v.len() <= max ==> spec_parse(seq![0x22u8] + quoted_form(v) + seq![0x22u8] + rest, min, max)
            == Ok::<(Seq<u8>, Seq<char>), (Seq<u8>, ErrorKind)>((rest, lossy_utf8(v))),
        v.len() < min ==> spec_parse(seq![0x22u8] + quoted_form(v) + seq![0x22u8] + rest, min, max) is Err,
        v.len() > max ==> match spec_parse(seq![0x22u8] + quoted_form(v) + seq![0x22u8] + rest, min, max) {
            Ok((r, _)) => r.len() > rest.len() && r[0] == 0x22,
            Err(_) => true,
        },
{
    let q = seq![0x22u8];
    let s = q + quoted_form(v) + q + rest;
    let tail = q + rest;
    assert(starts_with(s, q)) by {
        assert(s.subrange(0, 1) =~= q);
    }
    assert(skip(s, 1) =~= quoted_form(v) + tail);
    assert(tail[0] == 0x22);
    lemma_chars_run(v, tail, min, max, 0);
    assert(starts_with(tail, q)) by {
        assert(tail.subrange(0, 1) =~= q);
    }
    assert(skip(tail, 1) =~= rest);
    if v.len() > max {
        let w = v.subrange(max, v.len() as int);
        lemma_quoted_form_starts(w);
        let r = quoted_form(w) + tail;
        assert(r[0] == v[max]);
        if v[max] != 0x22 {
            assert(!starts_with(r, q)) by {
                assert(r.subrange(0, 1)[0] == v[max]);
            }
        } else {
            assert(starts_with(r, q)) by {
                assert(r.subrange(0, 1) =~= q);
            }
            assert(skip(r, 1)[0] == 0x22);
        }
    }
}

} // verus!
