//! Removing the protection from a PROJECT stream.
//!
//! The stream is not parsed and written back. Instead, each line whose start
//! names the project id or one of the protected fields is replaced whole by
//! a fixed line, known to decode to an unprotected project; every other line
//! is copied as it is, line break included.
use vstd::prelude::*;
use vstd::string::StringSliceAdditionalSpecFns;
use crate::types::starts_with;

verus! {

/// The project id written in place of the one found.
pub const UNLOCKED_ID: &'static str = "ID=\"{3C6F1B8B-BDBE-4F1B-AA02-BCA23D695691}\"\r\n";

/// A protection state with nothing protected.
pub const UNLOCKED_CMG: &'static str = "CMG=\"1E1C02263E5A585E585E585E585E\"\r\n";

/// No password.
pub const UNLOCKED_DPB: &'static str = "DPB=\"3C3E2044206321632163\"\r\n";

/// A visible project.
pub const UNLOCKED_GC: &'static str = "GC=\"5A58466A656B656B9A\"\r\n";

/// The length of the first line from `i` on: through its `\n`, or to the end.
pub open spec fn line_end(s: Seq<u8>, i: int) -> int
    decreases s.len() - i,
{
    if i >= s.len() {
        s.len() as int
    } else if s[i] == 0x0a {
        i + 1
    } else {
        line_end(s, i + 1)
    }
}

/// What a line becomes: lines that start with `ID="{`, `CMG="`, `DPB="` or
/// `GC="` and one more byte give way to the fixed lines.
pub open spec fn rewritten_line(line: Seq<u8>) -> Seq<u8> {
    if starts_with(line, "ID=\"{".spec_bytes()) {
        UNLOCKED_ID.spec_bytes()
    } else if starts_with(line, "CMG=\"".spec_bytes()) {
        UNLOCKED_CMG.spec_bytes()
    } else if starts_with(line, "DPB=\"".spec_bytes()) {
        UNLOCKED_DPB.spec_bytes()
    } else if line.len() >= 5 && starts_with(line, "GC=\"".spec_bytes()) {
        UNLOCKED_GC.spec_bytes()
    } else {
        line
    }
}

/// The stream with each line rewritten.
pub open spec fn rewritten(s: Seq<u8>) -> Seq<u8>
    decreases s.len(),
{
    if s.len() == 0 {
        Seq::empty()
    } else {
        let k = line_end(s, 0);
        if 0 < k <= s.len() {
            rewritten_line(s.subrange(0, k)) + rewritten(s.subrange(k, s.len() as int))
        } else {
            Seq::empty()
        }
    }
}

proof fn lemma_line_end(s: Seq<u8>, i: int)
    requires
        0 <= i <= s.len(),
    ensures
        i <= line_end(s, i) <= s.len(),
        i < s.len() ==> i < line_end(s, i),
    decreases s.len() - i,
{
    if i < s.len() && s[i] != 0x0a {
        lemma_line_end(s, i + 1);
    }
}

fn has_prefix(line: &[u8], p: &[u8]) -> (r: bool)
    ensures
        r == starts_with(line@, p@),
{
    if line.len() < p.len() {
        return false;
    }
    let mut i: usize = 0;
    while i < p.len()
        invariant
            i <= p@.len() <= line@.len(),
            forall|j: int| 0 <= j < i ==> line@[j] == #[trigger] p@[j],
        decreases p@.len() - i,
    {
        if line[i] != p[i] {
            assert(line@.subrange(0, p@.len() as int)[i as int] != p@[i as int]);
            return false;
        }
        i += 1;
    }
    assert(line@.subrange(0, p@.len() as int) =~= p@);
    true
}

fn append_bytes(out: &mut Vec<u8>, b: &[u8])
    ensures
        final(out)@ == old(out)@ + b@,
{
    let mut i: usize = 0;
    while i < b.len()
        invariant
            i <= b@.len(),
            out@ == old(out)@ + b@.subrange(0, i as int),
        decreases b@.len() - i,
    {
        out.push(b[i]);
        i += 1;
        assert(out@ =~= old(out)@ + b@.subrange(0, i as int));
    }
    assert(b@.subrange(0, b@.len() as int) =~= b@);
}

/// The stream with its id and protected fields replaced by the fixed lines.
pub fn unlocked_project(input: &[u8]) -> (r: Vec<u8>)
    ensures
        r@ == rewritten(input@),
{
    let mut out: Vec<u8> = Vec::new();
    let mut pos: usize = 0;
    assert(input@.subrange(0, input@.len() as int) =~= input@);
    while pos < input.len()
        invariant
            pos <= input@.len(),
            out@ + rewritten(input@.subrange(pos as int, input@.len() as int)) == rewritten(input@),
        decreases input@.len() - pos,
    {
        let ghost rest = input@.subrange(pos as int, input@.len() as int);
        let mut end: usize = pos;
        while end < input.len() && input[end] != 0x0a
            invariant
                pos <= end <= input@.len(),
                rest == input@.subrange(pos as int, input@.len() as int),
                line_end(rest, 0) == line_end(rest, end - pos),
            decreases input@.len() - end,
        {
            end += 1;
        }
        if end < input.len() {
            end += 1;
        }
        proof {
            lemma_line_end(rest, 0);
        }
        assert(line_end(rest, 0) == end - pos);
        let (before, _) = input.split_at(end);
        let (_, line) = before.split_at(pos);
        assert(line@ =~= rest.subrange(0, end - pos));
        assert(rest.subrange(end - pos, rest.len() as int) =~= input@.subrange(
            end as int,
            input@.len() as int,
        ));
        let ghost old_out = out@;
        if has_prefix(line, "ID=\"{".as_bytes()) {
            append_bytes(&mut out, UNLOCKED_ID.as_bytes());
        } else if has_prefix(line, "CMG=\"".as_bytes()) {
            append_bytes(&mut out, UNLOCKED_CMG.as_bytes());
        } else if has_prefix(line, "DPB=\"".as_bytes()) {
            append_bytes(&mut out, UNLOCKED_DPB.as_bytes());
        } else if line.len() >= 5 && has_prefix(line, "GC=\"".as_bytes()) {
            append_bytes(&mut out, UNLOCKED_GC.as_bytes());
        } else {
            append_bytes(&mut out, line);
        }
        assert(out@ == old_out + rewritten_line(line@));
        assert(out@ + rewritten(input@.subrange(end as int, input@.len() as int)) =~= old_out + (
        rewritten_line(line@) + rewritten(input@.subrange(end as int, input@.len() as int))));
        pos = end;
    }
    assert(out@ + Seq::<u8>::empty() =~= out@);
    out
}

} // verus!
