//! The reversible stream cipher that hides the protected fields of a VBA
//! project.
//!
//! An encrypted buffer starts with a seed, the version and the project key,
//! the last two masked by the seed. Every later byte is masked by the sum of
//! the encrypted byte two places back and the plain byte one place back. The
//! plain stream holds one to three ignored bytes, four bytes of length and
//! then the payload. The length bytes are read four bits apart, as the files
//! that Office writes require.
use vstd::prelude::*;
use crate::error::DataEncryption;
use crate::hex::{hex_encode, hex_string};
use crate::text::ascii_chars;

verus! {

/// The only version of the cipher.
pub const VERSION: u8 = 2;

/// How many ignored bytes follow the header, from the seed.
pub open spec fn ignored_length(seed: u8) -> int {
    ((seed & 6u8) >> 1u8) as int
}

/// The plain byte at position `i` of an encrypted buffer, for `i >= 3`;
/// position 2 stands for the project key.
pub open spec fn plain_at(b: Seq<u8>, i: int) -> u8
    decreases i,
{
    if i <= 2 {
        b[0] ^ b[2]
    } else {
        b[i] ^ b[i - 2].wrapping_add(plain_at(b, i - 1))
    }
}

/// Length byte `j` (0 to 3) of the plain stream, or zero past the end.
pub open spec fn length_byte(b: Seq<u8>, j: int) -> u32 {
    let k = 3 + ignored_length(b[0]) + j;
    if k < b.len() {
        plain_at(b, k) as u32
    } else {
        0
    }
}

/// The first `m` length bytes, each shifted four bits further than the last.
pub open spec fn length_field(b: Seq<u8>, m: int) -> u32
    decreases m,
{
    if m <= 0 {
        0
    } else {
        length_field(b, m - 1) | (length_byte(b, m - 1) << ((4 * (m - 1)) as u32))
    }
}

/// The payload length that an encrypted buffer announces.
pub open spec fn announced_length(b: Seq<u8>) -> u32 {
    length_field(b, 4)
}

/// The plain bytes after the ignored bytes and the length.
pub open spec fn payload(b: Seq<u8>) -> Seq<u8> {
    let start = 7 + ignored_length(b[0]);
    Seq::new(
        if b.len() > start {
            (b.len() - start) as nat
        } else {
            0
        },
        |k: int| plain_at(b, start + k),
    )
}

/// The payload length as reported in a mismatch: saturated to 32 bits.
pub open spec fn reported_length(n: nat) -> u32 {
    if n <= u32::MAX {
        n as u32
    } else {
        u32::MAX
    }
}

/// What decrypting a buffer yields, or `None` where it fails.
pub open spec fn decrypted(b: Seq<u8>) -> Option<Seq<u8>> {
    if b.len() >= 8 && b[0] ^ b[1] == VERSION && payload(b).len() == announced_length(b) {
        Some(payload(b))
    } else {
        None
    }
}

/// The error that decrypting `b` reports: exactly one applies to a buffer
/// that does not decrypt.
pub open spec fn decrypt_fails_with(b: Seq<u8>, e: DataEncryption) -> bool {
    match e {
        DataEncryption::TooShort(s) => b.len() < 8 && s@ == ascii_chars(hex_encode(b, false)),
        DataEncryption::Version(v) => b.len() >= 8 && b[0] ^ b[1] != VERSION && v == b[0] ^ b[1],
        DataEncryption::LengthMismatch(found, announced) => b.len() >= 8 && b[0] ^ b[1] == VERSION
            && payload(b).len() != announced_length(b) && found == reported_length(payload(b).len())
            && announced == announced_length(b),
        DataEncryption::InvalidHex(_) => false,
    }
}

/// Decrypts a buffer.
///
/// Fails with `TooShort` (the input as lower case hex) under eight bytes, with
/// `Version` where the version is not 2, and with `LengthMismatch` where the
/// payload is not as long as announced.
pub fn decode(encrypted_data: &[u8]) -> (r: Result<Vec<u8>, DataEncryption>)
    ensures
        r.is_ok() <==> decrypted(encrypted_data@) is Some,
        r matches Ok(d) ==> Some(d@) == decrypted(encrypted_data@),
        r matches Err(e) ==> decrypt_fails_with(encrypted_data@, e),
        encrypted_data@.len() < 8 ==> (r matches Err(DataEncryption::TooShort(s)) && s@
            == ascii_chars(hex_encode(encrypted_data@, false))),
        encrypted_data@.len() >= 8 && encrypted_data@[0] ^ encrypted_data@[1] != VERSION ==> r
            == Err::<Vec<u8>, DataEncryption>(
            DataEncryption::Version(encrypted_data@[0] ^ encrypted_data@[1]),
        ),
        encrypted_data@.len() >= 8 && encrypted_data@[0] ^ encrypted_data@[1] == VERSION
            && payload(encrypted_data@).len() != announced_length(encrypted_data@) ==> r
            == Err::<Vec<u8>, DataEncryption>(
            DataEncryption::LengthMismatch(
                reported_length(payload(encrypted_data@).len()),
                announced_length(encrypted_data@),
            ),
        ),
{
    let ghost b = encrypted_data@;
    let n = encrypted_data.len();
    if n < 8 {
        return Err(DataEncryption::TooShort(hex_string(encrypted_data, false)));
    }
    let seed = encrypted_data[0];
    let version_enc = encrypted_data[1];
    let project_key_enc = encrypted_data[2];
    let version = seed ^ version_enc;
    if version != VERSION {
        return Err(DataEncryption::Version(version));
    }
    let project_key = seed ^ project_key_enc;
    let ignored: usize = ((seed & 6) >> 1) as usize;
    assert((seed & 6u8) >> 1u8 <= 3) by (bit_vector);
    assert(ignored == ignored_length(b[0]));
    let mut plain_1 = project_key;
    let mut enc_1 = project_key_enc;
    let mut enc_2 = version_enc;
    let mut data: Vec<u8> = Vec::new();
    let mut length: u32 = 0;
    let mut i: usize = 3;
    while i < n
        invariant
            n == b.len(),
            b == encrypted_data@,
            n >= 8,
            ignored == ignored_length(b[0]),
            ignored <= 3,
            3 <= i <= n,
            plain_1 == plain_at(b, i - 1),
            enc_1 == b[i - 1],
            enc_2 == b[i - 2],
            length == length_field(
                b,
                if i <= 3 + ignored {
                    0
                } else if i >= 7 + ignored {
                    4
                } else {
                    i - 3 - ignored
                },
            ),
            data@ =~= Seq::new(
                if i > 7 + ignored {
                    (i - 7 - ignored) as nat
                } else {
                    0
                },
                |k: int| plain_at(b, 7 + ignored + k),
            ),
        decreases n - i,
    {
        let byte_enc = encrypted_data[i];
        let byte = byte_enc ^ enc_2.wrapping_add(plain_1);
        assert(byte == plain_at(b, i as int));
        enc_2 = enc_1;
        enc_1 = byte_enc;
        plain_1 = byte;
        let x = i - 3;
        if x < ignored {
        } else if x < ignored + 4 {
            let shift: u32 = (4 * (x - ignored)) as u32;
            length = length | ((byte as u32) << shift);
            assert(length_byte(b, (x - ignored) as int) == byte as u32);
        } else {
            data.push(byte);
        }
        i += 1;
    }
    let ghost m: int = if n >= 7 + ignored { 4 } else { n - 3 - ignored };
    assert(length == announced_length(b)) by {
        lemma_length_field_tail(b, m);
    }
    assert(data@ =~= payload(b));
    if data.len() > u32::MAX as usize {
        return Err(DataEncryption::LengthMismatch(u32::MAX, length));
    }
    let data_len = data.len() as u32;
    if data_len != length {
        return Err(DataEncryption::LengthMismatch(data_len, length));
    }
    Ok(data)
}

/// Length bytes past the end of the buffer add nothing to the length.
proof fn lemma_length_field_tail(b: Seq<u8>, m: int)
    requires
        0 <= m <= 4,
        b.len() >= 3,
        m < 4 ==> 3 + ignored_length(b[0]) + m >= b.len(),
    ensures
        length_field(b, m) == length_field(b, 4),
    decreases 4 - m,
{
    if m < 4 {
        let prev = length_field(b, m);
        assert(length_byte(b, m) == 0);
        let s = (4 * m) as u32;
        assert(prev | (0u32 << s) == prev) by (bit_vector);
        assert(length_field(b, m + 1) == prev);
        lemma_length_field_tail(b, m + 1);
    }
}

/// The deterministic filler written in place of the ignored bytes.
pub open spec fn filler(i: int) -> u8 {
    ((i * 15) as u8) ^ 0xa9u8
}

/// The four length bytes whose reading four bits apart gives `n` back for
/// every `n` up to `0xFFFFF`: the three low nibbles, then the rest.
pub open spec fn length_bytes(n: u32) -> Seq<u8> {
    seq![(n & 0xf) as u8, ((n >> 4u32) & 0xf) as u8, ((n >> 8u32) & 0xf) as u8, ((n >> 12u32) & 0xff) as u8]
}

/// The plain stream that encoding masks: filler, length, payload.
pub open spec fn plain_stream(seed: u8, data: Seq<u8>) -> Seq<u8> {
    Seq::new(ignored_length(seed) as nat, |i: int| filler(i)) + length_bytes(data.len() as u32) + data
}

/// The byte at position `i` of the encrypted form of the plain stream `u`.
pub open spec fn cipher_at(seed: u8, project_key: u8, u: Seq<u8>, i: int) -> u8
    decreases i,
{
    if i <= 0 {
        seed
    } else if i == 1 {
        seed ^ VERSION
    } else if i == 2 {
        seed ^ project_key
    } else {
        u[i - 3] ^ cipher_at(seed, project_key, u, i - 2).wrapping_add(
            if i == 3 {
                project_key
            } else {
                u[i - 4]
            },
        )
    }
}

/// The encrypted form of a payload.
pub open spec fn encrypted(seed: u8, project_key: u8, data: Seq<u8>) -> Seq<u8> {
    let u = plain_stream(seed, data);
    Seq::new(3 + u.len(), |i: int| cipher_at(seed, project_key, u, i))
}

/// Encrypts a payload with the given seed and project key. The ignored bytes
/// are a fixed filler, so the output depends on the arguments alone.
pub fn encode(seed: u8, project_key: u8, data: &[u8]) -> (r: Vec<u8>)
    requires
        data@.len() <= usize::MAX - 10,
    ensures
        r@ == encrypted(seed, project_key, data@),
{
    let ghost u = plain_stream(seed, data@);
    let version_enc = seed ^ VERSION;
    let project_key_enc = seed ^ project_key;
    let ignored: u8 = (seed & 6) >> 1;
    assert((seed & 6u8) >> 1u8 <= 3) by (bit_vector);
    let mut plain: Vec<u8> = Vec::new();
    let mut i: u8 = 0;
    while i < ignored
        invariant
            i <= ignored <= 3,
            ignored == ignored_length(seed),
            plain@ =~= Seq::new(i as nat, |k: int| filler(k)),
        decreases ignored - i,
    {
        plain.push((i * 0x0f) ^ 0xa9);
        i += 1;
    }
    let length = data.len() as u32;
    plain.push((length & 0xf) as u8);
    plain.push(((length >> 4) & 0xf) as u8);
    plain.push(((length >> 8) & 0xf) as u8);
    plain.push(((length >> 12) & 0xff) as u8);
    let mut j: usize = 0;
    while j < data.len()
        invariant
            j <= data@.len(),
            plain@ =~= Seq::new(ignored_length(seed) as nat, |k: int| filler(k)) + length_bytes(length)
                + data@.subrange(0, j as int),
        decreases data@.len() - j,
    {
        plain.push(data[j]);
        j += 1;
    }
    assert(plain@ =~= u);
    let mut out: Vec<u8> = Vec::new();
    out.push(seed);
    out.push(version_enc);
    out.push(project_key_enc);
    let mut plain_1 = project_key;
    let mut enc_1 = project_key_enc;
    let mut enc_2 = version_enc;
    let mut k: usize = 0;
    while k < plain.len()
        invariant
            plain@ == u,
            k <= u.len(),
            out@.len() == 3 + k,
            forall|t: int| 0 <= t < 3 + k ==> out@[t] == #[trigger] cipher_at(seed, project_key, u, t),
            plain_1 == (if k == 0 { project_key } else { u[k - 1] }),
            enc_1 == cipher_at(seed, project_key, u, k + 2),
            enc_2 == cipher_at(seed, project_key, u, k + 1),
        decreases u.len() - k,
    {
        let byte = plain[k];
        let byte_enc = byte ^ enc_2.wrapping_add(plain_1);
        assert(byte_enc == cipher_at(seed, project_key, u, k + 3));
        out.push(byte_enc);
        enc_2 = enc_1;
        enc_1 = byte_enc;
        plain_1 = byte;
        k += 1;
    }
    assert(out@ =~= encrypted(seed, project_key, data@));
    out
}

/// Decryption undoes encryption: for every seed and project key, a payload of
/// at most `0xFFFFF` bytes whose encrypted form has at least eight bytes
/// decrypts to itself.
pub proof fn lemma_round_trip(seed: u8, project_key: u8, data: Seq<u8>)
    requires
        data.len() <= 0xFFFFF,
        7 + ignored_length(seed) + data.len() >= 8,
    ensures
        decrypted(encrypted(seed, project_key, data)) == Some(data),
{
    let b = encrypted(seed, project_key, data);
    assert(b[0] == seed);
    assert(b[1] == seed ^ VERSION);
    assert(seed ^ (seed ^ 2u8) == 2u8) by (bit_vector);
    lemma_payload_matches(seed, project_key, data);
    lemma_length_matches(seed, project_key, data);
}

proof fn lemma_payload_matches(seed: u8, project_key: u8, data: Seq<u8>)
    requires
        data.len() <= 0xFFFFF,
    ensures
        payload(encrypted(seed, project_key, data)) =~= data,
{
    let b = encrypted(seed, project_key, data);
    let u = plain_stream(seed, data);
    let ign = ignored_length(seed);
    assert((seed & 6u8) >> 1u8 <= 3) by (bit_vector);
    assert(b[0] == seed);
    assert forall|k: int| 0 <= k < data.len() implies #[trigger] payload(b)[k] == data[k] by {
        lemma_plain_matches(seed, project_key, data, 7 + ign + k);
        assert(u[4 + ign + k] == data[k]);
    }
}

proof fn lemma_length_matches(seed: u8, project_key: u8, data: Seq<u8>)
    requires
        data.len() <= 0xFFFFF,
    ensures
        announced_length(encrypted(seed, project_key, data)) == data.len(),
{
    let b = encrypted(seed, project_key, data);
    let u = plain_stream(seed, data);
    let ign = ignored_length(seed);
    assert((seed & 6u8) >> 1u8 <= 3) by (bit_vector);
    assert(b[0] == seed);
    let n = data.len() as u32;
    assert forall|j: int| 0 <= j < 4 implies #[trigger] length_byte(b, j) == length_bytes(n)[j] as u32 by {
        lemma_plain_matches(seed, project_key, data, 3 + ign + j);
        assert(u[ign + j] == length_bytes(n)[j]);
    }
    let l0 = length_byte(b, 0);
    let l1 = length_byte(b, 1);
    let l2 = length_byte(b, 2);
    let l3 = length_byte(b, 3);
    assert(length_field(b, 0) == 0u32);
    assert(length_field(b, 1) == 0u32 | (l0 << 0u32));
    assert(length_field(b, 2) == length_field(b, 1) | (l1 << 4u32));
    assert(length_field(b, 3) == length_field(b, 2) | (l2 << 8u32));
    assert(length_field(b, 4) == length_field(b, 3) | (l3 << 12u32));
    lemma_le_length(n, l0, l1, l2, l3);
}

proof fn lemma_le_length(n: u32, l0: u32, l1: u32, l2: u32, l3: u32)
    by (bit_vector)
    requires
        n <= 0xFFFFF,
        l0 == ((n & 0xf) as u8) as u32,
        l1 == (((n >> 4u32) & 0xf) as u8) as u32,
        l2 == (((n >> 8u32) & 0xf) as u8) as u32,
        l3 == (((n >> 12u32) & 0xff) as u8) as u32,
    ensures
        (((0u32 | (l0 << 0u32)) | (l1 << 4u32)) | (l2 << 8u32)) | (l3 << 12u32) == n,
{
}

/// Every plain byte that decryption finds in an encrypted buffer is the byte
/// that encryption masked there.
proof fn lemma_plain_matches(seed: u8, project_key: u8, data: Seq<u8>, i: int)
    requires
        data.len() <= 0xFFFFF,
        2 <= i < encrypted(seed, project_key, data).len(),
    ensures
        plain_at(encrypted(seed, project_key, data), i) == (if i == 2 {
            project_key
        } else {
            plain_stream(seed, data)[i - 3]
        }),
    decreases i,
{
    let b = encrypted(seed, project_key, data);
    let u = plain_stream(seed, data);
    if i == 2 {
        assert(seed ^ (seed ^ project_key) == project_key) by (bit_vector);
    } else {
        lemma_plain_matches(seed, project_key, data, i - 1);
        let prev = if i == 3 { project_key } else { u[i - 4] };
        let x = u[i - 3];
        let y = b[i - 2].wrapping_add(prev);
        assert(b[i] == x ^ y);
        assert((x ^ y) ^ y == x) by (bit_vector);
    }
}

} // verus!
