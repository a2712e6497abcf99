//! The record in which a VBA project stores a hashed password.
//!
//! The record is 29 bytes: `0xFF`, three bytes of bit masks, a four byte salt,
//! a twenty byte SHA-1 hash and a null terminator. A null byte of the salt or
//! the hash is written as `0x01` with its mask bit cleared, so that the record
//! holds no null before its end. Bits 0 to 3 of the first mask byte cover the
//! salt; the remaining twenty bits cover the hash.
use vstd::prelude::*;
use crate::error::{PasswordHash, PasswordHashEncode};
use crate::hex::Data;
use vstd::string::StringSliceAdditionalSpecFns;

verus! {

/// Four bytes of salt.
pub type Salt = [u8; 4];

/// A SHA-1 digest.
pub type Hash = [u8; 20];

/// The SHA-1 digest of a byte string.
pub uninterp spec fn sha1_digest(data: Seq<u8>) -> [u8; 20];

/// Relies on `sha1::Sha1` through `Digest::digest`: the SHA-1 digest of the
/// bytes, which depends on them alone.
#[verifier::external_body]
fn sha1(data: &[u8]) -> (r: Hash)
    ensures
        r == sha1_digest(data@),
{
    <sha1::Sha1 as sha1::Digest>::digest(data).into()
}

/// Relies on `rand::random`: four bytes drawn from the thread's generator.
/// Nothing is known of them.
#[verifier::external_body]
fn random_salt() -> (r: Salt) {
    rand::random::<Salt>()
}

/// Whether bit `i` of a mask is set.
pub open spec fn bit_set(mask: u32, i: int) -> bool {
    (mask >> (i as u32)) & 1u32 == 1u32
}

/// The mask that covers the salt.
pub open spec fn salt_mask(d: Seq<u8>) -> u32 {
    d[1] as u32
}

/// The mask that covers the hash: the high half of the first mask byte,
/// then the two further mask bytes.
pub open spec fn hash_mask(d: Seq<u8>) -> u32 {
    ((d[1] as u32) >> 4u32) | ((d[2] as u32) << 4u32) | ((d[3] as u32) << 12u32)
}

/// The salt as stored, before nulls are restored.
pub open spec fn salt_raw(d: Seq<u8>) -> Seq<u8> {
    d.subrange(4, 8)
}

/// The hash as stored, before nulls are restored.
pub open spec fn hash_raw(d: Seq<u8>) -> Seq<u8> {
    d.subrange(8, 28)
}

/// Byte `i` is stored consistently: kept, or the `0x01` marker of a null.
pub open spec fn null_ok(raw: Seq<u8>, mask: u32, i: int) -> bool {
    bit_set(mask, i) || raw[i] == 1
}

/// Every byte is stored consistently.
pub open spec fn nulls_ok(raw: Seq<u8>, mask: u32) -> bool {
    forall|i: int| 0 <= i < raw.len() ==> #[trigger] null_ok(raw, mask, i)
}

/// Byte `i` is the first one stored inconsistently.
pub open spec fn first_bad(raw: Seq<u8>, mask: u32, i: int) -> bool {
    &&& 0 <= i < raw.len()
    &&& !null_ok(raw, mask, i)
    &&& forall|j: int| 0 <= j < i ==> #[trigger] null_ok(raw, mask, j)
}

/// The bytes with every marked null before `upto` restored.
pub open spec fn restored(raw: Seq<u8>, mask: u32, upto: int) -> Seq<u8> {
    Seq::new(raw.len(), |j: int| if j < upto && !bit_set(mask, j) { 0u8 } else { raw[j] })
}

/// The record has its length, reserved byte and terminator.
pub open spec fn framed(d: Seq<u8>) -> bool {
    d.len() == 29 && d[0] == 0xff && d[28] == 0
}

/// The record decodes.
pub open spec fn record_valid(d: Seq<u8>) -> bool {
    framed(d) && nulls_ok(salt_raw(d), salt_mask(d)) && nulls_ok(hash_raw(d), hash_mask(d))
}

/// The salt that a valid record holds.
pub open spec fn record_salt(d: Seq<u8>) -> Seq<u8> {
    restored(salt_raw(d), salt_mask(d), 4)
}

/// The hash that a valid record holds.
pub open spec fn record_hash(d: Seq<u8>) -> Seq<u8> {
    restored(hash_raw(d), hash_mask(d), 20)
}

/// What decoding the record `d` reports: the salt and hash exactly when the
/// record is valid, else the first fault, in the order in which the record is
/// checked.
pub open spec fn decodes_as(d: Seq<u8>, r: Result<(Salt, Hash), PasswordHash>) -> bool {
    &&& r.is_ok() <==> record_valid(d)
    &&& r matches Ok((s, h)) ==> s@ == record_salt(d) && h@ == record_hash(d)
    &&& d.len() != 29 ==> r == Err::<(Salt, Hash), PasswordHash>(PasswordHash::Length(d.len() as usize))
    &&& d.len() == 29 && d[0] != 0xff ==> r == Err::<(Salt, Hash), PasswordHash>(PasswordHash::Reserved(d[0]))
    &&& d.len() == 29 && d[0] == 0xff && d[28] != 0 ==> r == Err::<(Salt, Hash), PasswordHash>(
        PasswordHash::Terminator(d[28]),
    )
    &&& framed(d) && !nulls_ok(salt_raw(d), salt_mask(d)) ==> (r matches Err(PasswordHash::SaltNull(_, _)))
    &&& framed(d) && nulls_ok(salt_raw(d), salt_mask(d)) && !nulls_ok(hash_raw(d), hash_mask(d)) ==> (r matches Err(
        PasswordHash::HashNull(_, _),
    ))
    &&& r matches Err(PasswordHash::SaltNull(s, i)) ==> framed(d) && first_bad(salt_raw(d), salt_mask(d), i as int)
        && s@ == restored(salt_raw(d), salt_mask(d), i as int)
    &&& r matches Err(PasswordHash::HashNull(h, i)) ==> framed(d) && nulls_ok(salt_raw(d), salt_mask(d))
        && first_bad(hash_raw(d), hash_mask(d), i as int) && h@ == restored(hash_raw(d), hash_mask(d), i as int)
}

/// Reads the salt and hash out of a hashed password record.
pub fn decode(data: &[u8]) -> (r: Result<(Salt, Hash), PasswordHash>)
    ensures
        decodes_as(data@, r),
{
    let ghost d = data@;
    if data.len() != 29 {
        return Err(PasswordHash::Length(data.len()));
    }
    if data[0] != 0xff {
        return Err(PasswordHash::Reserved(data[0]));
    }
    if data[28] != 0x00 {
        return Err(PasswordHash::Terminator(data[28]));
    }
    let mut salt: Salt = [data[4], data[5], data[6], data[7]];
    let ghost raw_salt = salt_raw(d);
    assert(salt@ =~= raw_salt);
    let key_mask: u32 = data[1] as u32;
    let mut i: usize = 0;
    while i < 4
        invariant
            i <= 4,
            d == data@,
            framed(d),
            raw_salt == salt_raw(d),
            key_mask == salt_mask(d),
            forall|j: int| 0 <= j < i ==> #[trigger] null_ok(raw_salt, key_mask, j),
            salt@ =~= restored(raw_salt, key_mask, i as int),
        decreases 4 - i,
    {
        proof {
            lemma_bit_clear(key_mask, i as u32);
        }
        if (key_mask >> (i as u32)) & 1 == 0 {
            if salt[i] != 0x01 {
                assert(!null_ok(raw_salt, key_mask, i as int));
                return Err(PasswordHash::SaltNull(salt, i));
            }
            salt[i] = 0;
        }
        i += 1;
        assert(salt@ =~= restored(raw_salt, key_mask, i as int));
    }
    let mut hash: Hash = [0u8; 20];
    let mut k: usize = 0;
    while k < 20
        invariant
            k <= 20,
            d == data@,
            framed(d),
            forall|j: int| 0 <= j < k ==> hash@[j] == #[trigger] d[8 + j],
        decreases 20 - k,
    {
        hash[k] = data[8 + k];
        k += 1;
    }
    let ghost raw_hash = hash_raw(d);
    assert forall|j: int| 0 <= j < 20 implies hash@[j] == #[trigger] raw_hash[j] by {
        assert(hash@[j] == d[8 + j]);
    }
    assert(hash@ =~= raw_hash);
    let hash_bits: u32 = ((data[1] as u32) >> 4) | ((data[2] as u32) << 4) | ((data[3] as u32) << 12);
    let mut i: usize = 0;
    while i < 20
        invariant
            i <= 20,
            d == data@,
            framed(d),
            raw_salt == salt_raw(d),
            key_mask == salt_mask(d),
            nulls_ok(raw_salt, key_mask),
            salt@ =~= restored(raw_salt, key_mask, 4),
            raw_hash == hash_raw(d),
            hash_bits == hash_mask(d),
            forall|j: int| 0 <= j < i ==> #[trigger] null_ok(raw_hash, hash_bits, j),
            hash@ =~= restored(raw_hash, hash_bits, i as int),
        decreases 20 - i,
    {
        proof {
            lemma_bit_clear(hash_bits, i as u32);
        }
        if (hash_bits >> (i as u32)) & 1 == 0 {
            if hash[i] != 0x01 {
                assert(!null_ok(raw_hash, hash_bits, i as int));
                return Err(PasswordHash::HashNull(hash, i));
            }
            hash[i] = 0;
        }
        i += 1;
        assert(hash@ =~= restored(raw_hash, hash_bits, i as int));
    }
    Ok((salt, hash))
}

/// The mask with bit `i` set for each of the first `n` bytes that is not null.
pub open spec fn null_mask(bytes: Seq<u8>, n: int) -> u32
    decreases n,
{
    if n <= 0 {
        0
    } else {
        null_mask(bytes, n - 1) | (if bytes[n - 1] != 0 {
            1u32 << ((n - 1) as u32)
        } else {
            0u32
        })
    }
}

/// A byte as stored: a null becomes the `0x01` marker.
pub open spec fn marked(b: u8) -> u8 {
    if b == 0 {
        1
    } else {
        b
    }
}

/// The record that stores a salt and a hash.
pub open spec fn encoded_record(salt: Seq<u8>, hash: Seq<u8>) -> Seq<u8> {
    let sm = null_mask(salt, 4);
    let hm = null_mask(hash, 20);
    seq![0xffu8, (((hm & 0xfu32) << 4u32) | sm) as u8, ((hm >> 4u32) & 0xffu32) as u8, ((hm >> 12u32) & 0xffu32) as u8]
        + Seq::new(4, |i: int| marked(salt[i])) + Seq::new(20, |i: int| marked(hash[i])) + seq![0u8]
}

/// Builds the record that stores a salt and a hash; fails unless the salt is
/// four bytes long.
pub fn encode(salt: &[u8], hash: Hash) -> (r: Result<Data, PasswordHashEncode>)
    ensures
        salt@.len() != 4 ==> r == Err::<Data, PasswordHashEncode>(
            PasswordHashEncode::SaltLength(salt@.len() as usize),
        ),
        salt@.len() == 4 ==> (r matches Ok(d) && d@ == encoded_record(salt@, hash@)),
{
    if salt.len() != 4 {
        return Err(PasswordHashEncode::SaltLength(salt.len()));
    }
    let mut key_mask: u32 = 0;
    let mut nulled_salt: Vec<u8> = Vec::new();
    let mut i: usize = 0;
    while i < 4
        invariant
            i <= 4,
            salt@.len() == 4,
            key_mask == null_mask(salt@, i as int),
            nulled_salt@ =~= Seq::new(i as nat, |j: int| marked(salt@[j])),
        decreases 4 - i,
    {
        if salt[i] == 0 {
            nulled_salt.push(1);
            assert(key_mask | 0u32 == key_mask) by (bit_vector);
        } else {
            nulled_salt.push(salt[i]);
            key_mask = key_mask | (1u32 << (i as u32));
        }
        i += 1;
    }
    let mut hash_bits: u32 = 0;
    let mut nulled_hash: Vec<u8> = Vec::new();
    let mut i: usize = 0;
    while i < 20
        invariant
            i <= 20,
            hash_bits == null_mask(hash@, i as int),
            nulled_hash@ =~= Seq::new(i as nat, |j: int| marked(hash@[j])),
        decreases 20 - i,
    {
        if hash[i] == 0 {
            nulled_hash.push(1);
            assert(hash_bits | 0u32 == hash_bits) by (bit_vector);
        } else {
            nulled_hash.push(hash[i]);
            hash_bits = hash_bits | (1u32 << (i as u32));
        }
        i += 1;
    }
    let mut output: Vec<u8> = Vec::new();
    output.push(0xff);
    output.push((((hash_bits & 0x0f) << 4) | key_mask) as u8);
    output.push(((hash_bits >> 4) & 0xff) as u8);
    output.push(((hash_bits >> 12) & 0xff) as u8);
    let mut i: usize = 0;
    while i < 4
        invariant
            i <= 4,
            nulled_salt@.len() == 4,
            output@.len() == 4 + i,
            forall|j: int| 0 <= j < i ==> output@[4 + j] == #[trigger] nulled_salt@[j],
            output@.subrange(0, 4) == seq![0xffu8, (((hash_bits & 0xfu32) << 4u32) | key_mask) as u8, ((hash_bits >> 4u32) & 0xffu32) as u8, ((hash_bits >> 12u32) & 0xffu32) as u8],
        decreases 4 - i,
    {
        output.push(nulled_salt[i]);
        i += 1;
    }
    let mut i: usize = 0;
    while i < 20
        invariant
            i <= 20,
            nulled_salt@.len() == 4,
            nulled_hash@.len() == 20,
            output@.len() == 8 + i,
            forall|j: int| 0 <= j < 4 ==> output@[4 + j] == #[trigger] nulled_salt@[j],
            forall|j: int| 0 <= j < i ==> output@[8 + j] == #[trigger] nulled_hash@[j],
            output@.subrange(0, 4) == seq![0xffu8, (((hash_bits & 0xfu32) << 4u32) | key_mask) as u8, ((hash_bits >> 4u32) & 0xffu32) as u8, ((hash_bits >> 12u32) & 0xffu32) as u8],
        decreases 20 - i,
    {
        output.push(nulled_hash[i]);
        i += 1;
    }
    output.push(0x00);
    let ghost expected = encoded_record(salt@, hash@);
    assert forall|j: int| 0 <= j < 4 implies output@[j] == #[trigger] expected[j] by {
        assert(output@[j] == output@.subrange(0, 4)[j]);
    }
    assert forall|j: int| 4 <= j < 8 implies output@[j] == #[trigger] expected[j] by {
        assert(output@[4 + (j - 4)] == nulled_salt@[j - 4]);
    }
    assert forall|j: int| 8 <= j < 28 implies output@[j] == #[trigger] expected[j] by {
        assert(output@[8 + (j - 8)] == nulled_hash@[j - 8]);
    }
    assert(output@ =~= expected);
    Ok(Data(output))
}

/// Decoding undoes encoding: any four byte salt and twenty byte hash, nulls
/// included, are stored in a record that decodes to them again.
pub proof fn lemma_record_round_trip(salt: Seq<u8>, hash: Seq<u8>)
    requires
        salt.len() == 4,
        hash.len() == 20,
    ensures
        record_valid(encoded_record(salt, hash)),
        record_salt(encoded_record(salt, hash)) == salt,
        record_hash(encoded_record(salt, hash)) == hash,
{
    let d = encoded_record(salt, hash);
    let sm = null_mask(salt, 4);
    let hm = null_mask(hash, 20);
    lemma_null_mask(salt, 4);
    lemma_null_mask(hash, 20);
    assert(1u32 << 4u32 == 16u32) by (bit_vector);
    assert(1u32 << 20u32 == 0x100000u32) by (bit_vector);
    lemma_masks_stored(sm, hm);
    assert(salt_mask(d) == ((((hm & 0xfu32) << 4u32) | sm) as u8) as u32);
    assert(hash_mask(d) == hm);
    assert forall|i: int| 0 <= i < 4 implies bit_set(salt_mask(d), i) == (salt[i] != 0) by {
        lemma_low_nibble(sm, hm, i as u32);
    }
    assert forall|i: int| 0 <= i < 4 implies #[trigger] null_ok(salt_raw(d), salt_mask(d), i) by {
        assert(salt_raw(d)[i] == marked(salt[i]));
    }
    assert forall|i: int| 0 <= i < 20 implies #[trigger] null_ok(hash_raw(d), hash_mask(d), i) by {
        assert(hash_raw(d)[i] == marked(hash[i]));
    }
    assert(record_salt(d) =~= salt);
    assert(record_hash(d) =~= hash);
}

/// The mask of the first `n` bytes has one bit per byte that is not null,
/// and no bit from `n` up.
proof fn lemma_null_mask(bytes: Seq<u8>, n: int)
    requires
        0 <= n <= 20,
        n <= bytes.len(),
    ensures
        null_mask(bytes, n) < (1u32 << (n as u32)),
        forall|i: int| 0 <= i < n ==> bit_set(null_mask(bytes, n), i) == (bytes[i] != 0),
    decreases n,
{
    if n == 0 {
        assert(1u32 << 0u32 == 1u32) by (bit_vector);
    } else {
        lemma_null_mask(bytes, n - 1);
        let x = null_mask(bytes, n - 1);
        let k = (n - 1) as u32;
        let set = bytes[n - 1] != 0;
        lemma_or_bit(x, k, set);
        assert forall|i: int| 0 <= i < n implies bit_set(null_mask(bytes, n), i) == (bytes[i] != 0) by {
            if i < n - 1 {
                lemma_or_lower_bit(x, k, set, i as u32);
            }
        }
    }
}

proof fn lemma_or_bit(x: u32, k: u32, set: bool)
    by (bit_vector)
    requires
        x < (1u32 << k),
        k < 31,
    ensures
        (x | (if set { 1u32 << k } else { 0u32 })) < (1u32 << ((k + 1) as u32)),
        (((x | (if set { 1u32 << k } else { 0u32 })) >> k) & 1u32 == 1u32) == set,
{
}

proof fn lemma_or_lower_bit(x: u32, k: u32, set: bool, i: u32)
    by (bit_vector)
    requires
        i < k,
        k < 31,
    ensures
        ((x | (if set { 1u32 << k } else { 0u32 })) >> i) & 1u32 == (x >> i) & 1u32,
{
}

proof fn lemma_low_nibble(sm: u32, hm: u32, i: u32)
    by (bit_vector)
    requires
        sm < 16,
        i < 4,
    ensures
        ((((((hm & 0xfu32) << 4u32) | sm) as u8) as u32 >> i) & 1u32 == 1u32) == ((sm >> i) & 1u32 == 1u32),
{
}

proof fn lemma_masks_stored(sm: u32, hm: u32)
    by (bit_vector)
    requires
        sm < 16,
        hm < 0x100000,
    ensures
        ((((((hm & 0xfu32) << 4u32) | sm) as u8) as u32) >> 4u32) | (((((hm >> 4u32) & 0xffu32) as u8) as u32) << 4u32)
            | (((((hm >> 12u32) & 0xffu32) as u8) as u32) << 12u32) == hm,
{
}

/// The digest of a password followed by a salt.
pub fn generate_hash(password: &str, salt: &[u8]) -> (r: Hash)
    ensures
        r == sha1_digest(password.spec_bytes() + salt@),
{
    let bytes = password.as_bytes();
    let mut salted: Vec<u8> = Vec::new();
    let mut i: usize = 0;
    while i < bytes.len()
        invariant
            i <= bytes@.len(),
            salted@ =~= bytes@.subrange(0, i as int),
        decreases bytes@.len() - i,
    {
        salted.push(bytes[i]);
        i += 1;
    }
    let mut j: usize = 0;
    while j < salt.len()
        invariant
            j <= salt@.len(),
            salted@ =~= bytes@ + salt@.subrange(0, j as int),
        decreases salt@.len() - j,
    {
        salted.push(salt[j]);
        j += 1;
    }
    assert(salted@ =~= password.spec_bytes() + salt@);
    sha1(salted.as_slice())
}

/// Hashes a password with the given salt and stores the result in a record;
/// fails unless the salt is four bytes long.
pub fn encode_password_with_salt(password: &str, salt: &[u8]) -> (r: Result<Data, PasswordHashEncode>)
    ensures
        salt@.len() != 4 ==> r == Err::<Data, PasswordHashEncode>(
            PasswordHashEncode::SaltLength(salt@.len() as usize),
        ),
        salt@.len() == 4 ==> (r matches Ok(d) && d@ == encoded_record(
            salt@,
            sha1_digest(password.spec_bytes() + salt@)@,
        )),
{
    let hash = generate_hash(password, salt);
    encode(salt, hash)
}

/// Hashes a password with a random salt and stores the result in a record.
pub fn encode_password(password: &str) -> (r: Data)
    ensures
        exists|salt: Seq<u8>|
            salt.len() == 4 && r@ == encoded_record(salt, #[trigger] sha1_digest(password.spec_bytes() + salt)@),
{
    let salt = random_salt();
    match encode_password_with_salt(password, salt.as_slice()) {
        Ok(d) => d,
        Err(_) => Data(Vec::new()),
    }
}

/// Whether a password, salted, hashes to the given digest.
pub fn password_match_hash(test: &str, salt: Salt, hash: Hash) -> (r: bool)
    ensures
        r == (sha1_digest(test.spec_bytes() + salt@)@ == hash@),
{
    let salt_bytes = salt.as_slice();
    assert(salt_bytes@ == salt@);
    let digest = generate_hash(test, salt_bytes);
    let mut i: usize = 0;
    while i < 20
        invariant
            i <= 20,
            digest == sha1_digest(test.spec_bytes() + salt@),
            forall|j: int| 0 <= j < i ==> digest@[j] == #[trigger] hash@[j],
        decreases 20 - i,
    {
        if digest[i] != hash[i] {
            assert(digest@[i as int] != hash@[i as int]);
            return false;
        }
        i += 1;
    }
    assert(digest@ =~= hash@);
    true
}

/// Whether a password matches a stored record; fails where the record does
/// not decode, with the fault that `decode` reports.
pub fn password_match(test: &str, encoded_password: &[u8]) -> (r: Result<bool, PasswordHash>)
    ensures
        r.is_ok() <==> record_valid(encoded_password@),
        r matches Ok(b) ==> b == (sha1_digest(test.spec_bytes() + record_salt(encoded_password@))@
            == record_hash(encoded_password@)),
        r matches Err(e) ==> decodes_as(encoded_password@, Err(e)),
{
    match decode(encoded_password) {
        Ok((salt, hash)) => {
            Ok(password_match_hash(test, salt, hash))
        },
        Err(e) => Err(e),
    }
}

/// A password stored with any salt matches itself.
pub proof fn lemma_password_matches(password: Seq<u8>, salt: Seq<u8>)
    requires
        salt.len() == 4,
    ensures
        record_valid(encoded_record(salt, sha1_digest(password + salt)@)),
        sha1_digest(password + record_salt(encoded_record(salt, sha1_digest(password + salt)@)))@
            == record_hash(encoded_record(salt, sha1_digest(password + salt)@)),
{
    lemma_record_round_trip(salt, sha1_digest(password + salt)@);
}

proof fn lemma_bit_clear(mask: u32, i: u32)
    by (bit_vector)
    ensures
        ((mask >> i) & 1u32 == 0u32) <==> !((mask >> i) & 1u32 == 1u32),
{
}

} // verus!
