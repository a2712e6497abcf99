//! The three protected fields of a project: protection state (`CMG`),
//! password (`DPB`) and visibility (`GC`). Each holds encrypted data; these
//! functions decrypt it and read the value.
use vstd::prelude::*;
use crate::data_encryption::{decode, decrypt_fails_with, decrypted};
use crate::error;
use crate::password_hash::{self, decodes_as, record_hash, record_salt, record_valid, Salt};
use crate::text::{lossy_utf8, string_from_utf8_lossy};

verus! {

/// Which parts of the project are protected.
#[derive(Debug, Clone, Copy, PartialEq, Eq)]
pub struct ProtectionState {
    pub user: bool,
    pub host: bool,
    pub vbe: bool,
}

/// How the project password is stored.
#[derive(Debug, PartialEq, Eq)]
pub enum Password {
    /// There is no password.
    NoPassword,
    /// A salt and the SHA-1 hash of the password and salt.
    Hash(Salt, password_hash::Hash),
    /// The password itself.
    Plain(String),
}

/// [`Password`] over spec values.
pub enum PasswordModel {
    NoPassword,
    Hash(Salt, password_hash::Hash),
    Plain(Seq<char>),
}

impl View for Password {
    type V = PasswordModel;

    open spec fn view(&self) -> PasswordModel {
        match self {
            Password::NoPassword => PasswordModel::NoPassword,
            Password::Hash(s, h) => PasswordModel::Hash(*s, *h),
            Password::Plain(t) => PasswordModel::Plain(t@),
        }
    }
}

/// Whether the project is visible.
#[derive(Debug, Clone, Copy, PartialEq, Eq)]
pub enum Visibility {
    NotVisible,
    Visible,
}

/// The protection state that four decrypted bytes give: bits 0 to 2 of the
/// first byte; the other 29 bits are reserved and must be clear.
pub open spec fn protection_value(d: Seq<u8>) -> Option<ProtectionState> {
    if d.len() == 4 && d[0] <= 7 && d[1] == 0 && d[2] == 0 && d[3] == 0 {
        Some(
            ProtectionState { user: d[0] & 1 == 1, host: d[0] & 2 == 2, vbe: d[0] & 4 == 4 },
        )
    } else {
        None
    }
}

/// What decoding a `CMG` field whose encrypted bytes are `enc` reports.
pub open spec fn protection_outcome(
    enc: Seq<u8>,
    r: Result<ProtectionState, error::ProtectionState>,
) -> bool {
    match decrypted(enc) {
        None => r matches Err(error::ProtectionState::Decrypt(e)) && decrypt_fails_with(enc, e),
        Some(d) => if d.len() != 4 {
            r == Err::<ProtectionState, error::ProtectionState>(
                error::ProtectionState::DataLength(d.len() as usize),
            )
        } else if protection_value(d) is None {
            r matches Err(error::ProtectionState::ReservedBits(b)) && b@ == d
        } else {
            r == Ok::<ProtectionState, error::ProtectionState>(protection_value(d).unwrap())
        },
    }
}

/// Decodes the encrypted bytes of a `CMG` field.
pub fn decode_protection_state(encrypted: &[u8]) -> (r: Result<ProtectionState, error::ProtectionState>)
    ensures
        protection_outcome(encrypted@, r),
{
    let data = match decode(encrypted) {
        Ok(d) => d,
        Err(e) => return Err(error::ProtectionState::Decrypt(e)),
    };
    if data.len() != 4 {
        return Err(error::ProtectionState::DataLength(data.len()));
    }
    if data[0] > 7 || data[1] != 0 || data[2] != 0 || data[3] != 0 {
        let bytes = [data[0], data[1], data[2], data[3]];
        assert(bytes@ =~= data@);
        return Err(error::ProtectionState::ReservedBits(bytes));
    }
    Ok(ProtectionState { user: data[0] & 1 == 1, host: data[0] & 2 == 2, vbe: data[0] & 4 == 4 })
}

/// The password that decrypted bytes give, or `None` where they give none:
/// one null byte for no password, a 29 byte hash record, or else a null
/// terminated plain text.
pub open spec fn password_value(d: Seq<u8>) -> Option<PasswordModel> {
    if d.len() == 0 {
        None
    } else if d.len() == 1 {
        if d[0] == 0 {
            Some(PasswordModel::NoPassword)
        } else {
            None
        }
    } else if d.len() == 29 {
        if record_valid(d) {
            Some(PasswordModel::Hash(salt_array(record_salt(d)), hash_array(record_hash(d))))
        } else {
            None
        }
    } else if d.last() == 0 {
        Some(PasswordModel::Plain(lossy_utf8(d.drop_last())))
    } else {
        None
    }
}

/// The array that holds four bytes.
pub open spec fn salt_array(s: Seq<u8>) -> Salt {
    [s[0], s[1], s[2], s[3]]
}

/// The array that holds twenty bytes.
pub open spec fn hash_array(s: Seq<u8>) -> password_hash::Hash {
    [
        s[0], s[1], s[2], s[3], s[4], s[5], s[6], s[7], s[8], s[9],
        s[10], s[11], s[12], s[13], s[14], s[15], s[16], s[17], s[18], s[19],
    ]
}

/// What decoding a `DPB` field whose encrypted bytes are `enc` reports.
pub open spec fn password_outcome(enc: Seq<u8>, r: Result<Password, error::Password>) -> bool {
    match decrypted(enc) {
        None => r matches Err(error::Password::Decrypt(e)) && decrypt_fails_with(enc, e),
        Some(d) => if d.len() == 0 {
            r == Err::<Password, error::Password>(error::Password::NoData)
        } else if d.len() == 1 && d[0] != 0 {
            r == Err::<Password, error::Password>(
                error::Password::NoPassword(error::PasswordNone::NotNull(d[0])),
            )
        } else if d.len() == 29 && !record_valid(d) {
            r matches Err(error::Password::Hash(e)) && decodes_as(
                d,
                Err::<(Salt, password_hash::Hash), error::PasswordHash>(e),
            )
        } else if d.len() != 1 && d.len() != 29 && d.last() != 0 {
            r == Err::<Password, error::Password>(
                error::Password::PlainText(error::PasswordPlain::Terminator(d.last())),
            )
        } else {
            r matches Ok(p) && Some(p@) == password_value(d)
        },
    }
}

/// Decodes the encrypted bytes of a `DPB` field.
pub fn decode_password(encrypted: &[u8]) -> (r: Result<Password, error::Password>)
    ensures
        password_outcome(encrypted@, r),
{
    let data = match decode(encrypted) {
        Ok(d) => d,
        Err(e) => return Err(error::Password::Decrypt(e)),
    };
    let n = data.len();
    if n == 0 {
        return Err(error::Password::NoData);
    }
    if n == 1 {
        if data[0] != 0 {
            return Err(error::Password::NoPassword(error::PasswordNone::NotNull(data[0])));
        }
        return Ok(Password::NoPassword);
    }
    if n == 29 {
        return match password_hash::decode(data.as_slice()) {
            Ok((salt, hash)) => {
                assert(salt == salt_array(record_salt(data@)));
                assert(hash == hash_array(record_hash(data@)));
                Ok(Password::Hash(salt, hash))
            },
            Err(e) => Err(error::Password::Hash(e)),
        };
    }
    if data[n - 1] != 0 {
        return Err(error::Password::PlainText(error::PasswordPlain::Terminator(data[n - 1])));
    }
    let (text, _) = data.as_slice().split_at(n - 1);
    assert(text@ =~= data@.drop_last());
    Ok(Password::Plain(string_from_utf8_lossy(text)))
}

/// The visibility that decrypted bytes give: one byte, `0x00` or `0xFF`.
pub open spec fn visibility_value(d: Seq<u8>) -> Option<Visibility> {
    if d.len() == 1 && d[0] == 0 {
        Some(Visibility::NotVisible)
    } else if d.len() == 1 && d[0] == 0xff {
        Some(Visibility::Visible)
    } else {
        None
    }
}

/// What decoding a `GC` field whose encrypted bytes are `enc` reports.
pub open spec fn visibility_outcome(enc: Seq<u8>, r: Result<Visibility, error::Visibility>) -> bool {
    match decrypted(enc) {
        None => r matches Err(error::Visibility::Decrypt(e)) && decrypt_fails_with(enc, e),
        Some(d) => if d.len() != 1 {
            r == Err::<Visibility, error::Visibility>(error::Visibility::DataLength(d.len() as usize))
        } else if visibility_value(d) is None {
            r == Err::<Visibility, error::Visibility>(error::Visibility::InvalidState(d[0]))
        } else {
            r == Ok::<Visibility, error::Visibility>(visibility_value(d).unwrap())
        },
    }
}

/// Decodes the encrypted bytes of a `GC` field.
pub fn decode_visibility(encrypted: &[u8]) -> (r: Result<Visibility, error::Visibility>)
    ensures
        visibility_outcome(encrypted@, r),
{
    let data = match decode(encrypted) {
        Ok(d) => d,
        Err(e) => return Err(error::Visibility::Decrypt(e)),
    };
    if data.len() != 1 {
        return Err(error::Visibility::DataLength(data.len()));
    }
    if data[0] == 0x00 {
        Ok(Visibility::NotVisible)
    } else if data[0] == 0xff {
        Ok(Visibility::Visible)
    } else {
        Err(error::Visibility::InvalidState(data[0]))
    }
}

} // verus!
