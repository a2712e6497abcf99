//! Recovering a hashed project password from a list of candidates.
use vstd::prelude::*;
use vstd::string::StringSliceAdditionalSpecFns;
use crate::password_hash::{password_match_hash, sha1_digest};
use crate::project::fields::PasswordModel;
use crate::project::Password;

verus! {

/// Candidate `w` hashes, with `salt`, to `hash`.
pub open spec fn cracks(w: &str, salt: Seq<u8>, hash: Seq<u8>) -> bool {
    sha1_digest(w.spec_bytes() + salt)@ == hash
}

/// The first candidate that matches is the one at `i`.
pub open spec fn first_crack(words: Seq<&str>, salt: Seq<u8>, hash: Seq<u8>, i: int) -> bool {
    &&& 0 <= i < words.len()
    &&& cracks(words[i], salt, hash)
    &&& forall|j: int| 0 <= j < i ==> !cracks(#[trigger] words[j], salt, hash)
}

/// `w` is the first candidate that matches.
pub open spec fn solved_by(words: Seq<&str>, salt: Seq<u8>, hash: Seq<u8>, w: Seq<char>) -> bool {
    exists|i: int| #[trigger] first_crack(words, salt, hash, i) && w == words[i]@
}

/// Tries each candidate in turn against a hashed password, and returns the
/// first that matches. A password stored otherwise than hashed gives `None`.
pub fn try_solve_password(p: &Password, words: &[&str]) -> (r: Option<String>)
    ensures
        match p@ {
            PasswordModel::Hash(salt, hash) => match r {
                Some(w) => solved_by(words@, salt@, hash@, w@),
                None => forall|i: int| 0 <= i < words@.len() ==> !cracks(#[trigger] words@[i], salt@, hash@),
            },
            _ => r is None,
        },
{
    match p {
        Password::Hash(salt_ref, hash_ref) => {
            let salt: [u8; 4] = *salt_ref;
            let hash: [u8; 20] = *hash_ref;
            let mut i: usize = 0;
            while i < words.len()
                invariant
                    i <= words@.len(),
                    p@ == PasswordModel::Hash(salt, hash),
                    forall|j: int| 0 <= j < i ==> !cracks(#[trigger] words@[j], salt@, hash@),
                decreases words@.len() - i,
            {
                let w: &str = words[i];
                if password_match_hash(w, salt, hash) {
                    let found = w.to_owned();
                    assert(first_crack(words@, salt@, hash@, i as int) && found@ == words@[i as int]@);
                    assert(solved_by(words@, salt@, hash@, found@));
                    return Some(found);
                }
                i += 1;
            }
            None
        },
        _ => None,
    }
}

} // verus!
