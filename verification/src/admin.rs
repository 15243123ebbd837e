//! What the administrator's tool decides: how an admin enters the store,
//! and what is kept of a master key that was typed in.

use vstd::prelude::*;
use vstd::utf8::encode_utf8;
use crate::configuration::CredentialStore;
use crate::error::{ConfigFault, CryptoFault, SessionError, TextFault};
use crate::security::{
    base64_bytes, base64_fits, base64_text, encryptable, opened_secret, scrub_vec, SecurityUtil,
};
use crate::text::str_eq;

verus! {

pub struct User;

pub struct MasterKey;

/// The admins that a store holds, none where there is no store yet.
pub open spec fn admins_of(store: Option<CredentialStore>) -> Map<Seq<char>, Seq<char>> {
    match store {
        Some(existing) => existing@,
        None => Map::empty(),
    }
}

impl User {
    /// Encrypts the password of an admin under the master key and enters it
    /// in the store, in place of the password that the admin had; without a
    /// store, a new one is made. The other admins stay as they are, and the
    /// secret entered decrypts to the password. The master key has served
    /// when the call returns: it is scrubbed and left empty.
    pub fn set_user(
        store: Option<CredentialStore>,
        master_key: &mut Vec<u8>,
        user: &str,
        password: &str,
    ) -> (r: Result<CredentialStore, SessionError>)
        ensures
            final(master_key)@.len() == 0,
            match r {
                Ok(updated) => {
                    &&& updated@.contains_key(user@)
                    &&& updated@ == admins_of(store).insert(user@, updated@[user@])
                    &&& opened_secret(updated@[user@], old(master_key)@) == Ok::<
                        Seq<u8>,
                        SessionError,
                    >(encode_utf8(password@))
                },
                Err(e) => {
                    ||| e == SessionError::Crypto(CryptoFault::Randomness)
                    ||| e == SessionError::Crypto(CryptoFault::Seal) && !encryptable(
                        encode_utf8(password@),
                    )
                    ||| e == SessionError::Decode(TextFault::TooLong) && !base64_fits(
                        encode_utf8(password@).len() + 44,
                    )
                },
            },
    {
        let sealed = SecurityUtil::new().encrypt_to_base64_string(
            password.as_bytes(),
            master_key.as_slice(),
        );
        scrub_vec(master_key);
        let secret = match sealed {
            Ok(secret) => secret,
            Err(e) => { return Err(e); },
        };
        let mut updated = match store {
            Some(existing) => existing,
            None => CredentialStore::new(),
        };
        updated.insert(user.to_owned(), secret);
        Ok(updated)
    }
}

impl MasterKey {
    /// Takes the master key as it was typed twice, and gives the text that
    /// is kept of it. Two entries that differ are refused.
    pub fn set_master_key(first: &str, second: &str) -> (r: Result<String, SessionError>)
        ensures
            match r {
                Ok(text) => first@ == second@ && text@ == base64_text(encode_utf8(first@))
                    && base64_bytes(text@) == Some(encode_utf8(first@)),
                Err(e) => if first@ != second@ {
                    e == SessionError::Config(ConfigFault::PassphraseMismatch)
                } else {
                    e == SessionError::Decode(TextFault::TooLong) && !base64_fits(
                        encode_utf8(first@).len(),
                    )
                },
            },
    {
        if !str_eq(first, second) {
            return Err(SessionError::Config(ConfigFault::PassphraseMismatch));
        }
        SecurityUtil::new().write_master_key(first)
    }
}

} // verus!
