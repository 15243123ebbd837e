//! The credential vault.
//!
//! A password is kept as `nonce ‖ salt ‖ ciphertext` in base64. The key that
//! seals it is derived from the master key and the salt by scrypt, lives for
//! one operation, and is zeroed before the operation returns. The primitives
//! are those of the crates `scrypt`, `aes-gcm`, `rand`, `zeroize` and `base64`.

use vstd::prelude::*;
use vstd::utf8::encode_utf8;
use crate::error::{ConfigFault, CryptoFault, SessionError, TextFault};
use crate::wire::{copy_range, push_all};

verus! {

/// The length of the nonce of a secret.
pub const NONCE_LEN: usize = 12;

/// The length of the salt of a secret.
pub const SALT_LEN: usize = 16;

/// The length of a derived key.
pub const KEY_LEN: usize = 32;

/// The length of the tag that the cipher appends.
pub const TAG_LEN: usize = 16;

/// The longest plaintext that the cipher takes.
pub const MAX_PLAINTEXT_LEN: u64 = 0x10_0000_0000;

pub struct SecurityUtil;

/// A secret as it is stored: the nonce and the salt under which it was
/// sealed, and the ciphertext with its tag.
#[derive(Debug, PartialEq, Eq)]
pub struct EncryptedSecret {
    pub nonce: [u8; 12],
    pub salt: [u8; 16],
    pub ciphertext: Vec<u8>,
}

/// A key for the cipher: 32 bytes that serve one operation and are zeroed
/// by it.
pub struct DerivedKey {
    bytes: [u8; 32],
}

/// The character that stands for the six-bit value `v` in the standard
/// base64 alphabet.
pub open spec fn base64_symbol(v: int) -> char {
    if v < 26 {
        (65 + v) as char
    } else if v < 52 {
        (71 + v) as char
    } else if v < 62 {
        (v - 4) as char
    } else if v == 62 {
        '+'
    } else {
        '/'
    }
}

/// The base64 text of a byte string: standard alphabet, three bytes to four
/// characters, the last group padded with `=`.
pub open spec fn base64_text(bytes: Seq<u8>) -> Seq<char>
    decreases bytes.len(),
{
    if bytes.len() == 0 {
        Seq::empty()
    } else if bytes.len() == 1 {
        let a = bytes[0] as int;
        seq![base64_symbol(a / 4), base64_symbol(a % 4 * 16), '=', '=']
    } else if bytes.len() == 2 {
        let a = bytes[0] as int;
        let b = bytes[1] as int;
        seq![
            base64_symbol(a / 4),
            base64_symbol(a % 4 * 16 + b / 16),
            base64_symbol(b % 16 * 4),
            '=',
        ]
    } else {
        let a = bytes[0] as int;
        let b = bytes[1] as int;
        let c = bytes[2] as int;
        seq![
            base64_symbol(a / 4),
            base64_symbol(a % 4 * 16 + b / 16),
            base64_symbol(b % 16 * 4 + c / 64),
            base64_symbol(c % 64),
        ] + base64_text(bytes.skip(3))
    }
}

/// The bytes that a base64 text stands for, where it is the text of any.
pub open spec fn base64_bytes(text: Seq<char>) -> Option<Seq<u8>> {
    if exists|bytes: Seq<u8>| #[trigger] base64_text(bytes) == text {
        Some(choose|bytes: Seq<u8>| #[trigger] base64_text(bytes) == text)
    } else {
        None
    }
}

/// Whether the base64 text of so many bytes has a length that fits.
pub open spec fn base64_fits(len: nat) -> bool {
    (len + 2) / 3 * 4 <= usize::MAX
}

/// The key that scrypt derives from a master key and a salt, with the
/// work factors that the `scrypt` crate recommends and 32 bytes of output.
pub uninterp spec fn scrypt_key(master_key: Seq<u8>, salt: Seq<u8>) -> Seq<u8>;

/// The ciphertext and tag that AES-256-GCM gives for a plaintext under a
/// key and a nonce, without associated data.
pub uninterp spec fn aes_gcm_sealed(key: Seq<u8>, nonce: Seq<u8>, plaintext: Seq<u8>) -> Seq<u8>;

/// The plaintext that AES-256-GCM gives for a ciphertext with its tag under
/// a key and a nonce, or nothing where the tag does not verify.
pub uninterp spec fn aes_gcm_opened(key: Seq<u8>, nonce: Seq<u8>, ciphertext: Seq<u8>) -> Option<
    Seq<u8>,
>;

/// Whether a plaintext can be sealed: the cipher takes it, and the
/// ciphertext with its tag fits in memory.
pub open spec fn encryptable(plaintext: Seq<u8>) -> bool {
    plaintext.len() <= MAX_PLAINTEXT_LEN && plaintext.len() + TAG_LEN <= usize::MAX
}

/// The ciphertext of a plaintext under the key derived from the master key
/// and the salt.
pub open spec fn encrypted(
    plaintext: Seq<u8>,
    master_key: Seq<u8>,
    nonce: Seq<u8>,
    salt: Seq<u8>,
) -> Seq<u8> {
    aes_gcm_sealed(scrypt_key(master_key, salt), nonce, plaintext)
}

/// The plaintext of a ciphertext under a key, or nothing where the nonce
/// has not 12 bytes or the tag does not verify.
pub open spec fn opened_under(key: Seq<u8>, nonce: Seq<u8>, ciphertext: Seq<u8>) -> Option<
    Seq<u8>,
> {
    if nonce.len() == NONCE_LEN {
        aes_gcm_opened(key, nonce, ciphertext)
    } else {
        None
    }
}

/// The plaintext of a ciphertext under the key derived from the master key
/// and the salt.
pub open spec fn decrypted(
    ciphertext: Seq<u8>,
    master_key: Seq<u8>,
    nonce: Seq<u8>,
    salt: Seq<u8>,
) -> Option<Seq<u8>> {
    opened_under(scrypt_key(master_key, salt), nonce, ciphertext)
}

/// What a stored secret gives under a master key: the text is decoded,
/// split into nonce, salt and ciphertext, and decrypted.
pub open spec fn opened_secret(text: Seq<char>, master_key: Seq<u8>) -> Result<
    Seq<u8>,
    SessionError,
> {
    match base64_bytes(text) {
        None => Err(SessionError::Decode(TextFault::InvalidBase64)),
        Some(bytes) => if bytes.len() < NONCE_LEN + SALT_LEN {
            Err(SessionError::Decode(TextFault::SecretTooShort))
        } else {
            match decrypted(
                bytes.skip(28),
                master_key,
                bytes.subrange(0, 12),
                bytes.subrange(12, 28),
            ) {
                Some(plaintext) => Ok(plaintext),
                None => Err(SessionError::Crypto(CryptoFault::Open)),
            }
        },
    }
}

#[verifier::external_type_specification]
#[verifier::external_body]
pub struct ExBase64DecodeError(base64::DecodeError);

#[verifier::external_type_specification]
#[verifier::external_body]
pub struct ExAeadError(aes_gcm::Error);

#[verifier::external_type_specification]
#[verifier::external_body]
pub struct ExOsError(rand::rand_core::OsError);

/// Calls `Engine::encode` on the `STANDARD` engine of `base64`, which writes
/// the standard alphabet with padding. The call panics where the length of
/// the text overflows, which the `requires` leaves out.
#[verifier::external_body]
fn base64_encode_standard(bytes: &[u8]) -> (text: String)
    requires
        base64_fits(bytes@.len()),
    ensures
        text@ == base64_text(bytes@),
{
    base64::Engine::encode(&base64::engine::general_purpose::STANDARD, bytes)
}

/// Calls `Engine::decode` on the `STANDARD` engine of `base64`, which takes
/// the standard alphabet, wants canonical padding and refuses trailing bits:
/// it accepts exactly the texts that encoding gives, and returns the bytes
/// that were encoded.
#[verifier::external_body]
fn base64_decode_standard(text: &str) -> (r: Result<Vec<u8>, base64::DecodeError>)
    ensures
        match r {
            Ok(bytes) => base64_text(bytes@) == text@,
            Err(_) => forall|bytes: Seq<u8>| #[trigger] base64_text(bytes) != text@,
        },
{
    base64::Engine::decode(&base64::engine::general_purpose::STANDARD, text)
}

/// Calls `TryRngCore::try_fill_bytes` on `OsRng` of `rand` for a fresh
/// array. The bytes come from the system: nothing is claimed of them.
#[verifier::external_body]
fn random_bytes<const N: usize>() -> Result<[u8; N], rand::rand_core::OsError> {
    let mut out = [0u8; N];
    rand::TryRngCore::try_fill_bytes(&mut rand::rngs::OsRng, &mut out)?;
    Ok(out)
}

/// Calls `Zeroize::zeroize` of `zeroize`, which overwrites every byte of the
/// array with zero.
#[verifier::external_body]
fn scrub(key: &mut [u8; 32])
    ensures
        forall|i: int| 0 <= i < 32 ==> #[trigger] final(key)@[i] == 0u8,
{
    zeroize::Zeroize::zeroize(key)
}

/// Calls `Zeroize::zeroize` of `zeroize` on a vector, which overwrites its
/// bytes with zero and leaves the vector empty.
#[verifier::external_body]
pub(crate) fn scrub_vec(bytes: &mut Vec<u8>)
    ensures
        final(bytes)@.len() == 0,
{
    zeroize::Zeroize::zeroize(bytes)
}

/// Calls `encrypt` of `Aes256Gcm` in `aes-gcm` with the key and the nonce
/// given and no associated data; a nonce of another length than 12 would
/// make the call panic. The cipher refuses a plaintext of more than
/// 2^36 bytes and nothing else; the result is the ciphertext followed by a
/// tag of 16 bytes, and decrypting it under the same key and nonce gives the
/// plaintext back.
#[verifier::external_body]
fn aes_gcm_seal(key: &[u8; 32], nonce: &[u8], plaintext: &[u8]) -> (r: Result<
    Vec<u8>,
    aes_gcm::Error,
>)
    requires
        nonce@.len() == NONCE_LEN,
        plaintext@.len() + TAG_LEN <= usize::MAX,
    ensures
        r is Ok <==> plaintext@.len() <= MAX_PLAINTEXT_LEN,
        r matches Ok(sealed) ==> {
            &&& sealed@ == aes_gcm_sealed(key@, nonce@, plaintext@)
            &&& sealed@.len() == plaintext@.len() + TAG_LEN
            &&& aes_gcm_opened(key@, nonce@, sealed@) == Some(plaintext@)
        },
{
    let cipher: aes_gcm::Aes256Gcm = aes_gcm::KeyInit::new(
        aes_gcm::Key::<aes_gcm::Aes256Gcm>::from_slice(key),
    );
    aes_gcm::aead::Aead::encrypt(&cipher, aes_gcm::Nonce::from_slice(nonce), plaintext)
}

/// Calls `decrypt` of `Aes256Gcm` in `aes-gcm` with the key and the nonce
/// given and no associated data; a nonce of another length than 12 would
/// make the call panic.
#[verifier::external_body]
fn aes_gcm_open(key: &[u8; 32], nonce: &[u8], ciphertext: &[u8]) -> (r: Result<
    Vec<u8>,
    aes_gcm::Error,
>)
    requires
        nonce@.len() == NONCE_LEN,
    ensures
        match r {
            Ok(plaintext) => aes_gcm_opened(key@, nonce@, ciphertext@) == Some(plaintext@),
            Err(_) => aes_gcm_opened(key@, nonce@, ciphertext@) is None,
        },
{
    let cipher: aes_gcm::Aes256Gcm = aes_gcm::KeyInit::new(
        aes_gcm::Key::<aes_gcm::Aes256Gcm>::from_slice(key),
    );
    aes_gcm::aead::Aead::decrypt(&cipher, aes_gcm::Nonce::from_slice(nonce), ciphertext)
}

impl EncryptedSecret {
    /// The bytes of a stored secret: nonce, salt, ciphertext, in this order.
    pub open spec fn layout(self) -> Seq<u8> {
        self.nonce@ + self.salt@ + self.ciphertext@
    }

    /// Where the parts of a secret lie among its bytes.
    pub proof fn lemma_layout(self)
        ensures
            self.layout().len() == NONCE_LEN + SALT_LEN + self.ciphertext@.len(),
            self.layout().subrange(0, 12) == self.nonce@,
            self.layout().subrange(12, 28) == self.salt@,
            self.layout().skip(28) == self.ciphertext@,
    {
        assert(self.nonce@.len() == 12);
        assert(self.salt@.len() == 16);
        assert(self.layout().subrange(0, 12) =~= self.nonce@);
        assert(self.layout().subrange(12, 28) =~= self.salt@);
        assert(self.layout().skip(28) =~= self.ciphertext@);
    }

    /// Writes the secret as bytes.
    pub fn to_bytes(&self) -> (bytes: Vec<u8>)
        ensures
            bytes@ == self.layout(),
    {
        let mut bytes: Vec<u8> = Vec::new();
        push_all(&mut bytes, self.nonce.as_slice());
        push_all(&mut bytes, self.salt.as_slice());
        push_all(&mut bytes, self.ciphertext.as_slice());
        assert(bytes@ =~= self.layout());
        bytes
    }

    /// Reads a secret from bytes; fewer bytes than a nonce and a salt take
    /// are no secret.
    pub fn from_bytes(bytes: &[u8]) -> (r: Result<EncryptedSecret, SessionError>)
        ensures
            match r {
                Ok(secret) => secret.layout() == bytes@,
                Err(e) => e == SessionError::Decode(TextFault::SecretTooShort) && bytes@.len()
                    < NONCE_LEN + SALT_LEN,
            },
    {
        if bytes.len() < SALT_LEN + NONCE_LEN {
            return Err(SessionError::Decode(TextFault::SecretTooShort));
        }
        let mut nonce = [0u8; 12];
        let mut i: usize = 0;
        while i < NONCE_LEN
            invariant
                i <= NONCE_LEN,
                bytes@.len() >= NONCE_LEN + SALT_LEN,
                forall|j: int| 0 <= j < i ==> nonce@[j] == bytes@[j],
            decreases NONCE_LEN - i,
        {
            nonce[i] = bytes[i];
            i += 1;
        }
        let mut salt = [0u8; 16];
        let mut i: usize = 0;
        while i < SALT_LEN
            invariant
                i <= SALT_LEN,
                bytes@.len() >= NONCE_LEN + SALT_LEN,
                forall|j: int| 0 <= j < i ==> salt@[j] == bytes@[NONCE_LEN + j],
            decreases SALT_LEN - i,
        {
            salt[i] = bytes[NONCE_LEN + i];
            i += 1;
        }
        let ciphertext = copy_range(bytes, NONCE_LEN + SALT_LEN, bytes.len());
        let secret = EncryptedSecret { nonce, salt, ciphertext };
        assert(secret.layout() =~= bytes@);
        Ok(secret)
    }
}

impl DerivedKey {
    /// The bytes of the key.
    pub closed spec fn view(&self) -> Seq<u8> {
        self.bytes@
    }

    /// Whether every byte of the key is zero.
    pub open spec fn is_scrubbed(&self) -> bool {
        self@ == Seq::new(KEY_LEN as nat, |i: int| 0u8)
    }

    /// A key of the bytes given.
    pub fn from_bytes(bytes: [u8; 32]) -> (key: Self)
        ensures
            key@ == bytes@,
    {
        DerivedKey { bytes }
    }

    /// Whether every byte of the key is zero.
    pub fn is_zero(&self) -> (zero: bool)
        ensures
            zero == self.is_scrubbed(),
    {
        let mut i: usize = 0;
        while i < 32
            invariant
                i <= 32,
                self.bytes@.len() == 32,
                forall|j: int| 0 <= j < i ==> self.bytes@[j] == 0u8,
            decreases 32 - i,
        {
            if self.bytes[i] != 0 {
                return false;
            }
            i += 1;
        }
        assert(self.bytes@ =~= Seq::new(32, |i: int| 0u8));
        true
    }

    /// Seals a plaintext under the key and zeroes the key, whether the
    /// cipher took the plaintext or not.
    pub fn seal(&mut self, nonce: &[u8; 12], plaintext: &[u8]) -> (r: Result<
        Vec<u8>,
        SessionError,
    >)
        ensures
            final(self).is_scrubbed(),
            if encryptable(plaintext@) {
                &&& r matches Ok(sealed)
                &&& sealed@ == aes_gcm_sealed(old(self)@, nonce@, plaintext@)
                &&& sealed@.len() == plaintext@.len() + TAG_LEN
                &&& aes_gcm_opened(old(self)@, nonce@, sealed@) == Some(plaintext@)
            } else {
                r matches Err(e) && e == SessionError::Crypto(CryptoFault::Seal)
            },
    {
        let sealed = if plaintext.len() <= usize::MAX - TAG_LEN {
            match aes_gcm_seal(&self.bytes, nonce.as_slice(), plaintext) {
                Ok(sealed) => Ok(sealed),
                Err(_) => Err(SessionError::Crypto(CryptoFault::Seal)),
            }
        } else {
            Err(SessionError::Crypto(CryptoFault::Seal))
        };
        scrub(&mut self.bytes);
        assert(self.bytes@ =~= Seq::new(32, |i: int| 0u8));
        sealed
    }

    /// Opens a ciphertext under the key and zeroes the key, whether the
    /// ciphertext opened or not. A nonce of another length than 12 opens
    /// nothing.
    pub fn open(&mut self, nonce: &[u8], ciphertext: &[u8]) -> (r: Result<Vec<u8>, SessionError>)
        ensures
            final(self).is_scrubbed(),
            match opened_under(old(self)@, nonce@, ciphertext@) {
                Some(plaintext) => r matches Ok(v) && v@ == plaintext,
                None => r matches Err(e) && e == SessionError::Crypto(CryptoFault::Open),
            },
    {
        let opened = if nonce.len() == NONCE_LEN {
            match aes_gcm_open(&self.bytes, nonce, ciphertext) {
                Ok(plaintext) => Ok(plaintext),
                Err(_) => Err(SessionError::Crypto(CryptoFault::Open)),
            }
        } else {
            Err(SessionError::Crypto(CryptoFault::Open))
        };
        scrub(&mut self.bytes);
        assert(self.bytes@ =~= Seq::new(32, |i: int| 0u8));
        opened
    }
}

impl SecurityUtil {
    /// Calls `scrypt` of the `scrypt` crate with `Params::RECOMMENDED` for
    /// 32 bytes of output, a length that the function always accepts.
    #[verifier::external_body]
    fn derive_key(master_key: &[u8], salt: &[u8]) -> (key: DerivedKey)
        ensures
            key@ == scrypt_key(master_key@, salt@),
    {
        let mut bytes = [0u8; 32];
        scrypt::scrypt(master_key, salt, &scrypt::Params::RECOMMENDED, &mut bytes)
            .expect("scrypt should not fail");
        DerivedKey { bytes }
    }

    pub fn new() -> Self {
        SecurityUtil
    }

    /// Writes bytes as base64 text.
    pub fn base64_encode(&self, bytes: &[u8]) -> (r: Result<String, SessionError>)
        ensures
            match r {
                Ok(text) => text@ == base64_text(bytes@) && base64_fits(bytes@.len()),
                Err(e) => e == SessionError::Decode(TextFault::TooLong) && !base64_fits(
                    bytes@.len(),
                ),
            },
    {
        let len = bytes.len();
        let groups: usize = if len % 3 == 0 {
            len / 3
        } else {
            len / 3 + 1
        };
        assert(groups == (len + 2) / 3);
        if groups > usize::MAX / 4 {
            return Err(SessionError::Decode(TextFault::TooLong));
        }
        Ok(base64_encode_standard(bytes))
    }

    /// Reads the bytes that a base64 text stands for.
    pub fn base64_decode(&self, text: &str) -> (r: Result<Vec<u8>, SessionError>)
        ensures
            match base64_bytes(text@) {
                Some(bytes) => r matches Ok(v) && v@ == bytes,
                None => r matches Err(e) && e == SessionError::Decode(TextFault::InvalidBase64),
            },
    {
        match base64_decode_standard(text) {
            Ok(bytes) => {
                proof {
                    lemma_base64_round_trip(bytes@);
                }
                Ok(bytes)
            },
            Err(_) => Err(SessionError::Decode(TextFault::InvalidBase64)),
        }
    }

    /// Reads the master key from the text that is kept of it. The text
    /// comes from the key file, which the caller reads.
    pub fn load_master_key(&self, text: &str) -> (r: Result<Vec<u8>, SessionError>)
        ensures
            match base64_bytes(text@) {
                Some(bytes) => r matches Ok(v) && v@ == bytes,
                None => r matches Err(e) && e == SessionError::Config(
                    ConfigFault::MasterKeyUnreadable,
                ),
            },
    {
        match self.base64_decode(text) {
            Ok(bytes) => Ok(bytes),
            Err(_) => Err(SessionError::Config(ConfigFault::MasterKeyUnreadable)),
        }
    }

    /// Writes the text that is kept of a master key: the base64 text of the
    /// bytes of the passphrase. The caller puts the text into the key file.
    pub fn write_master_key(&self, key: &str) -> (r: Result<String, SessionError>)
        ensures
            match r {
                Ok(text) => text@ == base64_text(encode_utf8(key@)) && base64_bytes(text@)
                    == Some(encode_utf8(key@)),
                Err(e) => e == SessionError::Decode(TextFault::TooLong) && !base64_fits(
                    encode_utf8(key@).len(),
                ),
            },
    {
        proof {
            lemma_base64_round_trip(encode_utf8(key@));
        }
        self.base64_encode(key.as_bytes())
    }

    /// Encrypts a plaintext with the nonce and the salt given. The key is
    /// derived, used once and zeroed.
    pub fn encrypt_with(
        plaintext: &[u8],
        master_key: &[u8],
        nonce: &[u8; 12],
        salt: &[u8; 16],
    ) -> (r: Result<Vec<u8>, SessionError>)
        ensures
            if encryptable(plaintext@) {
                &&& r matches Ok(sealed)
                &&& sealed@ == encrypted(plaintext@, master_key@, nonce@, salt@)
                &&& sealed@.len() == plaintext@.len() + TAG_LEN
                &&& decrypted(sealed@, master_key@, nonce@, salt@) == Some(plaintext@)
            } else {
                r matches Err(e) && e == SessionError::Crypto(CryptoFault::Seal)
            },
    {
        let mut key = Self::derive_key(master_key, salt.as_slice());
        key.seal(nonce, plaintext)
    }

    /// Draws a nonce and a salt from the system's source of randomness.
    pub fn draw_nonce_and_salt() -> (r: Result<([u8; 12], [u8; 16]), SessionError>)
        ensures
            r matches Err(e) ==> e == SessionError::Crypto(CryptoFault::Randomness),
    {
        let salt: [u8; 16] = match random_bytes::<16>() {
            Ok(salt) => salt,
            Err(_) => { return Err(SessionError::Crypto(CryptoFault::Randomness)); },
        };
        let nonce: [u8; 12] = match random_bytes::<12>() {
            Ok(nonce) => nonce,
            Err(_) => { return Err(SessionError::Crypto(CryptoFault::Randomness)); },
        };
        Ok((nonce, salt))
    }

    /// Encrypts a plaintext under a fresh random nonce and a fresh random
    /// salt, and returns the ciphertext with both. Whatever nonce and salt
    /// were drawn, decrypting the result under the same master key gives the
    /// plaintext back.
    pub fn encrypt_text(plaintext: &[u8], master_key: &[u8]) -> (r: Result<
        (Vec<u8>, [u8; 12], [u8; 16]),
        SessionError,
    >)
        ensures
            match r {
                Ok((sealed, nonce, salt)) => {
                    &&& encryptable(plaintext@)
                    &&& sealed@ == encrypted(plaintext@, master_key@, nonce@, salt@)
                    &&& sealed@.len() == plaintext@.len() + TAG_LEN
                    &&& decrypted(sealed@, master_key@, nonce@, salt@) == Some(plaintext@)
                },
                Err(e) => e == SessionError::Crypto(CryptoFault::Randomness) || (e
                    == SessionError::Crypto(CryptoFault::Seal) && !encryptable(plaintext@)),
            },
    {
        let (nonce, salt) = match Self::draw_nonce_and_salt() {
            Ok(drawn) => drawn,
            Err(e) => { return Err(e); },
        };
        match Self::encrypt_with(plaintext, master_key, &nonce, &salt) {
            Ok(sealed) => Ok((sealed, nonce, salt)),
            Err(e) => Err(e),
        }
    }

    /// Decrypts a ciphertext. Every failure is the same error, whether the
    /// key is wrong or a byte of the nonce, the salt or the ciphertext was
    /// changed.
    pub fn decrypt_text(
        ciphertext: &[u8],
        master_key: &[u8],
        nonce_bytes: &[u8],
        salt: &[u8],
    ) -> (r: Result<Vec<u8>, SessionError>)
        ensures
            match decrypted(ciphertext@, master_key@, nonce_bytes@, salt@) {
                Some(plaintext) => r matches Ok(v) && v@ == plaintext,
                None => r matches Err(e) && e == SessionError::Crypto(CryptoFault::Open),
            },
    {
        if nonce_bytes.len() != NONCE_LEN {
            return Err(SessionError::Crypto(CryptoFault::Open));
        }
        let mut key = Self::derive_key(master_key, salt);
        key.open(nonce_bytes, ciphertext)
    }

    /// Encrypts a plaintext and writes nonce, salt and ciphertext, in this
    /// order, as one base64 text. Decrypting the text under the same master
    /// key gives the plaintext back.
    pub fn encrypt_to_base64_string(&self, plain_text: &[u8], master_key: &[u8]) -> (r: Result<
        String,
        SessionError,
    >)
        ensures
            match r {
                Ok(text) => {
                    &&& encryptable(plain_text@)
                    &&& base64_bytes(text@) matches Some(bytes)
                    &&& bytes.len() == plain_text@.len() + 44
                    &&& bytes.skip(28) == encrypted(
                        plain_text@,
                        master_key@,
                        bytes.subrange(0, 12),
                        bytes.subrange(12, 28),
                    )
                    &&& opened_secret(text@, master_key@) == Ok::<Seq<u8>, SessionError>(
                        plain_text@,
                    )
                },
                Err(e) => {
                    ||| e == SessionError::Crypto(CryptoFault::Randomness)
                    ||| e == SessionError::Crypto(CryptoFault::Seal) && !encryptable(plain_text@)
                    ||| e == SessionError::Decode(TextFault::TooLong) && !base64_fits(
                        plain_text@.len() + 44,
                    )
                },
            },
    {
        let (cipher_text, nonce_bytes, salt) = match Self::encrypt_text(plain_text, master_key) {
            Ok(parts) => parts,
            Err(e) => { return Err(e); },
        };
        let secret = EncryptedSecret { nonce: nonce_bytes, salt, ciphertext: cipher_text };
        let bytes = secret.to_bytes();
        proof {
            secret.lemma_layout();
            lemma_base64_round_trip(bytes@);
        }
        self.base64_encode(bytes.as_slice())
    }

    /// Decodes a stored secret and decrypts it.
    pub fn decrypt_from_base64_string(&self, cipher_text: &str, master_key: &[u8]) -> (r: Result<
        Vec<u8>,
        SessionError,
    >)
        ensures
            match opened_secret(cipher_text@, master_key@) {
                Ok(plaintext) => r matches Ok(v) && v@ == plaintext,
                Err(e) => r matches Err(x) && x == e,
            },
    {
        let cipher_text_bytes = match self.base64_decode(cipher_text) {
            Ok(bytes) => bytes,
            Err(e) => { return Err(e); },
        };
        let secret = match EncryptedSecret::from_bytes(cipher_text_bytes.as_slice()) {
            Ok(secret) => secret,
            Err(e) => { return Err(e); },
        };
        proof {
            secret.lemma_layout();
        }
        Self::decrypt_text(
            secret.ciphertext.as_slice(),
            master_key,
            secret.nonce.as_slice(),
            secret.salt.as_slice(),
        )
    }
}

/// Different six-bit values have different symbols, and none is the pad.
pub proof fn lemma_base64_symbol_injective(v: int, w: int)
    requires
        0 <= v < 64,
        0 <= w < 64,
    ensures
        base64_symbol(v) == base64_symbol(w) ==> v == w,
        base64_symbol(v) != '=',
{
    let x = base64_symbol(v);
    let y = base64_symbol(w);
    assert(x as int == if v < 26 {
        65 + v
    } else if v < 52 {
        71 + v
    } else if v < 62 {
        v - 4
    } else if v == 62 {
        43
    } else {
        47
    });
    assert(y as int == if w < 26 {
        65 + w
    } else if w < 52 {
        71 + w
    } else if w < 62 {
        w - 4
    } else if w == 62 {
        43
    } else {
        47
    });
    assert('=' as int == 61);
}

/// The base64 text of `n` bytes has four characters for every three bytes,
/// the last group filled up.
pub proof fn lemma_base64_text_len(bytes: Seq<u8>)
    ensures
        base64_text(bytes).len() == (bytes.len() + 2) / 3 * 4,
    decreases bytes.len(),
{
    if bytes.len() >= 3 {
        lemma_base64_text_len(bytes.skip(3));
    }
}

/// Two byte strings with the same base64 text are the same.
pub proof fn lemma_base64_text_injective(a: Seq<u8>, b: Seq<u8>)
    requires
        base64_text(a) == base64_text(b),
    ensures
        a == b,
    decreases a.len(),
{
    let ta = base64_text(a);
    let tb = base64_text(b);
    lemma_base64_text_len(a);
    lemma_base64_text_len(b);
    if a.len() == 0 || b.len() == 0 {
        assert(a =~= b);
    } else {
        let a0 = a[0] as int;
        let b0 = b[0] as int;
        lemma_base64_symbol_injective(a0 / 4, b0 / 4);
        assert(ta[0] == base64_symbol(a0 / 4));
        assert(tb[0] == base64_symbol(b0 / 4));
        if a.len() == 1 {
            lemma_base64_symbol_injective(a0 % 4 * 16, a0 % 4 * 16);
            assert(ta[2] == '=');
            if b.len() == 1 {
                lemma_base64_symbol_injective(a0 % 4 * 16, b0 % 4 * 16);
                assert(ta[1] == base64_symbol(a0 % 4 * 16));
                assert(tb[1] == base64_symbol(b0 % 4 * 16));
                assert(a =~= b);
            } else {
                let b1 = b[1] as int;
                if b.len() == 2 {
                    lemma_base64_symbol_injective(b1 % 16 * 4, b1 % 16 * 4);
                    assert(tb[2] == base64_symbol(b1 % 16 * 4));
                } else {
                    let b2 = b[2] as int;
                    lemma_base64_symbol_injective(b1 % 16 * 4 + b2 / 64, 0);
                    assert(tb[2] == base64_symbol(b1 % 16 * 4 + b2 / 64));
                }
                assert(false);
            }
        } else if a.len() == 2 {
            let a1 = a[1] as int;
            assert(ta[3] == '=');
            lemma_base64_symbol_injective(a1 % 16 * 4, 0);
            assert(ta[2] == base64_symbol(a1 % 16 * 4));
            if b.len() == 1 {
                assert(tb[2] == '=');
                assert(false);
            } else {
                let b1 = b[1] as int;
                lemma_base64_symbol_injective(a0 % 4 * 16 + a1 / 16, b0 % 4 * 16 + b1 / 16);
                assert(ta[1] == base64_symbol(a0 % 4 * 16 + a1 / 16));
                assert(tb[1] == base64_symbol(b0 % 4 * 16 + b1 / 16));
                if b.len() == 2 {
                    lemma_base64_symbol_injective(a1 % 16 * 4, b1 % 16 * 4);
                    assert(tb[2] == base64_symbol(b1 % 16 * 4));
                    assert(a =~= b);
                } else {
                    let b2 = b[2] as int;
                    lemma_base64_symbol_injective(b2 % 64, 0);
                    assert(tb[3] == base64_symbol(b2 % 64));
                    assert(false);
                }
            }
        } else {
            let a1 = a[1] as int;
            let a2 = a[2] as int;
            lemma_base64_symbol_injective(a2 % 64, 0);
            lemma_base64_symbol_injective(a1 % 16 * 4 + a2 / 64, 0);
            assert(ta[2] == base64_symbol(a1 % 16 * 4 + a2 / 64));
            assert(ta[3] == base64_symbol(a2 % 64));
            if b.len() == 1 {
                assert(tb[2] == '=');
                assert(false);
            } else if b.len() == 2 {
                assert(tb[3] == '=');
                assert(false);
            } else {
                let b1 = b[1] as int;
                let b2 = b[2] as int;
                lemma_base64_symbol_injective(a0 % 4 * 16 + a1 / 16, b0 % 4 * 16 + b1 / 16);
                lemma_base64_symbol_injective(a1 % 16 * 4 + a2 / 64, b1 % 16 * 4 + b2 / 64);
                lemma_base64_symbol_injective(a2 % 64, b2 % 64);
                assert(ta[1] == base64_symbol(a0 % 4 * 16 + a1 / 16));
                assert(tb[1] == base64_symbol(b0 % 4 * 16 + b1 / 16));
                assert(tb[2] == base64_symbol(b1 % 16 * 4 + b2 / 64));
                assert(tb[3] == base64_symbol(b2 % 64));
                assert(a0 == b0 && a1 == b1 && a2 == b2);
                let ra = base64_text(a.skip(3));
                let rb = base64_text(b.skip(3));
                assert(ra =~= ta.skip(4));
                assert(rb =~= tb.skip(4));
                lemma_base64_text_injective(a.skip(3), b.skip(3));
                assert(a =~= b) by {
                    assert forall|i: int| 0 <= i < a.len() implies a[i] == b[i] by {
                        if i >= 3 {
                            assert(a[i] == a.skip(3)[i - 3]);
                            assert(b[i] == b.skip(3)[i - 3]);
                        }
                    }
                    assert(a.skip(3).len() == b.skip(3).len());
                }
            }
        }
    }
}

/// Decoding the base64 text of a byte string gives the byte string back.
pub proof fn lemma_base64_round_trip(bytes: Seq<u8>)
    ensures
        base64_bytes(base64_text(bytes)) == Some(bytes),
{
    let text = base64_text(bytes);
    let found = choose|other: Seq<u8>| #[trigger] base64_text(other) == text;
    lemma_base64_text_injective(found, bytes);
}

} // verus!
