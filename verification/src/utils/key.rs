use vstd::prelude::*;
use argon2::PasswordHasher;
use rand_core::RngCore;
use crate::utils::encoding::{base64_encode_unpadded, base64_text_unpadded};

verus! {

/// Why no key could be derived.
#[derive(Debug, Clone, Copy, PartialEq, Eq, Structural)]
pub enum KeyError {
    /// The salt is not a salt string: it was rejected before any hashing.
    MalformedSalt,
    /// The hashing backend gave no digest of the wanted length.
    Derivation,
    /// The random source gave no bytes for a fresh salt.
    Entropy,
}

/// The characters that a salt string may hold.
pub open spec fn salt_char(c: char) -> bool {
    ('A' <= c && c <= 'Z') || ('a' <= c && c <= 'z') || ('0' <= c && c <= '9') || c == '/' || c
        == '+' || c == '.' || c == '-'
}

/// A salt string has 4 to 64 characters, all of them salt characters.
pub open spec fn salt_well_formed(salt: Seq<char>) -> bool {
    4 <= salt.len() <= 64 && forall|i: int| 0 <= i < salt.len() ==> salt_char(#[trigger] salt[i])
}

/// The Argon2id digest (version 0x13, default cost parameters) of a password
/// under a salt string, `output_len` bytes long; `None` where the hasher
/// fails.
pub uninterp spec fn argon2id_hash(password: Seq<u8>, salt: Seq<char>, output_len: usize) -> Option<
    Seq<u8>,
>;

/// The key, or the error, that stands for the outcome of the hasher.
pub open spec fn key_of_hash(hash: Option<Seq<u8>>) -> Result<Seq<u8>, KeyError> {
    match hash {
        Some(h) if h.len() == 32 => Ok(h),
        _ => Err(KeyError::Derivation),
    }
}

/// What a digest holds, where there is one.
pub open spec fn digest_view(hash: Option<Vec<u8>>) -> Option<Seq<u8>> {
    match hash {
        Some(h) => Some(h@),
        None => None,
    }
}

/// The key that a passphrase and a salt stand for, or the reason why there is
/// none.
pub open spec fn derived_key(passphrase: Seq<u8>, salt: Seq<char>) -> Result<Seq<u8>, KeyError> {
    if salt_well_formed(salt) {
        key_of_hash(argon2id_hash(passphrase, salt, 32))
    } else {
        Err(KeyError::MalformedSalt)
    }
}

/// Builds an Argon2id hasher with `ParamsBuilder` and `Argon2::new` and calls
/// `PasswordHasher::hash_password` on it, with `None` for any error of the
/// three. The contract names the digest and claims that it has the length
/// that was asked for.
#[verifier::external_body]
fn argon2id(password: &[u8], salt: &str, output_len: usize) -> (hash: Option<Vec<u8>>)
    ensures
        hash matches Some(h) ==> argon2id_hash(password@, salt@, output_len) == Some(h@) && h@.len()
            == output_len,
        hash is None ==> argon2id_hash(password@, salt@, output_len) is None,
{
    let mut builder = argon2::ParamsBuilder::default();
    let params = builder.output_len(output_len).and_then(|b| b.clone().params()).ok()?;
    let hasher = argon2::Argon2::new(argon2::Algorithm::Argon2id, argon2::Version::V0x13, params);
    let hash = hasher.hash_password(password, salt).ok()?;
    hash.hash.map(|h| h.as_bytes().to_vec())
}

/// Asks the operating system's random source for 16 bytes:
/// `RngCore::try_fill_bytes` of `rand_core::OsRng`, with `None` for its
/// error. Nothing is claimed of the bytes.
#[verifier::external_body]
fn os_entropy() -> (bytes: Option<[u8; 16]>) {
    let mut bytes = [0u8; 16];
    rand_core::OsRng.try_fill_bytes(&mut bytes).ok().map(|_| bytes)
}

fn is_salt_char(c: char) -> (ok: bool)
    ensures
        ok == salt_char(c),
{
    ('A' <= c && c <= 'Z') || ('a' <= c && c <= 'z') || ('0' <= c && c <= '9') || c == '/' || c
        == '+' || c == '.' || c == '-'
}

/// Tells whether a text is a salt string.
pub fn is_salt_well_formed(salt: &str) -> (ok: bool)
    ensures
        ok == salt_well_formed(salt@),
{
    let n: usize = salt.unicode_len();
    if n < 4 || n > 64 {
        return false;
    }
    let mut i: usize = 0;
    while i < n
        invariant
            n == salt@.len(),
            i <= n,
            forall|j: int| 0 <= j < i ==> salt_char(#[trigger] salt@[j]),
        decreases n - i,
    {
        if !is_salt_char(salt.get_char(i)) {
            return false;
        }
        i = i + 1;
    }
    true
}

/// Turns the outcome of the hasher into a key: a digest of exactly 32 bytes
/// is the key, anything else is a failed derivation.
pub fn key_from_hash(hash: Option<Vec<u8>>) -> (key: Result<[u8; 32], KeyError>)
    ensures
        match key {
            Ok(k) => key_of_hash(digest_view(hash)) == Ok::<Seq<u8>, KeyError>(k@),
            Err(e) => key_of_hash(digest_view(hash)) == Err::<Seq<u8>, KeyError>(e),
        },
{
    match hash {
        Some(h) => {
            if h.len() != 32 {
                return Err(KeyError::Derivation);
            }
            let mut key: [u8; 32] = [0u8; 32];
            let mut i: usize = 0;
            while i < 32
                invariant
                    h@.len() == 32,
                    i <= 32,
                    forall|j: int| 0 <= j < i ==> key@[j] == h@[j],
                decreases 32 - i,
            {
                key[i] = h[i];
                i = i + 1;
            }
            assert(key@ =~= h@);
            Ok(key)
        },
        None => Err(KeyError::Derivation),
    }
}

/// Derives the 32-byte symmetric key of a passphrase under a salt string.
/// A malformed salt is rejected before the hasher runs.
pub fn derive_key(passphrase: &[u8], salt: &str) -> (key: Result<[u8; 32], KeyError>)
    ensures
        match key {
            Ok(k) => derived_key(passphrase@, salt@) == Ok::<Seq<u8>, KeyError>(k@),
            Err(e) => derived_key(passphrase@, salt@) == Err::<Seq<u8>, KeyError>(e),
        },
{
    if !is_salt_well_formed(salt) {
        return Err(KeyError::MalformedSalt);
    }
    key_from_hash(argon2id(passphrase, salt, 32))
}

/// What random bytes hold, where there are any.
pub open spec fn entropy_view(entropy: Option<[u8; 16]>) -> Option<Seq<u8>> {
    match entropy {
        Some(bytes) => Some(bytes@),
        None => None,
    }
}

/// The salt string that stands for the outcome of the random source: the
/// unpadded base64 text of the bytes, where that is a salt string.
pub open spec fn salt_of_entropy(entropy: Option<Seq<u8>>) -> Result<Seq<char>, KeyError> {
    match entropy {
        None => Err(KeyError::Entropy),
        Some(bytes) => if salt_well_formed(base64_text_unpadded(bytes)) {
            Ok(base64_text_unpadded(bytes))
        } else {
            Err(KeyError::MalformedSalt)
        },
    }
}

/// Turns the outcome of the random source into a salt string. A text that
/// comes back is a salt string.
pub fn salt_from_entropy(entropy: Option<[u8; 16]>) -> (salt: Result<String, KeyError>)
    ensures
        match salt {
            Ok(s) => salt_of_entropy(entropy_view(entropy)) == Ok::<Seq<char>, KeyError>(s@)
                && salt_well_formed(s@),
            Err(e) => salt_of_entropy(entropy_view(entropy)) == Err::<Seq<char>, KeyError>(e),
        },
{
    match entropy {
        None => Err(KeyError::Entropy),
        Some(bytes) => {
            let text = base64_encode_unpadded(bytes.as_slice());
            if is_salt_well_formed(text.as_str()) {
                Ok(text)
            } else {
                Err(KeyError::MalformedSalt)
            }
        },
    }
}

/// Makes a fresh salt from 16 bytes of the operating system's random
/// source. A text that comes back is a salt string; it fails with `Entropy`
/// or `MalformedSalt` only.
pub fn generate_salt() -> (salt: Result<String, KeyError>)
    ensures
        match salt {
            Ok(s) => salt_well_formed(s@),
            Err(e) => e == KeyError::Entropy || e == KeyError::MalformedSalt,
        },
{
    salt_from_entropy(os_entropy())
}

/// What a salt with its key holds.
pub open spec fn salted_view(salted: Result<(String, [u8; 32]), KeyError>) -> Result<
    (Seq<char>, Seq<u8>),
    KeyError,
> {
    match salted {
        Ok(pair) => Ok((pair.0@, pair.1@)),
        Err(e) => Err(e),
    }
}

/// The salt and the key that stand for a passphrase and an outcome of the
/// random source: the salt string of the random bytes and the key of the
/// passphrase under it, or the first error on the way.
pub open spec fn salted_key_of_entropy(passphrase: Seq<u8>, entropy: Option<Seq<u8>>) -> Result<
    (Seq<char>, Seq<u8>),
    KeyError,
> {
    match salt_of_entropy(entropy) {
        Err(e) => Err(e),
        Ok(salt) => match derived_key(passphrase, salt) {
            Err(e) => Err(e),
            Ok(key) => Ok((salt, key)),
        },
    }
}

/// Derives the key of a passphrase under the salt that an outcome of the
/// random source stands for, and hands the salt out with the key.
pub fn derive_key_from_entropy(passphrase: &[u8], entropy: Option<[u8; 16]>) -> (salted: Result<
    (String, [u8; 32]),
    KeyError,
>)
    ensures
        salted_view(salted) == salted_key_of_entropy(passphrase@, entropy_view(entropy)),
{
    let salt = match salt_from_entropy(entropy) {
        Err(e) => {
            return Err(e);
        },
        Ok(salt) => salt,
    };
    match derive_key(passphrase, salt.as_str()) {
        Err(e) => Err(e),
        Ok(key) => Ok((salt, key)),
    }
}

/// Derives the key of a passphrase under a fresh salt and hands the salt
/// out with the key: the same passphrase gives the same key again under
/// that salt only. The result is the one that `derive_key_from_entropy`
/// gives for what the random source handed out: it fails where the source
/// gives no bytes, where their text is no salt string and where the hasher
/// fails under it, and not otherwise.
pub fn derive_key_with_fresh_salt(passphrase: &[u8]) -> (salted: Result<
    (String, [u8; 32]),
    KeyError,
>)
    ensures
        exists|entropy: Option<[u8; 16]>|
            salted_view(salted) == #[trigger] salted_key_of_entropy(
                passphrase@,
                entropy_view(entropy),
            ),
        salted matches Ok(pair) ==> salt_well_formed(pair.0@) && derived_key(passphrase@, pair.0@)
            == Ok::<Seq<u8>, KeyError>(pair.1@),
        salted matches Err(e) ==> e == KeyError::Entropy || e == KeyError::MalformedSalt || e
            == KeyError::Derivation,
{
    let entropy = os_entropy();
    let salted = derive_key_from_entropy(passphrase, entropy);
    assert(salted_view(salted) == salted_key_of_entropy(passphrase@, entropy_view(entropy)));
    salted
}

} // verus!
