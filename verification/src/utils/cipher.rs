use vstd::prelude::*;
use chacha20poly1305::aead::{Aead, NewAead};
use chacha20poly1305::{ChaCha20Poly1305, Key, Nonce};
use crate::utils::encoding::{base64_bytes, base64_decode, base64_encode, base64_text};

verus! {

/// Length of the authentication tag that closes every envelope.
pub const TAG_LEN: usize = 16;

/// Byte `i` of a 128-bit identity, counted from the most significant one.
pub open spec fn id_byte(id: u128, i: int) -> u8 {
    ((id >> ((120 - 8 * i) as u128)) & 0xff) as u8
}

/// The nonce of a record: the first 96 bits of its identity.
///
/// The nonce is a function of the identity alone. Under one key a record's
/// identity must therefore seal one plaintext only: sealing a second
/// plaintext under the same key and identity uses the nonce again. The
/// store's uniqueness of identities and a new key for every re-encryption
/// keep to that.
pub open spec fn nonce_of(id: u128) -> Seq<u8> {
    Seq::new(12, |i: int| id_byte(id, i))
}

/// Derives the nonce under which a record's secret is sealed.
pub fn nonce_from_id(id: u128) -> (nonce: [u8; 12])
    ensures
        nonce@ == nonce_of(id),
{
    let nonce: [u8; 12] = [
        byte_at(id, 0), byte_at(id, 1), byte_at(id, 2), byte_at(id, 3),
        byte_at(id, 4), byte_at(id, 5), byte_at(id, 6), byte_at(id, 7),
        byte_at(id, 8), byte_at(id, 9), byte_at(id, 10), byte_at(id, 11),
    ];
    assert(nonce@ =~= nonce_of(id));
    nonce
}

fn byte_at(id: u128, i: u32) -> (b: u8)
    requires
        i < 16,
    ensures
        b == id_byte(id, i as int),
{
    let shift: u32 = 120 - 8 * i;
    let v: u128 = (id >> shift) & 0xff;
    assert(v <= 0xff) by (bit_vector)
        requires v == (id >> shift) & 0xff;
    v as u8
}

/// Why sealing or opening a secret failed.
#[derive(Debug, Clone, Copy, PartialEq, Eq, Structural)]
pub enum CipherError {
    /// The text is not well-formed base64.
    Encoding,
    /// The cipher refused to seal the plaintext.
    Encryption,
    /// The key is wrong or the envelope was altered.
    Authentication,
}

/// The ciphertext and tag that ChaCha20-Poly1305 gives for a plaintext under
/// a key and a nonce, with no associated data; `None` where the cipher
/// refuses the plaintext.
pub uninterp spec fn aead_sealed(key: Seq<u8>, nonce: Seq<u8>, plaintext: Seq<u8>) -> Option<
    Seq<u8>,
>;

/// The plaintext that ChaCha20-Poly1305 gives for a ciphertext and tag under
/// a key and a nonce, with no associated data; `None` where the tag does not
/// authenticate the ciphertext.
pub uninterp spec fn aead_opened(key: Seq<u8>, nonce: Seq<u8>, ciphertext: Seq<u8>) -> Option<
    Seq<u8>,
>;

/// Calls `Aead::encrypt` of `ChaCha20Poly1305`, with `None` for its error.
/// The contract names the outcome and claims of a sealed text that it is
/// one tag longer than the plaintext and that opening it under the same key
/// and nonce gives the plaintext back.
#[verifier::external_body]
fn seal(key: &[u8; 32], nonce: &[u8; 12], plaintext: &[u8]) -> (sealed: Option<Vec<u8>>)
    ensures
        sealed matches Some(c) ==> aead_sealed(key@, nonce@, plaintext@) == Some(c@)
            && c@.len() == plaintext@.len() + TAG_LEN
            && aead_opened(key@, nonce@, c@) == Some(plaintext@),
        sealed is None ==> aead_sealed(key@, nonce@, plaintext@) is None,
{
    let cipher = ChaCha20Poly1305::new(Key::from_slice(key));
    cipher.encrypt(Nonce::from_slice(nonce), plaintext).ok()
}

/// Calls `Aead::decrypt` of `ChaCha20Poly1305`, with `None` for its error.
/// The contract names the outcome and claims of an opened text that it is
/// one tag shorter than the ciphertext and that sealing it under the same
/// key and nonce gives the ciphertext back.
#[verifier::external_body]
fn open(key: &[u8; 32], nonce: &[u8; 12], ciphertext: &[u8]) -> (opened: Option<Vec<u8>>)
    ensures
        opened matches Some(p) ==> aead_opened(key@, nonce@, ciphertext@) == Some(p@)
            && p@.len() + TAG_LEN == ciphertext@.len()
            && aead_sealed(key@, nonce@, p@) == Some(ciphertext@),
        opened is None ==> aead_opened(key@, nonce@, ciphertext@) is None,
{
    let cipher = ChaCha20Poly1305::new(Key::from_slice(key));
    cipher.decrypt(Nonce::from_slice(nonce), ciphertext).ok()
}

/// The envelope of a plaintext: its sealed bytes as text.
pub open spec fn sealed_bytes(plaintext: Seq<u8>, key: Seq<u8>, id: u128) -> Result<
    Seq<char>,
    CipherError,
> {
    match aead_sealed(key, nonce_of(id), plaintext) {
        None => Err(CipherError::Encryption),
        Some(c) => Ok(base64_text(c)),
    }
}

/// The envelope of a secret that is given as text.
pub open spec fn sealed_text(text: Seq<char>, key: Seq<u8>, id: u128) -> Result<
    Seq<char>,
    CipherError,
> {
    match base64_bytes(text) {
        None => Err(CipherError::Encoding),
        Some(plaintext) => sealed_bytes(plaintext, key, id),
    }
}

/// The plaintext inside an envelope.
pub open spec fn opened_bytes(envelope: Seq<char>, key: Seq<u8>, id: u128) -> Result<
    Seq<u8>,
    CipherError,
> {
    match base64_bytes(envelope) {
        None => Err(CipherError::Encoding),
        Some(c) => match aead_opened(key, nonce_of(id), c) {
            None => Err(CipherError::Authentication),
            Some(plaintext) => Ok(plaintext),
        },
    }
}

/// The plaintext inside an envelope, as text.
pub open spec fn opened_text(envelope: Seq<char>, key: Seq<u8>, id: u128) -> Result<
    Seq<char>,
    CipherError,
> {
    match opened_bytes(envelope, key, id) {
        Err(e) => Err(e),
        Ok(plaintext) => Ok(base64_text(plaintext)),
    }
}

/// Seals a plaintext under the key and the nonce of the record `id`. An
/// envelope that comes back opens to the plaintext under the same key and
/// identity.
pub fn encrypt_bytes(plaintext: &[u8], key: [u8; 32], id: u128) -> (envelope: Result<
    String,
    CipherError,
>)
    ensures
        match envelope {
            Ok(text) => sealed_bytes(plaintext@, key@, id) == Ok::<Seq<char>, CipherError>(text@)
                && opened_bytes(text@, key@, id) == Ok::<Seq<u8>, CipherError>(plaintext@),
            Err(e) => sealed_bytes(plaintext@, key@, id) == Err::<Seq<char>, CipherError>(e),
        },
{
    let nonce = nonce_from_id(id);
    match seal(&key, &nonce, plaintext) {
        None => Err(CipherError::Encryption),
        Some(sealed) => Ok(base64_encode(sealed.as_slice())),
    }
}

/// Seals a secret that is given as text: decodes it, seals the bytes and
/// returns the envelope. An envelope that comes back opens to the decoded
/// secret under the same key and identity.
pub fn encrypt(private_key: &str, key: [u8; 32], id: u128) -> (envelope: Result<
    String,
    CipherError,
>)
    ensures
        match envelope {
            Ok(text) => sealed_text(private_key@, key@, id) == Ok::<Seq<char>, CipherError>(text@)
                && Ok::<Seq<u8>, CipherError>(base64_bytes(private_key@)->Some_0)
                == opened_bytes(text@, key@, id),
            Err(e) => sealed_text(private_key@, key@, id) == Err::<Seq<char>, CipherError>(e),
        },
{
    match base64_decode(private_key) {
        None => Err(CipherError::Encoding),
        Some(plaintext) => encrypt_bytes(plaintext.as_slice(), key, id),
    }
}

/// Opens an envelope under the key and the nonce of the record `id`. It
/// fails with `Authentication` exactly when the tag does not authenticate
/// the envelope; a plaintext that comes back seals to the very envelope
/// bytes that were given.
pub fn decrypt(private_key: &str, key: [u8; 32], id: u128) -> (plaintext: Result<
    Vec<u8>,
    CipherError,
>)
    ensures
        match plaintext {
            Ok(bytes) => opened_bytes(private_key@, key@, id) == Ok::<Seq<u8>, CipherError>(bytes@)
                && aead_sealed(key@, nonce_of(id), bytes@) == base64_bytes(private_key@),
            Err(e) => opened_bytes(private_key@, key@, id) == Err::<Seq<u8>, CipherError>(e),
        },
{
    match base64_decode(private_key) {
        None => Err(CipherError::Encoding),
        Some(sealed) => {
            let nonce = nonce_from_id(id);
            match open(&key, &nonce, sealed.as_slice()) {
                None => Err(CipherError::Authentication),
                Some(bytes) => Ok(bytes),
            }
        },
    }
}

/// Two identities share a nonce exactly when their first 96 bits agree.
pub proof fn lemma_nonce_binds_identity(a: u128, b: u128)
    ensures
        nonce_of(a) == nonce_of(b) <==> a >> 32 == b >> 32,
{
    if nonce_of(a) == nonce_of(b) {
        assert forall|i: int| 0 <= i < 12 implies id_byte(a, i) == id_byte(b, i) by {
            assert(nonce_of(a)[i] == nonce_of(b)[i]);
        }
        lemma_bytes_fix_prefix(a, b);
    }
    if a >> 32 == b >> 32 {
        lemma_prefix_fixes_bytes(a, b);
        assert(nonce_of(a) =~= nonce_of(b));
    }
}

/// An envelope opens alike under two identities whose first 96 bits agree:
/// the cipher tells identities apart by their nonce alone.
pub proof fn lemma_shared_prefix_opens_alike(a: u128, b: u128, envelope: Seq<char>, key: Seq<u8>)
    requires
        a >> 32 == b >> 32,
    ensures
        opened_bytes(envelope, key, a) == opened_bytes(envelope, key, b),
        opened_text(envelope, key, a) == opened_text(envelope, key, b),
{
    lemma_nonce_binds_identity(a, b);
}

proof fn lemma_bytes_fix_prefix(a: u128, b: u128)
    requires
        forall|i: int| 0 <= i < 12 ==> id_byte(a, i) == id_byte(b, i),
    ensures
        a >> 32 == b >> 32,
{
    assert(id_byte(a, 0) == id_byte(b, 0));
    assert(id_byte(a, 1) == id_byte(b, 1));
    assert(id_byte(a, 2) == id_byte(b, 2));
    assert(id_byte(a, 3) == id_byte(b, 3));
    assert(id_byte(a, 4) == id_byte(b, 4));
    assert(id_byte(a, 5) == id_byte(b, 5));
    assert(id_byte(a, 6) == id_byte(b, 6));
    assert(id_byte(a, 7) == id_byte(b, 7));
    assert(id_byte(a, 8) == id_byte(b, 8));
    assert(id_byte(a, 9) == id_byte(b, 9));
    assert(id_byte(a, 10) == id_byte(b, 10));
    assert(id_byte(a, 11) == id_byte(b, 11));
    assert(a >> 32 == b >> 32) by (bit_vector)
        requires
            ((a >> 120) & 0xff) as u8 == ((b >> 120) & 0xff) as u8,
            ((a >> 112) & 0xff) as u8 == ((b >> 112) & 0xff) as u8,
            ((a >> 104) & 0xff) as u8 == ((b >> 104) & 0xff) as u8,
            ((a >> 96) & 0xff) as u8 == ((b >> 96) & 0xff) as u8,
            ((a >> 88) & 0xff) as u8 == ((b >> 88) & 0xff) as u8,
            ((a >> 80) & 0xff) as u8 == ((b >> 80) & 0xff) as u8,
            ((a >> 72) & 0xff) as u8 == ((b >> 72) & 0xff) as u8,
            ((a >> 64) & 0xff) as u8 == ((b >> 64) & 0xff) as u8,
            ((a >> 56) & 0xff) as u8 == ((b >> 56) & 0xff) as u8,
            ((a >> 48) & 0xff) as u8 == ((b >> 48) & 0xff) as u8,
            ((a >> 40) & 0xff) as u8 == ((b >> 40) & 0xff) as u8,
            ((a >> 32) & 0xff) as u8 == ((b >> 32) & 0xff) as u8,
    ;
}

proof fn lemma_prefix_fixes_bytes(a: u128, b: u128)
    requires
        a >> 32 == b >> 32,
    ensures
        forall|i: int| 0 <= i < 12 ==> id_byte(a, i) == id_byte(b, i),
{
    assert forall|i: int| 0 <= i < 12 implies id_byte(a, i) == id_byte(b, i) by {
        let s: u128 = (120 - 8 * i) as u128;
        assert((a >> s) & 0xff == (b >> s) & 0xff) by (bit_vector)
            requires
                a >> 32 == b >> 32,
                32 <= s <= 120,
        ;
    }
}

} // verus!
