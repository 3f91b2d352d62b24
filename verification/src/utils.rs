//! Key derivation, the record cipher and the framing of snapshot files.

pub mod encoding;
pub mod cipher;
pub mod jsonl;
pub mod key;

pub use self::cipher::{decrypt, encrypt, encrypt_bytes, nonce_from_id, CipherError};
pub use self::jsonl::{frame_lines, split_lines};
pub use self::key::{
    derive_key, derive_key_from_entropy, derive_key_with_fresh_salt, generate_salt,
    is_salt_well_formed, key_from_hash, salt_from_entropy, KeyError,
};
