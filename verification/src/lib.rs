//! Migration of per-tenant ledger records between a store and snapshot
//! files.
//!
//! - `utils` derives the symmetric key from a passphrase and a salt, seals
//!   and opens the secret of a record under that key and the record's own
//!   identity, and frames the lines of a snapshot file.
//! - `models` holds the records and the scope identifier.
//! - `sqlx_client` is the storage gateway: the tables with their uniqueness
//!   constraints and the operations that the pipelines consume.
//! - `export` and `import` are the two pipelines.

pub mod export;
pub mod import;
pub mod models;
pub mod sqlx_client;
pub mod utils;
