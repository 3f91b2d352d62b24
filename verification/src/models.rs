//! The ledger records and the small types that classify them.

pub mod account_enums;
pub mod records;
pub mod service_id;

pub use self::account_enums::{
    AccountType, TonTokenTransactionStatus, TonTransactionDirection, TonTransactionStatus,
};
pub use self::service_id::{InvalidServiceId, ServiceId};
pub use self::records::{AddressDb, TokenOwnerDb, TokenTransactionDb, TransactionDb};
