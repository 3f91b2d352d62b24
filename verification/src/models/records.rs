use vstd::prelude::*;
use crate::models::account_enums::{
    AccountType, TonTokenTransactionStatus, TonTransactionDirection, TonTransactionStatus,
};
use crate::models::service_id::ServiceId;

verus! {

fn clone_text(text: &Option<String>) -> (copy: Option<String>)
    ensures
        copy == *text,
{
    match text {
        Some(t) => Some(t.clone()),
        None => None,
    }
}

/// An address record.
#[derive(Debug)]
pub struct AddressDb {
    /// The identity of the record, unique among addresses.
    pub id: u128,
    /// The scope that the record belongs to.
    pub service_id: ServiceId,
    /// The workchain of the account.
    pub workchain_id: i32,
    /// The account id in hexadecimal.
    pub hex: String,
    pub base64url: String,
    pub public_key: String,
    /// The secret field: an envelope at rest, base64 of the plaintext in a snapshot.
    pub private_key: String,
    pub account_type: AccountType,
    /// The number of custodians of a multisig account.
    pub custodians: Option<i32>,
    /// The confirmation threshold of a multisig account.
    pub confirmations: Option<i32>,
    /// The custodians' public keys, as JSON text.
    pub custodians_public_keys: Option<String>,
    /// The balance, as decimal text.
    pub balance: String,
    /// Microseconds since the Unix epoch.
    pub created_at: i64,
    /// Microseconds since the Unix epoch.
    pub updated_at: i64,
}

impl Clone for AddressDb {
    fn clone(&self) -> (copy: Self)
        ensures
            copy == *self,
    {
        AddressDb {
            id: self.id,
            service_id: self.service_id,
            workchain_id: self.workchain_id,
            hex: self.hex.clone(),
            base64url: self.base64url.clone(),
            public_key: self.public_key.clone(),
            private_key: self.private_key.clone(),
            account_type: self.account_type,
            custodians: self.custodians,
            confirmations: self.confirmations,
            custodians_public_keys: clone_text(&self.custodians_public_keys),
            balance: self.balance.clone(),
            created_at: self.created_at,
            updated_at: self.updated_at,
        }
    }
}

/// A transaction record. It holds no secret.
#[derive(Debug)]
pub struct TransactionDb {
    /// The identity of the record, unique among transactions.
    pub id: u128,
    /// The scope that the record belongs to.
    pub service_id: ServiceId,
    pub message_hash: String,
    pub transaction_hash: Option<String>,
    /// The logical time, as decimal text.
    pub transaction_lt: Option<String>,
    pub transaction_timeout: Option<i64>,
    pub transaction_scan_lt: Option<i64>,
    pub transaction_timestamp: Option<i64>,
    pub sender_workchain_id: Option<i32>,
    pub sender_hex: Option<String>,
    pub account_workchain_id: i32,
    pub account_hex: String,
    /// The outgoing messages, as JSON text.
    pub messages: Option<String>,
    /// The hashes of the outgoing messages, as JSON text.
    pub messages_hash: Option<String>,
    /// Free-form data, as JSON text.
    pub data: Option<String>,
    /// Decimal text.
    pub original_value: Option<String>,
    /// JSON text.
    pub original_outputs: Option<String>,
    /// Decimal text.
    pub value: Option<String>,
    /// Decimal text.
    pub fee: Option<String>,
    /// Decimal text.
    pub balance_change: Option<String>,
    pub direction: TonTransactionDirection,
    pub status: TonTransactionStatus,
    pub error: Option<String>,
    pub aborted: bool,
    pub bounce: bool,
    /// Microseconds since the Unix epoch.
    pub created_at: i64,
    /// Microseconds since the Unix epoch.
    pub updated_at: i64,
}

impl Clone for TransactionDb {
    fn clone(&self) -> (copy: Self)
        ensures
            copy == *self,
    {
        TransactionDb {
            id: self.id,
            service_id: self.service_id,
            message_hash: self.message_hash.clone(),
            transaction_hash: clone_text(&self.transaction_hash),
            transaction_lt: clone_text(&self.transaction_lt),
            transaction_timeout: self.transaction_timeout,
            transaction_scan_lt: self.transaction_scan_lt,
            transaction_timestamp: self.transaction_timestamp,
            sender_workchain_id: self.sender_workchain_id,
            sender_hex: clone_text(&self.sender_hex),
            account_workchain_id: self.account_workchain_id,
            account_hex: self.account_hex.clone(),
            messages: clone_text(&self.messages),
            messages_hash: clone_text(&self.messages_hash),
            data: clone_text(&self.data),
            original_value: clone_text(&self.original_value),
            original_outputs: clone_text(&self.original_outputs),
            value: clone_text(&self.value),
            fee: clone_text(&self.fee),
            balance_change: clone_text(&self.balance_change),
            direction: self.direction,
            status: self.status,
            error: clone_text(&self.error),
            aborted: self.aborted,
            bounce: self.bounce,
            created_at: self.created_at,
            updated_at: self.updated_at,
        }
    }
}

/// A token transaction record. It holds no secret.
#[derive(Debug)]
pub struct TokenTransactionDb {
    /// The identity of the record, unique among token transactions.
    pub id: u128,
    /// The scope that the record belongs to.
    pub service_id: ServiceId,
    pub transaction_hash: Option<String>,
    pub transaction_timestamp: Option<i64>,
    pub message_hash: String,
    pub owner_message_hash: Option<String>,
    pub account_workchain_id: i32,
    pub account_hex: String,
    /// Decimal text.
    pub value: String,
    /// The address of the token contract.
    pub root_address: String,
    /// The payload, as base64 text.
    pub payload: Option<String>,
    pub error: Option<String>,
    pub block_hash: Option<String>,
    pub block_time: Option<i32>,
    pub direction: TonTransactionDirection,
    pub status: TonTokenTransactionStatus,
    /// Microseconds since the Unix epoch.
    pub created_at: i64,
    /// Microseconds since the Unix epoch.
    pub updated_at: i64,
}

impl Clone for TokenTransactionDb {
    fn clone(&self) -> (copy: Self)
        ensures
            copy == *self,
    {
        TokenTransactionDb {
            id: self.id,
            service_id: self.service_id,
            transaction_hash: clone_text(&self.transaction_hash),
            transaction_timestamp: self.transaction_timestamp,
            message_hash: self.message_hash.clone(),
            owner_message_hash: clone_text(&self.owner_message_hash),
            account_workchain_id: self.account_workchain_id,
            account_hex: self.account_hex.clone(),
            value: self.value.clone(),
            root_address: self.root_address.clone(),
            payload: clone_text(&self.payload),
            error: clone_text(&self.error),
            block_hash: clone_text(&self.block_hash),
            block_time: self.block_time,
            direction: self.direction,
            status: self.status,
            created_at: self.created_at,
            updated_at: self.updated_at,
        }
    }
}

/// A token ownership link: which token wallet an account owns.
#[derive(Debug)]
pub struct TokenOwnerDb {
    /// The address of the token wallet, unique among ownership links.
    pub address: String,
    pub owner_account_workchain_id: i32,
    pub owner_account_hex: String,
    /// The address of the token contract.
    pub root_address: String,
    /// The code hash, as base64 text.
    pub code_hash: String,
    /// Microseconds since the Unix epoch.
    pub created_at: i64,
}

impl Clone for TokenOwnerDb {
    fn clone(&self) -> (copy: Self)
        ensures
            copy == *self,
    {
        TokenOwnerDb {
            address: self.address.clone(),
            owner_account_workchain_id: self.owner_account_workchain_id,
            owner_account_hex: self.owner_account_hex.clone(),
            root_address: self.root_address.clone(),
            code_hash: self.code_hash.clone(),
            created_at: self.created_at,
        }
    }
}

} // verus!
