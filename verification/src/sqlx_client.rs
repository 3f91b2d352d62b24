//! The storage gateway: the four tables of ledger records and the
//! operations that the pipelines consume.

use vstd::prelude::*;
use crate::models::records::{AddressDb, TokenOwnerDb, TokenTransactionDb, TransactionDb};

pub mod addresses;
pub mod token_owners;
pub mod token_transactions;
pub mod transactions;

verus! {

/// What a store holds: the rows of each table, in the order in which they
/// were inserted.
pub struct Ledger {
    pub addresses: Seq<AddressDb>,
    pub transactions: Seq<TransactionDb>,
    pub token_transactions: Seq<TokenTransactionDb>,
    pub token_owners: Seq<TokenOwnerDb>,
}

/// Why the store turned an operation down.
#[derive(Debug, Clone, Copy, PartialEq, Eq, Structural)]
pub enum StorageError {
    /// A row with the same identity is already there.
    DuplicateIdentity,
    /// No row matches.
    NotFound,
}

impl Ledger {
    /// The ledger without any row.
    pub open spec fn empty() -> Ledger {
        Ledger {
            addresses: Seq::empty(),
            transactions: Seq::empty(),
            token_transactions: Seq::empty(),
            token_owners: Seq::empty(),
        }
    }

    pub open spec fn has_address(self, id: u128) -> bool {
        exists|i: int| 0 <= i < self.addresses.len() && (#[trigger] self.addresses[i]).id == id
    }

    pub open spec fn has_transaction(self, id: u128) -> bool {
        exists|i: int|
            0 <= i < self.transactions.len() && (#[trigger] self.transactions[i]).id == id
    }

    pub open spec fn has_token_transaction(self, id: u128) -> bool {
        exists|i: int|
            0 <= i < self.token_transactions.len() && (#[trigger] self.token_transactions[i]).id
                == id
    }

    pub open spec fn has_token_owner(self, address: Seq<char>) -> bool {
        exists|i: int|
            0 <= i < self.token_owners.len() && (#[trigger] self.token_owners[i]).address@
                == address
    }

    /// The uniqueness constraints of the four tables: no two rows of a table
    /// share their identity.
    pub open spec fn wf(self) -> bool {
        &&& forall|i: int, j: int|
            0 <= i < j < self.addresses.len() ==> (#[trigger] self.addresses[i]).id != (
            #[trigger] self.addresses[j]).id
        &&& forall|i: int, j: int|
            0 <= i < j < self.transactions.len() ==> (#[trigger] self.transactions[i]).id != (
            #[trigger] self.transactions[j]).id
        &&& forall|i: int, j: int|
            0 <= i < j < self.token_transactions.len() ==> (
            #[trigger] self.token_transactions[i]).id != (#[trigger] self.token_transactions[j]).id
        &&& forall|i: int, j: int|
            0 <= i < j < self.token_owners.len() ==> (#[trigger] self.token_owners[i]).address@
                != (#[trigger] self.token_owners[j]).address@
    }
}

/// The store that a client works on.
pub struct Store {
    addresses: Vec<AddressDb>,
    transactions: Vec<TransactionDb>,
    token_transactions: Vec<TokenTransactionDb>,
    token_owners: Vec<TokenOwnerDb>,
}

impl View for Store {
    type V = Ledger;

    closed spec fn view(&self) -> Ledger {
        Ledger {
            addresses: self.addresses@,
            transactions: self.transactions@,
            token_transactions: self.token_transactions@,
            token_owners: self.token_owners@,
        }
    }
}

impl Store {
    /// A store without any row.
    pub fn new() -> (store: Store)
        ensures
            store@ == Ledger::empty(),
            store@.wf(),
    {
        Store {
            addresses: Vec::new(),
            transactions: Vec::new(),
            token_transactions: Vec::new(),
            token_owners: Vec::new(),
        }
    }

    /// Takes the store apart into the rows of its addresses, transactions,
    /// token transactions and ownership links.
    pub fn into_tables(self) -> (tables: (
        Vec<AddressDb>,
        Vec<TransactionDb>,
        Vec<TokenTransactionDb>,
        Vec<TokenOwnerDb>,
    ))
        ensures
            tables.0@ == self@.addresses,
            tables.1@ == self@.transactions,
            tables.2@ == self@.token_transactions,
            tables.3@ == self@.token_owners,
    {
        (self.addresses, self.transactions, self.token_transactions, self.token_owners)
    }
}

/// The gateway to one store.
pub struct SqlxClient {
    pool: Store,
}

impl View for SqlxClient {
    type V = Ledger;

    closed spec fn view(&self) -> Ledger {
        self.pool@
    }
}

impl SqlxClient {
    /// The gateway to a store: it starts from the rows that the store holds.
    pub fn new(pool: Store) -> (client: SqlxClient)
        ensures
            client@ == pool@,
    {
        SqlxClient { pool }
    }

    /// Gives the store back.
    pub fn into_pool(self) -> (pool: Store)
        ensures
            pool@ == self@,
    {
        self.pool
    }
}

} // verus!
