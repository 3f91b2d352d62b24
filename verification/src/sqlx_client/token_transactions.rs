use vstd::prelude::*;
use crate::models::records::TokenTransactionDb;
use crate::models::service_id::ServiceId;
use crate::sqlx_client::{Ledger, SqlxClient, StorageError};

verus! {

/// The token transactions of one scope, in the order of the table.
pub open spec fn token_transactions_of(all: Seq<TokenTransactionDb>, service_id: ServiceId) -> Seq<TokenTransactionDb> {
    all.filter(|t: TokenTransactionDb| t.service_id == service_id)
}

impl SqlxClient {
    fn has_token_transaction(&self, id: u128) -> (found: bool)
        ensures
            found == self@.has_token_transaction(id),
    {
        let mut i: usize = 0;
        while i < self.pool.token_transactions.len()
            invariant
                i <= self.pool.token_transactions.len(),
                forall|j: int| 0 <= j < i ==> (#[trigger] self.pool.token_transactions@[j]).id != id,
            decreases self.pool.token_transactions.len() - i,
        {
            if self.pool.token_transactions[i].id == id {
                return true;
            }
            i = i + 1;
        }
        false
    }

    /// Inserts one token transaction and returns the row. It is refused, and the store
    /// left as it was, exactly when the identity is taken.
    pub fn create_token_transaction(&mut self, transaction: TokenTransactionDb) -> (row: Result<TokenTransactionDb, StorageError>)
        requires
            old(self)@.wf(),
        ensures
            final(self)@.wf(),
            match row {
                Ok(r) => !old(self)@.has_token_transaction(transaction.id) && r == transaction && final(self)@ == (
                Ledger { token_transactions: old(self)@.token_transactions.push(transaction), ..old(self)@ }),
                Err(e) => old(self)@.has_token_transaction(transaction.id) && e
                    == StorageError::DuplicateIdentity && final(self)@ == old(self)@,
            },
    {
        if self.has_token_transaction(transaction.id) {
            return Err(StorageError::DuplicateIdentity);
        }
        let row = transaction.clone();
        self.pool.token_transactions.push(transaction);
        Ok(row)
    }

    /// All token transactions of a scope, in the order of the table.
    pub fn get_all_token_transactions(&self, service_id: ServiceId) -> (rows: Vec<TokenTransactionDb>)
        ensures
            rows@ == token_transactions_of(self@.token_transactions, service_id),
    {
        let mut rows: Vec<TokenTransactionDb> = Vec::new();
        let mut i: usize = 0;
        proof {
            reveal(Seq::filter);
            assert(self@.token_transactions.take(0) =~= Seq::<TokenTransactionDb>::empty());
        }
        while i < self.pool.token_transactions.len()
            invariant
                i <= self.pool.token_transactions.len(),
                rows@ == token_transactions_of(self@.token_transactions.take(i as int), service_id),
            decreases self.pool.token_transactions.len() - i,
        {
            proof {
                let head = self@.token_transactions.take(i as int);
                let next = self@.token_transactions[i as int];
                assert(self@.token_transactions.take(i + 1) =~= head.push(next));
                assert(head.push(next).drop_last() =~= head);
                reveal(Seq::filter);
            }
            if self.pool.token_transactions[i].service_id == service_id {
                rows.push(self.pool.token_transactions[i].clone());
            }
            i = i + 1;
        }
        assert(self@.token_transactions.take(i as int) =~= self@.token_transactions);
        rows
    }
}

} // verus!
