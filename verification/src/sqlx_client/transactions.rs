use vstd::prelude::*;
use crate::models::records::TransactionDb;
use crate::models::service_id::ServiceId;
use crate::sqlx_client::{Ledger, SqlxClient, StorageError};

verus! {

/// The transactions of one scope, in the order of the table.
pub open spec fn transactions_of(all: Seq<TransactionDb>, service_id: ServiceId) -> Seq<TransactionDb> {
    all.filter(|t: TransactionDb| t.service_id == service_id)
}

/// Whether a run of transactions can be inserted one after the other: no
/// identity in it is in the table or occurs twice in the run.
pub open spec fn transactions_fit(table: Seq<TransactionDb>, batch: Seq<TransactionDb>) -> bool {
    &&& forall|i: int, j: int|
        0 <= i < table.len() && 0 <= j < batch.len() ==> (#[trigger] table[i]).id != (
        #[trigger] batch[j]).id
    &&& forall|i: int, j: int|
        0 <= i < j < batch.len() ==> (#[trigger] batch[i]).id != (#[trigger] batch[j]).id
}

impl SqlxClient {
    fn has_transaction(&self, id: u128) -> (found: bool)
        ensures
            found == self@.has_transaction(id),
    {
        let mut i: usize = 0;
        while i < self.pool.transactions.len()
            invariant
                i <= self.pool.transactions.len(),
                forall|j: int| 0 <= j < i ==> (#[trigger] self.pool.transactions@[j]).id != id,
            decreases self.pool.transactions.len() - i,
        {
            if self.pool.transactions[i].id == id {
                return true;
            }
            i = i + 1;
        }
        false
    }

    /// Inserts one transaction and returns the row. It is refused, and the store
    /// left as it was, exactly when the identity is taken.
    pub fn create_transaction(&mut self, transaction: TransactionDb) -> (row: Result<TransactionDb, StorageError>)
        requires
            old(self)@.wf(),
        ensures
            final(self)@.wf(),
            match row {
                Ok(r) => !old(self)@.has_transaction(transaction.id) && r == transaction && final(self)@ == (
                Ledger { transactions: old(self)@.transactions.push(transaction), ..old(self)@ }),
                Err(e) => old(self)@.has_transaction(transaction.id) && e
                    == StorageError::DuplicateIdentity && final(self)@ == old(self)@,
            },
    {
        if self.has_transaction(transaction.id) {
            return Err(StorageError::DuplicateIdentity);
        }
        let row = transaction.clone();
        self.pool.transactions.push(transaction);
        Ok(row)
    }

    /// All transactions of a scope, in the order of the table.
    pub fn get_all_transactions(&self, service_id: ServiceId) -> (rows: Vec<TransactionDb>)
        ensures
            rows@ == transactions_of(self@.transactions, service_id),
    {
        let mut rows: Vec<TransactionDb> = Vec::new();
        let mut i: usize = 0;
        proof {
            reveal(Seq::filter);
            assert(self@.transactions.take(0) =~= Seq::<TransactionDb>::empty());
        }
        while i < self.pool.transactions.len()
            invariant
                i <= self.pool.transactions.len(),
                rows@ == transactions_of(self@.transactions.take(i as int), service_id),
            decreases self.pool.transactions.len() - i,
        {
            proof {
                let head = self@.transactions.take(i as int);
                let next = self@.transactions[i as int];
                assert(self@.transactions.take(i + 1) =~= head.push(next));
                assert(head.push(next).drop_last() =~= head);
                reveal(Seq::filter);
            }
            if self.pool.transactions[i].service_id == service_id {
                rows.push(self.pool.transactions[i].clone());
            }
            i = i + 1;
        }
        assert(self@.transactions.take(i as int) =~= self@.transactions);
        rows
    }
}

} // verus!
