use vstd::prelude::*;
use crate::models::records::AddressDb;
use crate::models::service_id::ServiceId;
use crate::sqlx_client::{Ledger, SqlxClient, StorageError};

verus! {

/// The addresses of one scope, in the order of the table.
pub open spec fn addresses_of(all: Seq<AddressDb>, service_id: ServiceId) -> Seq<AddressDb> {
    all.filter(|a: AddressDb| a.service_id == service_id)
}

/// Whether a batch can be inserted: no identity in it is in the table or
/// occurs twice in the batch.
pub open spec fn batch_fits(table: Seq<AddressDb>, batch: Seq<AddressDb>) -> bool {
    &&& forall|i: int, j: int|
        0 <= i < table.len() && 0 <= j < batch.len() ==> (#[trigger] table[i]).id != (
        #[trigger] batch[j]).id
    &&& forall|i: int, j: int|
        0 <= i < j < batch.len() ==> (#[trigger] batch[i]).id != (#[trigger] batch[j]).id
}

/// An address that was inserted is the last of its scope, and no other
/// scope sees it.
pub proof fn lemma_inserted_address_is_visible(table: Seq<AddressDb>, address: AddressDb)
    ensures
        addresses_of(table.push(address), address.service_id) == addresses_of(
            table,
            address.service_id,
        ).push(address),
        forall|other: ServiceId|
            other != address.service_id ==> addresses_of(table.push(address), other)
                == addresses_of(table, other),
{
    reveal(Seq::filter);
    assert(table.push(address).drop_last() =~= table);
    assert forall|other: ServiceId| other != address.service_id implies addresses_of(
        table.push(address),
        other,
    ) == addresses_of(table, other) by {
        assert(table.push(address).drop_last() =~= table);
    }
}

/// A batch that was inserted is seen in full by the scopes of its rows: the
/// rows of a scope are those that it had, followed by those of the batch.
pub proof fn lemma_inserted_batch_is_visible(
    table: Seq<AddressDb>,
    batch: Seq<AddressDb>,
    service_id: ServiceId,
)
    ensures
        addresses_of(table + batch, service_id) == addresses_of(table, service_id) + addresses_of(
            batch,
            service_id,
        ),
{
    Seq::filter_distributes_over_add(table, batch, |a: AddressDb| a.service_id == service_id);
}

impl SqlxClient {
    fn has_address(&self, id: u128) -> (found: bool)
        ensures
            found == self@.has_address(id),
    {
        let mut i: usize = 0;
        while i < self.pool.addresses.len()
            invariant
                i <= self.pool.addresses.len(),
                forall|j: int| 0 <= j < i ==> (#[trigger] self.pool.addresses@[j]).id != id,
            decreases self.pool.addresses.len() - i,
        {
            if self.pool.addresses[i].id == id {
                return true;
            }
            i = i + 1;
        }
        false
    }

    /// Inserts one address and returns the row. It is refused, and the store
    /// left as it was, exactly when the identity is taken.
    pub fn create_address(&mut self, address: AddressDb) -> (row: Result<AddressDb, StorageError>)
        requires
            old(self)@.wf(),
        ensures
            final(self)@.wf(),
            match row {
                Ok(r) => !old(self)@.has_address(address.id) && r == address && final(self)@ == (
                Ledger { addresses: old(self)@.addresses.push(address), ..old(self)@ }),
                Err(e) => old(self)@.has_address(address.id) && e == StorageError::DuplicateIdentity
                    && final(self)@ == old(self)@,
            },
    {
        if self.has_address(address.id) {
            return Err(StorageError::DuplicateIdentity);
        }
        let row = address.clone();
        self.pool.addresses.push(address);
        Ok(row)
    }

    /// Inserts a batch of addresses as one unit: all of them where the batch
    /// fits, none of them where it does not.
    pub fn create_addresses(&mut self, addresses: Vec<AddressDb>) -> (done: Result<
        (),
        StorageError,
    >)
        requires
            old(self)@.wf(),
        ensures
            final(self)@.wf(),
            match done {
                Ok(_) => batch_fits(old(self)@.addresses, addresses@) && final(self)@ == (Ledger {
                    addresses: old(self)@.addresses + addresses@,
                    ..old(self)@
                }),
                Err(e) => !batch_fits(old(self)@.addresses, addresses@) && e
                    == StorageError::DuplicateIdentity && final(self)@ == old(self)@,
            },
    {
        let start: usize = self.pool.addresses.len();
        let mut i: usize = 0;
        while i < addresses.len()
            invariant
                i <= addresses.len(),
                start == old(self)@.addresses.len(),
                old(self)@.wf(),
                self@.wf(),
                self@ == (Ledger {
                    addresses: old(self)@.addresses + addresses@.take(i as int),
                    ..old(self)@
                }),
                batch_fits(old(self)@.addresses, addresses@.take(i as int)),
            decreases addresses.len() - i,
        {
            if self.has_address(addresses[i].id) {
                self.pool.addresses.truncate(start);
                proof {
                    let taken = old(self)@.addresses + addresses@.take(i as int);
                    assert(taken.subrange(0, start as int) =~= old(self)@.addresses);
                    let k = choose|k: int| 0 <= k < taken.len() && (#[trigger] taken[k]).id
                        == addresses@[i as int].id;
                    if k < start {
                        assert(old(self)@.addresses[k].id == addresses@[i as int].id);
                    } else {
                        assert(addresses@[k - start].id == addresses@[i as int].id);
                    }
                }
                return Err(StorageError::DuplicateIdentity);
            }
            let row = addresses[i].clone();
            self.pool.addresses.push(row);
            proof {
                let before = old(self)@.addresses + addresses@.take(i as int);
                assert(addresses@.take(i + 1) =~= addresses@.take(i as int).push(addresses@[i as int]));
                assert(before.push(addresses@[i as int]) =~= old(self)@.addresses + addresses@.take(
                    i + 1,
                ));
                assert forall|j: int| 0 <= j < before.len() implies (#[trigger] before[j]).id
                    != addresses@[i as int].id by {
                    if before[j].id == addresses@[i as int].id {
                        assert(self@.has_address(addresses@[i as int].id));
                    }
                }
                let table = old(self)@.addresses;
                let batch = addresses@.take(i + 1);
                assert forall|a: int, b: int|
                    0 <= a < table.len() && 0 <= b < batch.len() implies (#[trigger] table[a]).id
                    != (#[trigger] batch[b]).id by {
                    if b < i {
                        assert(addresses@.take(i as int)[b] == batch[b]);
                    } else {
                        assert(before[a] == table[a]);
                    }
                }
                assert forall|a: int, b: int| 0 <= a < b < batch.len() implies (
                #[trigger] batch[a]).id != (#[trigger] batch[b]).id by {
                    assert(addresses@.take(i as int)[a] == batch[a]);
                    if b < i {
                        assert(addresses@.take(i as int)[b] == batch[b]);
                    } else {
                        assert(before[start + a] == batch[a]);
                    }
                }
            }
            i = i + 1;
        }
        assert(addresses@.take(i as int) =~= addresses@);
        Ok(())
    }

    /// All addresses of a scope, in the order of the table.
    pub fn get_all_addresses(&self, service_id: ServiceId) -> (rows: Vec<AddressDb>)
        ensures
            rows@ == addresses_of(self@.addresses, service_id),
    {
        let mut rows: Vec<AddressDb> = Vec::new();
        let mut i: usize = 0;
        proof {
            reveal(Seq::filter);
            assert(self@.addresses.take(0) =~= Seq::<AddressDb>::empty());
        }
        while i < self.pool.addresses.len()
            invariant
                i <= self.pool.addresses.len(),
                rows@ == addresses_of(self@.addresses.take(i as int), service_id),
            decreases self.pool.addresses.len() - i,
        {
            proof {
                let head = self@.addresses.take(i as int);
                let next = self@.addresses[i as int];
                assert(self@.addresses.take(i + 1) =~= head.push(next));
                assert(head.push(next).drop_last() =~= head);
                reveal(Seq::filter);
            }
            if self.pool.addresses[i].service_id == service_id {
                rows.push(self.pool.addresses[i].clone());
            }
            i = i + 1;
        }
        assert(self@.addresses.take(i as int) =~= self@.addresses);
        rows
    }
}

} // verus!
