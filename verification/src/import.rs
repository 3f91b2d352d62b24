//! The import pipeline: from the records of a snapshot to rows of the
//! store, with every secret sealed under the key and, where one is given,
//! every scope replaced by the override.

use vstd::prelude::*;
use crate::models::records::{AddressDb, TransactionDb};
use crate::models::service_id::{uuid_parsed, ServiceId};
use crate::sqlx_client::addresses::batch_fits;
use crate::sqlx_client::transactions::transactions_fit;
use crate::sqlx_client::{Ledger, SqlxClient, StorageError};
use crate::utils::cipher::{encrypt, opened_bytes, sealed_text, CipherError};
use crate::export::{addresses_exported, exported_address};
use crate::utils::encoding::base64_bytes;

verus! {

/// Why an import stopped.
#[derive(Debug, Clone, Copy, PartialEq, Eq, Structural)]
pub enum ImportError {
    /// The scope override is no scope identifier.
    Scope,
    /// A secret could not be sealed.
    Cipher(CipherError),
    /// The store refused a row.
    Storage(StorageError),
}

/// The scope under which a record is persisted: the override where there is
/// one, else the scope that the snapshot holds.
pub open spec fn scoped(service_id: Option<ServiceId>, embedded: ServiceId) -> ServiceId {
    match service_id {
        Some(s) => s,
        None => embedded,
    }
}

/// How a persisted address relates to the record of the snapshot: its
/// secret is the envelope of the snapshot's secret and opens to it again,
/// its scope is the one to persist under, and nothing else differs.
pub open spec fn imported_address(
    parsed: AddressDb,
    service_id: Option<ServiceId>,
    key: Seq<u8>,
    out: AddressDb,
) -> bool {
    &&& sealed_text(parsed.private_key@, key, parsed.id) == Ok::<Seq<char>, CipherError>(
        out.private_key@,
    )
    &&& base64_bytes(parsed.private_key@) is Some
    &&& opened_bytes(out.private_key@, key, parsed.id) == Ok::<Seq<u8>, CipherError>(
        base64_bytes(parsed.private_key@)->Some_0,
    )
    &&& out == (AddressDb {
        service_id: scoped(service_id, parsed.service_id),
        private_key: out.private_key,
        ..parsed
    })
}

/// The transaction that is persisted for a record of the snapshot.
pub open spec fn scoped_transaction(parsed: TransactionDb, service_id: Option<ServiceId>)
    -> TransactionDb {
    TransactionDb { service_id: scoped(service_id, parsed.service_id), ..parsed }
}

/// The transactions that are persisted for a run of records.
pub open spec fn scoped_transactions(parsed: Seq<TransactionDb>, service_id: Option<ServiceId>)
    -> Seq<TransactionDb> {
    Seq::new(parsed.len(), |i: int| scoped_transaction(parsed[i], service_id))
}

/// The addresses of a snapshot stand at the end of the table, each
/// prepared as `import_address` does and under the scope to persist under.
pub open spec fn addresses_persisted(
    before: Seq<AddressDb>,
    after: Seq<AddressDb>,
    addresses: Seq<AddressDb>,
    service_id: Option<ServiceId>,
    key: Seq<u8>,
) -> bool {
    &&& after.len() == before.len() + addresses.len()
    &&& after.take(before.len() as int) == before
    &&& forall|i: int|
        0 <= i < addresses.len() ==> imported_address(
            addresses[i],
            service_id,
            key,
            #[trigger] after[before.len() + i],
        )
    &&& forall|i: int|
        0 <= i < addresses.len() ==> (#[trigger] after[before.len() + i]).service_id == scoped(
            service_id,
            addresses[i].service_id,
        )
}

/// The first address of a snapshot whose secret cannot be sealed fails with
/// the error `e`.
pub open spec fn first_unsealed(addresses: Seq<AddressDb>, key: Seq<u8>, e: CipherError) -> bool {
    exists|k: int|
        {
            &&& 0 <= k < addresses.len()
            &&& sealed_text((#[trigger] addresses[k]).private_key@, key, addresses[k].id) == Err::<
                Seq<char>,
                CipherError,
            >(e)
            &&& forall|j: int|
                0 <= j < k ==> sealed_text(
                    (#[trigger] addresses[j]).private_key@,
                    key,
                    addresses[j].id,
                ) is Ok
        }
}

/// Every address of a snapshot can be sealed.
pub open spec fn all_sealed(addresses: Seq<AddressDb>, key: Seq<u8>) -> bool {
    forall|j: int|
        0 <= j < addresses.len() ==> sealed_text(
            (#[trigger] addresses[j]).private_key@,
            key,
            addresses[j].id,
        ) is Ok
}

/// The run of transactions stopped at the first one that the table could
/// not take: those before it stand at the end of the table.
pub open spec fn transactions_stopped(
    before: Seq<TransactionDb>,
    after: Seq<TransactionDb>,
    transactions: Seq<TransactionDb>,
    service_id: Option<ServiceId>,
) -> bool {
    exists|k: int|
        {
            &&& 0 <= k < transactions.len()
            &&& transactions_fit(before, #[trigger] transactions.take(k))
            &&& !transactions_fit(before, transactions.take(k + 1))
            &&& after == before + scoped_transactions(transactions.take(k), service_id)
        }
}

/// Prepares one address of a snapshot for the store: puts it under the
/// scope to persist under and seals its secret with the key and its own
/// identity. It fails exactly when the secret cannot be sealed.
pub fn import_address(service_id: &Option<ServiceId>, address: AddressDb, key: [u8; 32]) -> (row:
    Result<AddressDb, CipherError>)
    ensures
        match row {
            Ok(out) => imported_address(address, *service_id, key@, out),
            Err(e) => sealed_text(address.private_key@, key@, address.id) == Err::<
                Seq<char>,
                CipherError,
            >(e),
        },
{
    let mut out = address;
    if let Some(service_id) = service_id {
        out.service_id = *service_id;
    }
    match encrypt(out.private_key.as_str(), key, out.id) {
        Err(e) => Err(e),
        Ok(envelope) => {
            out.private_key = envelope;
            Ok(out)
        },
    }
}

/// Prepares one transaction of a snapshot for the store: puts it under the
/// scope to persist under.
pub fn import_transaction(service_id: &Option<ServiceId>, transaction: TransactionDb) -> (row:
    TransactionDb)
    ensures
        row == scoped_transaction(transaction, *service_id),
{
    let mut row = transaction;
    if let Some(service_id) = service_id {
        row.service_id = *service_id;
    }
    row
}

proof fn lemma_fit_by_identity(table: Seq<AddressDb>, a: Seq<AddressDb>, b: Seq<AddressDb>)
    requires
        a.len() == b.len(),
        forall|i: int| 0 <= i < a.len() ==> (#[trigger] a[i]).id == b[i].id,
        batch_fits(table, a),
    ensures
        batch_fits(table, b),
{
    assert forall|i: int, j: int| 0 <= i < table.len() && 0 <= j < b.len() implies (
    #[trigger] table[i]).id != (#[trigger] b[j]).id by {
        assert(a[j].id == b[j].id);
    }
    assert forall|i: int, j: int| 0 <= i < j < b.len() implies (#[trigger] b[i]).id != (
    #[trigger] b[j]).id by {
        assert(a[i].id == b[i].id);
        assert(a[j].id == b[j].id);
    }
}

/// Imports the addresses of a snapshot as one batch. Either all of them are
/// persisted, each prepared as `import_address` does, or the store is left
/// as it was: where a secret cannot be sealed, with the error of the first
/// such record, and where the batch does not fit the table.
pub fn import_addresses(
    service_id: &Option<ServiceId>,
    sqlx_client: &mut SqlxClient,
    addresses: Vec<AddressDb>,
    key: [u8; 32],
) -> (done: Result<(), ImportError>)
    requires
        old(sqlx_client)@.wf(),
    ensures
        final(sqlx_client)@.wf(),
        match done {
            Ok(_) => {
                &&& batch_fits(old(sqlx_client)@.addresses, addresses@)
                &&& final(sqlx_client)@ == (Ledger {
                    addresses: final(sqlx_client)@.addresses,
                    ..old(sqlx_client)@
                })
                &&& addresses_persisted(
                    old(sqlx_client)@.addresses,
                    final(sqlx_client)@.addresses,
                    addresses@,
                    *service_id,
                    key@,
                )
            },
            Err(ImportError::Cipher(e)) => {
                &&& final(sqlx_client)@ == old(sqlx_client)@
                &&& first_unsealed(addresses@, key@, e)
            },
            Err(ImportError::Storage(e)) => {
                &&& final(sqlx_client)@ == old(sqlx_client)@
                &&& e == StorageError::DuplicateIdentity
                &&& !batch_fits(old(sqlx_client)@.addresses, addresses@)
                &&& all_sealed(addresses@, key@)
            },
            Err(ImportError::Scope) => false,
        },
{
    let mut batch: Vec<AddressDb> = Vec::new();
    let mut i: usize = 0;
    while i < addresses.len()
        invariant
            i <= addresses.len(),
            batch@.len() == i,
            *sqlx_client == *old(sqlx_client),
            sqlx_client@.wf(),
            forall|j: int|
                0 <= j < i ==> imported_address(addresses@[j], *service_id, key@, #[trigger] batch@[j]),
            forall|j: int|
                0 <= j < i ==> sealed_text(
                    (#[trigger] addresses@[j]).private_key@,
                    key@,
                    addresses@[j].id,
                ) is Ok,
        decreases addresses.len() - i,
    {
        match import_address(service_id, addresses[i].clone(), key) {
            Err(e) => {
                assert(sealed_text(addresses@[i as int].private_key@, key@, addresses@[i as int].id)
                    == Err::<Seq<char>, CipherError>(e));
                return Err(ImportError::Cipher(e));
            },
            Ok(row) => {
                batch.push(row);
            },
        }
        i = i + 1;
    }
    let ghost before = sqlx_client@;
    let ghost rows = batch@;
    proof {
        assert forall|j: int| 0 <= j < rows.len() implies (#[trigger] rows[j]).id
            == addresses@[j].id by {
            assert(imported_address(addresses@[j], *service_id, key@, rows[j]));
        }
        if batch_fits(before.addresses, rows) {
            lemma_fit_by_identity(before.addresses, rows, addresses@);
        }
        if batch_fits(before.addresses, addresses@) {
            assert forall|j: int| 0 <= j < rows.len() implies (#[trigger] addresses@[j]).id
                == rows[j].id by {
                assert(imported_address(addresses@[j], *service_id, key@, rows[j]));
            }
            lemma_fit_by_identity(before.addresses, addresses@, rows);
        }
    }
    match sqlx_client.create_addresses(batch) {
        Err(e) => Err(ImportError::Storage(e)),
        Ok(_) => {
            proof {
                let after = sqlx_client@;
                assert(after.addresses.take(before.addresses.len() as int) =~= before.addresses);
                assert forall|j: int| 0 <= j < addresses@.len() implies imported_address(
                    addresses@[j],
                    *service_id,
                    key@,
                    #[trigger] after.addresses[before.addresses.len() + j],
                ) by {
                    assert(after.addresses[before.addresses.len() + j] == rows[j]);
                }
            }
            Ok(())
        },
    }
}

/// Imports the transactions of a snapshot one at a time, in their order,
/// each put under the scope to persist under. The run stops at the first
/// transaction that the store refuses: those before it stay persisted.
pub fn import_transactions(
    service_id: &Option<ServiceId>,
    sqlx_client: &mut SqlxClient,
    transactions: Vec<TransactionDb>,
) -> (done: Result<(), ImportError>)
    requires
        old(sqlx_client)@.wf(),
    ensures
        final(sqlx_client)@.wf(),
        final(sqlx_client)@ == (Ledger {
            transactions: final(sqlx_client)@.transactions,
            ..old(sqlx_client)@
        }),
        match done {
            Ok(_) => {
                &&& transactions_fit(old(sqlx_client)@.transactions, transactions@)
                &&& final(sqlx_client)@.transactions == old(sqlx_client)@.transactions
                    + scoped_transactions(transactions@, *service_id)
            },
            Err(e) => {
                &&& e == ImportError::Storage(StorageError::DuplicateIdentity)
                &&& transactions_stopped(
                    old(sqlx_client)@.transactions,
                    final(sqlx_client)@.transactions,
                    transactions@,
                    *service_id,
                )
            },
        },
{
    let mut i: usize = 0;
    proof {
        assert(scoped_transactions(transactions@.take(0), *service_id) =~= Seq::<
            TransactionDb,
        >::empty());
        assert(old(sqlx_client)@.transactions + Seq::<TransactionDb>::empty()
            =~= old(sqlx_client)@.transactions);
    }
    while i < transactions.len()
        invariant
            i <= transactions.len(),
            old(sqlx_client)@.wf(),
            sqlx_client@.wf(),
            sqlx_client@ == (Ledger {
                transactions: old(sqlx_client)@.transactions + scoped_transactions(
                    transactions@.take(i as int),
                    *service_id,
                ),
                ..old(sqlx_client)@
            }),
            transactions_fit(old(sqlx_client)@.transactions, transactions@.take(i as int)),
        decreases transactions.len() - i,
    {
        let ghost table = old(sqlx_client)@.transactions;
        let ghost taken = transactions@.take(i as int);
        let ghost next = transactions@[i as int];
        let ghost now = sqlx_client@.transactions;
        let row = import_transaction(service_id, transactions[i].clone());
        proof {
            assert(transactions@.take(i + 1) =~= taken.push(next));
            assert(scoped_transactions(taken.push(next), *service_id) =~= scoped_transactions(
                taken,
                *service_id,
            ).push(row));
        }
        match sqlx_client.create_transaction(row) {
            Err(_) => {
                proof {
                    let k = choose|k: int| 0 <= k < now.len() && (#[trigger] now[k]).id == next.id;
                    let more = taken.push(next);
                    assert(more[i as int] == next);
                    if k < table.len() {
                        assert(table[k].id == more[i as int].id);
                    } else {
                        let a = k - table.len();
                        assert(now[k] == scoped_transaction(taken[a], *service_id));
                        assert(more[a] == taken[a]);
                        assert(more[a].id == more[i as int].id);
                    }
                    assert(!transactions_fit(table, more));
                    assert(transactions_fit(table, transactions@.take(i as int)));
                }
                return Err(ImportError::Storage(StorageError::DuplicateIdentity));
            },
            Ok(_) => {
                proof {
                    let more = taken.push(next);
                    assert(now.push(row) =~= table + scoped_transactions(more, *service_id));
                    assert forall|a: int, b: int|
                        0 <= a < table.len() && 0 <= b < more.len() implies (#[trigger] table[a]).id
                        != (#[trigger] more[b]).id by {
                        if b < i {
                            assert(taken[b] == more[b]);
                        } else {
                            assert(now[a] == table[a]);
                        }
                    }
                    assert forall|a: int, b: int| 0 <= a < b < more.len() implies (
                    #[trigger] more[a]).id != (#[trigger] more[b]).id by {
                        assert(taken[a] == more[a]);
                        if b < i {
                            assert(taken[b] == more[b]);
                        } else {
                            assert(now[table.len() + a] == scoped_transaction(
                                taken[a],
                                *service_id,
                            ));
                        }
                    }
                }
            },
        }
        i = i + 1;
    }
    assert(transactions@.take(i as int) =~= transactions@);
    Ok(())
}

/// What the text of a scope override means: no override, the scope that
/// it names, or a refusal.
pub open spec fn override_of(service_id: Option<Seq<char>>) -> Result<Option<ServiceId>, ImportError> {
    match service_id {
        None => Ok(None),
        Some(text) => match uuid_parsed(text) {
            Some(v) => Ok(Some(ServiceId(v))),
            None => Err(ImportError::Scope),
        },
    }
}

/// What the text of a scope override holds, where there is one.
pub open spec fn override_text(service_id: Option<String>) -> Option<Seq<char>> {
    match service_id {
        Some(text) => Some(text@),
        None => None,
    }
}

/// Reads the scope override of an import.
pub fn parse_override(service_id: Option<String>) -> (scope: Result<Option<ServiceId>, ImportError>)
    ensures
        scope == override_of(override_text(service_id)),
{
    match service_id {
        None => Ok(None),
        Some(text) => match ServiceId::parse(text.as_str()) {
            Ok(id) => Ok(Some(id)),
            Err(_) => Err(ImportError::Scope),
        },
    }
}

/// Imports a snapshot: first its addresses, as one batch, then its
/// transactions, one at a time. It stops at the first failure: a scope
/// override that is no scope identifier stops it before anything is
/// persisted, a failure among the addresses leaves the store as it was, and
/// a failure among the transactions leaves the addresses and the
/// transactions before it persisted.
pub fn run_import(
    service_id: Option<String>,
    sqlx_client: &mut SqlxClient,
    addresses: Vec<AddressDb>,
    transactions: Vec<TransactionDb>,
    key: [u8; 32],
) -> (done: Result<(), ImportError>)
    requires
        old(sqlx_client)@.wf(),
    ensures
        final(sqlx_client)@.wf(),
        final(sqlx_client)@ == (Ledger {
            addresses: final(sqlx_client)@.addresses,
            transactions: final(sqlx_client)@.transactions,
            ..old(sqlx_client)@
        }),
        match override_of(override_text(service_id)) {
            Err(e) => done == Err::<(), ImportError>(e) && final(sqlx_client)@ == old(
                sqlx_client,
            )@,
            Ok(scope) => {
                let before = old(sqlx_client)@;
                let after = final(sqlx_client)@;
                match done {
                    Ok(_) => {
                        &&& batch_fits(before.addresses, addresses@)
                        &&& addresses_persisted(
                            before.addresses,
                            after.addresses,
                            addresses@,
                            scope,
                            key@,
                        )
                        &&& transactions_fit(before.transactions, transactions@)
                        &&& after.transactions == before.transactions + scoped_transactions(
                            transactions@,
                            scope,
                        )
                    },
                    Err(ImportError::Scope) => false,
                    Err(ImportError::Cipher(e)) => {
                        &&& after == before
                        &&& first_unsealed(addresses@, key@, e)
                    },
                    Err(ImportError::Storage(e)) => {
                        &&& e == StorageError::DuplicateIdentity
                        &&& all_sealed(addresses@, key@)
                        &&& if batch_fits(before.addresses, addresses@) {
                            &&& addresses_persisted(
                                before.addresses,
                                after.addresses,
                                addresses@,
                                scope,
                                key@,
                            )
                            &&& transactions_stopped(
                                before.transactions,
                                after.transactions,
                                transactions@,
                                scope,
                            )
                        } else {
                            after == before
                        }
                    },
                }
            },
        },
{
    let scope = match parse_override(service_id) {
        Err(e) => {
            return Err(e);
        },
        Ok(scope) => scope,
    };
    match import_addresses(&scope, sqlx_client, addresses, key) {
        Err(e) => {
            return Err(e);
        },
        Ok(_) => {},
    }
    proof {
        let before = old(sqlx_client)@.addresses;
        let stored = sqlx_client@.addresses;
        assert forall|j: int| 0 <= j < addresses@.len() implies sealed_text(
            (#[trigger] addresses@[j]).private_key@,
            key@,
            addresses@[j].id,
        ) is Ok by {
            assert(imported_address(addresses@[j], scope, key@, stored[before.len() + j]));
        }
    }
    import_transactions(&scope, sqlx_client, transactions)
}

/// With a scope override every persisted record carries the override,
/// whatever scope the snapshot holds for it.
pub proof fn lemma_override_scopes_every_record(
    before: Seq<AddressDb>,
    after: Seq<AddressDb>,
    addresses: Seq<AddressDb>,
    transactions: Seq<TransactionDb>,
    scope: ServiceId,
    key: Seq<u8>,
)
    requires
        addresses_persisted(before, after, addresses, Some(scope), key),
    ensures
        forall|i: int| before.len() <= i < after.len() ==> (#[trigger] after[i]).service_id == scope,
        forall|i: int|
            0 <= i < transactions.len() ==> (#[trigger] scoped_transactions(
                transactions,
                Some(scope),
            )[i]).service_id == scope,
{
    assert forall|i: int| before.len() <= i < after.len() implies (#[trigger] after[i]).service_id
        == scope by {
        let j = i - before.len();
        assert(after[before.len() + j].service_id == scoped(Some(scope), addresses[j].service_id));
    }
}

/// Without a scope override every persisted record keeps the scope that the
/// snapshot holds for it.
pub proof fn lemma_no_override_keeps_scope(
    before: Seq<AddressDb>,
    after: Seq<AddressDb>,
    addresses: Seq<AddressDb>,
    transactions: Seq<TransactionDb>,
    key: Seq<u8>,
)
    requires
        addresses_persisted(before, after, addresses, None, key),
    ensures
        forall|i: int|
            0 <= i < addresses.len() ==> (#[trigger] after[before.len() + i]).service_id
                == addresses[i].service_id,
        scoped_transactions(transactions, None) == transactions,
{
    assert(scoped_transactions(transactions, None) =~= transactions);
}

/// An address that went through a snapshot holds the secret that it held
/// before: the row that the import persists opens, under the key of the
/// import, to the plaintext to which the exported row opened under the key
/// of the export. Its identity is the same, and so is its scope where the
/// import has no override.
pub proof fn lemma_snapshot_restores_secret(
    stored: AddressDb,
    export_key: Seq<u8>,
    snapshot: AddressDb,
    service_id: Option<ServiceId>,
    import_key: Seq<u8>,
    restored: AddressDb,
)
    requires
        exported_address(stored, export_key, snapshot),
        imported_address(snapshot, service_id, import_key, restored),
    ensures
        opened_bytes(restored.private_key@, import_key, restored.id) == opened_bytes(
            stored.private_key@,
            export_key,
            stored.id,
        ),
        opened_bytes(restored.private_key@, import_key, restored.id) is Ok,
        restored.id == stored.id,
        restored.service_id == scoped(service_id, stored.service_id),
{
}

/// A scope that went through a snapshot into an empty table is there
/// again: the table holds one row for each stored address, in the same
/// order, with the same identity and scope, and each row opens under the
/// key of the import to the plaintext to which the stored row opened under
/// the key of the export.
pub proof fn lemma_snapshot_restores_addresses(
    stored: Seq<AddressDb>,
    export_key: Seq<u8>,
    snapshot: Seq<AddressDb>,
    import_key: Seq<u8>,
    restored: Seq<AddressDb>,
)
    requires
        addresses_exported(stored, export_key, snapshot),
        addresses_persisted(Seq::empty(), restored, snapshot, None, import_key),
    ensures
        restored.len() == stored.len(),
        forall|i: int|
            0 <= i < stored.len() ==> {
                &&& (#[trigger] restored[i]).id == stored[i].id
                &&& restored[i].service_id == stored[i].service_id
                &&& opened_bytes(restored[i].private_key@, import_key, restored[i].id) is Ok
                &&& opened_bytes(restored[i].private_key@, import_key, restored[i].id)
                    == opened_bytes(stored[i].private_key@, export_key, stored[i].id)
            },
{
    assert forall|i: int| 0 <= i < stored.len() implies {
        &&& (#[trigger] restored[i]).id == stored[i].id
        &&& restored[i].service_id == stored[i].service_id
        &&& opened_bytes(restored[i].private_key@, import_key, restored[i].id) is Ok
        &&& opened_bytes(restored[i].private_key@, import_key, restored[i].id) == opened_bytes(
            stored[i].private_key@,
            export_key,
            stored[i].id,
        )
    } by {
        assert(exported_address(stored[i], export_key, snapshot[i]));
        assert(imported_address(snapshot[i], None, import_key, restored[0 + i]));
        lemma_snapshot_restores_secret(
            stored[i],
            export_key,
            snapshot[i],
            None,
            import_key,
            restored[i],
        );
    }
}

} // verus!
