//! The export pipeline: from the rows of one scope to the records of a
//! snapshot, with every secret opened and every balance neutralized.

use vstd::prelude::*;
use vstd::string::StringExecFns;
use crate::models::records::{AddressDb, TokenOwnerDb, TokenTransactionDb, TransactionDb};
use crate::models::service_id::ServiceId;
use crate::sqlx_client::addresses::addresses_of;
use crate::sqlx_client::token_owners::owner_link;
use crate::sqlx_client::token_transactions::token_transactions_of;
use crate::sqlx_client::transactions::transactions_of;
use crate::sqlx_client::SqlxClient;
use crate::utils::cipher::{decrypt, opened_bytes, opened_text, CipherError};
use crate::utils::encoding::{base64_bytes, base64_encode};

verus! {

/// The file of the transactions in a snapshot directory.
pub const TRANSACTIONS_FILE: &'static str = "transactions.jsonl";

/// The file of the token transactions in a snapshot directory.
pub const TOKEN_TRANSACTIONS_FILE: &'static str = "token_transactions.jsonl";

/// The file of the token ownership links in a snapshot directory.
pub const TOKEN_OWNERS_FILE: &'static str = "token_owners.jsonl";

/// The file of the addresses in a snapshot directory.
pub const ADDRESSES_FILE: &'static str = "addresses.jsonl";

/// The canonical zero that stands for every balance in a snapshot.
pub const ZERO_BALANCE: &'static str = "0";

/// How an address in a snapshot relates to the stored row: its secret is
/// the plaintext of the stored envelope as text, its balance is the
/// canonical zero, and nothing else differs.
pub open spec fn exported_address(stored: AddressDb, key: Seq<u8>, out: AddressDb) -> bool {
    &&& opened_text(stored.private_key@, key, stored.id) == Ok::<Seq<char>, CipherError>(
        out.private_key@,
    )
    &&& base64_bytes(out.private_key@) is Some
    &&& opened_bytes(stored.private_key@, key, stored.id) == Ok::<Seq<u8>, CipherError>(
        base64_bytes(out.private_key@)->Some_0,
    )
    &&& out.balance@ == ZERO_BALANCE@
    &&& out == (AddressDb { private_key: out.private_key, balance: out.balance, ..stored })
}

/// The ownership links of a list of addresses: for each address that owns a
/// token wallet its first link, in the order of the addresses.
pub open spec fn links_of(addresses: Seq<AddressDb>, owners: Seq<TokenOwnerDb>) -> Seq<
    TokenOwnerDb,
>
    decreases addresses.len(),
{
    if addresses.len() == 0 {
        Seq::empty()
    } else {
        let head = links_of(addresses.drop_last(), owners);
        let last = addresses.last();
        match owner_link(owners, last.workchain_id, last.hex@) {
            Some(link) => head.push(link),
            None => head,
        }
    }
}

/// The addresses of a snapshot stand for the stored rows one by one, each
/// with its secret opened and its balance at the canonical zero.
pub open spec fn addresses_exported(stored: Seq<AddressDb>, key: Seq<u8>, out: Seq<AddressDb>)
    -> bool {
    &&& out.len() == stored.len()
    &&& forall|i: int| 0 <= i < stored.len() ==> exported_address(stored[i], key, #[trigger] out[i])
    &&& forall|i: int| 0 <= i < out.len() ==> (#[trigger] out[i]).balance@ == ZERO_BALANCE@
}

/// The first stored address whose secret does not open fails with the
/// error `e`.
pub open spec fn first_unopened(stored: Seq<AddressDb>, key: Seq<u8>, e: CipherError) -> bool {
    exists|k: int|
        {
            &&& 0 <= k < stored.len()
            &&& opened_bytes((#[trigger] stored[k]).private_key@, key, stored[k].id) == Err::<
                Seq<u8>,
                CipherError,
            >(e)
            &&& forall|j: int|
                0 <= j < k ==> opened_bytes(
                    (#[trigger] stored[j]).private_key@,
                    key,
                    stored[j].id,
                ) is Ok
        }
}

/// The records of one scope, as a snapshot holds them.
pub struct Snapshot {
    pub transactions: Vec<TransactionDb>,
    pub token_owners: Vec<TokenOwnerDb>,
    pub token_transactions: Vec<TokenTransactionDb>,
    pub addresses: Vec<AddressDb>,
}

/// Prepares one address for a snapshot: opens its secret with the key and
/// its own identity, writes the plaintext as text in its place and sets the
/// balance to the canonical zero. It fails exactly when the secret does not
/// open.
pub fn export_address(address: AddressDb, key: [u8; 32]) -> (exported: Result<
    AddressDb,
    CipherError,
>)
    ensures
        match exported {
            Ok(out) => exported_address(address, key@, out),
            Err(e) => opened_bytes(address.private_key@, key@, address.id) == Err::<
                Seq<u8>,
                CipherError,
            >(e),
        },
{
    match decrypt(address.private_key.as_str(), key, address.id) {
        Err(e) => Err(e),
        Ok(plaintext) => {
            let mut out = address;
            out.private_key = base64_encode(plaintext.as_slice());
            out.balance = String::from_str(ZERO_BALANCE);
            Ok(out)
        },
    }
}

/// The transactions of a scope, as they are stored.
pub fn export_transactions(service_id: ServiceId, sqlx_client: &SqlxClient) -> (rows: Vec<
    TransactionDb,
>)
    ensures
        rows@ == transactions_of(sqlx_client@.transactions, service_id),
{
    sqlx_client.get_all_transactions(service_id)
}

/// The token transactions of a scope, as they are stored.
pub fn export_token_transactions(service_id: ServiceId, sqlx_client: &SqlxClient) -> (rows: Vec<
    TokenTransactionDb,
>)
    ensures
        rows@ == token_transactions_of(sqlx_client@.token_transactions, service_id),
{
    sqlx_client.get_all_token_transactions(service_id)
}

/// The addresses of a scope, each prepared for a snapshot. The export fails
/// with the error of the first address whose secret does not open.
pub fn export_addresses(service_id: ServiceId, sqlx_client: &SqlxClient, key: [u8; 32]) -> (rows:
    Result<Vec<AddressDb>, CipherError>)
    ensures
        match rows {
            Ok(out) => addresses_exported(
                addresses_of(sqlx_client@.addresses, service_id),
                key@,
                out@,
            ),
            Err(e) => first_unopened(addresses_of(sqlx_client@.addresses, service_id), key@, e),
        },
{
    let addresses = sqlx_client.get_all_addresses(service_id);
    let mut out: Vec<AddressDb> = Vec::new();
    let mut i: usize = 0;
    while i < addresses.len()
        invariant
            i <= addresses.len(),
            addresses@ == addresses_of(sqlx_client@.addresses, service_id),
            out@.len() == i,
            forall|j: int| 0 <= j < i ==> exported_address(addresses@[j], key@, #[trigger] out@[j]),
            forall|j: int|
                0 <= j < i ==> opened_bytes(
                    (#[trigger] addresses@[j]).private_key@,
                    key@,
                    addresses@[j].id,
                ) is Ok,
        decreases addresses.len() - i,
    {
        match export_address(addresses[i].clone(), key) {
            Err(e) => {
                assert(opened_bytes(addresses@[i as int].private_key@, key@, addresses@[i as int].id)
                    == Err::<Seq<u8>, CipherError>(e));
                return Err(e);
            },
            Ok(row) => {
                out.push(row);
            },
        }
        i = i + 1;
    }
    Ok(out)
}

/// The ownership links of the addresses of a scope. An address without a
/// link is passed over: that it owns no token wallet is no error.
pub fn export_token_owners(service_id: ServiceId, sqlx_client: &SqlxClient) -> (rows: Vec<
    TokenOwnerDb,
>)
    ensures
        rows@ == links_of(
            addresses_of(sqlx_client@.addresses, service_id),
            sqlx_client@.token_owners,
        ),
{
    let addresses = sqlx_client.get_all_addresses(service_id);
    let mut rows: Vec<TokenOwnerDb> = Vec::new();
    let mut i: usize = 0;
    assert(addresses@.take(0) =~= Seq::<AddressDb>::empty());
    while i < addresses.len()
        invariant
            i <= addresses.len(),
            rows@ == links_of(addresses@.take(i as int), sqlx_client@.token_owners),
        decreases addresses.len() - i,
    {
        assert(addresses@.take(i + 1).drop_last() =~= addresses@.take(i as int));
        assert(addresses@.take(i + 1).last() == addresses@[i as int]);
        match sqlx_client.get_token_owner_by_owner_account(
            addresses[i].workchain_id,
            addresses[i].hex.as_str(),
        ) {
            Ok(link) => {
                rows.push(link);
            },
            Err(_) => {},
        }
        i = i + 1;
    }
    assert(addresses@.take(i as int) =~= addresses@);
    rows
}

/// Exports one scope: its transactions, its ownership links, its token
/// transactions and, last, its addresses. Nothing is exported where an
/// address's secret does not open.
pub fn run_export(service_id: ServiceId, sqlx_client: &SqlxClient, key: [u8; 32]) -> (snapshot:
    Result<Snapshot, CipherError>)
    ensures
        match snapshot {
            Ok(s) => {
                let stored = addresses_of(sqlx_client@.addresses, service_id);
                &&& s.transactions@ == transactions_of(sqlx_client@.transactions, service_id)
                &&& s.token_owners@ == links_of(stored, sqlx_client@.token_owners)
                &&& s.token_transactions@ == token_transactions_of(
                    sqlx_client@.token_transactions,
                    service_id,
                )
                &&& addresses_exported(stored, key@, s.addresses@)
            },
            Err(e) => first_unopened(addresses_of(sqlx_client@.addresses, service_id), key@, e),
        },
{
    let transactions = export_transactions(service_id, sqlx_client);
    let token_owners = export_token_owners(service_id, sqlx_client);
    let token_transactions = export_token_transactions(service_id, sqlx_client);
    match export_addresses(service_id, sqlx_client, key) {
        Err(e) => Err(e),
        Ok(addresses) => Ok(Snapshot { transactions, token_owners, token_transactions, addresses }),
    }
}

} // verus!
