use ton_api_utility::models::{
    AccountType, AddressDb, ServiceId, TokenOwnerDb, TokenTransactionDb, TonTokenTransactionStatus,
    TonTransactionDirection, TonTransactionStatus, TransactionDb,
};
use ton_api_utility::sqlx_client::{SqlxClient, StorageError, Store};

fn gw_address(id: u128, scope: u128) -> AddressDb {
    AddressDb {
        id,
        service_id: ServiceId::new(scope),
        workchain_id: 0,
        hex: format!("{:064x}", id),
        base64url: format!("base64url-{}", id),
        public_key: format!("public-{}", id),
        private_key: format!("private-{}", id),
        account_type: AccountType::SafeMultisig,
        custodians: Some(3),
        confirmations: Some(2),
        custodians_public_keys: Some("[\"k1\",\"k2\",\"k3\"]".to_string()),
        balance: "1250.5".to_string(),
        created_at: 1_600_000_000_000_000,
        updated_at: 1_600_000_000_000_001,
    }
}

fn gw_transaction(id: u128, scope: u128) -> TransactionDb {
    TransactionDb {
        id,
        service_id: ServiceId::new(scope),
        message_hash: format!("message-{}", id),
        transaction_hash: Some(format!("transaction-{}", id)),
        transaction_lt: Some("1000".to_string()),
        transaction_timeout: Some(60),
        transaction_scan_lt: None,
        transaction_timestamp: Some(1_600_000_000),
        sender_workchain_id: Some(0),
        sender_hex: None,
        account_workchain_id: 0,
        account_hex: "aa".to_string(),
        messages: None,
        messages_hash: None,
        data: None,
        original_value: None,
        original_outputs: None,
        value: Some("5".to_string()),
        fee: Some("0.01".to_string()),
        balance_change: Some("-5.01".to_string()),
        direction: TonTransactionDirection::Send,
        status: TonTransactionStatus::Done,
        error: None,
        aborted: false,
        bounce: true,
        created_at: 1,
        updated_at: 2,
    }
}

fn gw_token_transaction(id: u128, scope: u128) -> TokenTransactionDb {
    TokenTransactionDb {
        id,
        service_id: ServiceId::new(scope),
        transaction_hash: None,
        transaction_timestamp: None,
        message_hash: format!("message-{}", id),
        owner_message_hash: None,
        account_workchain_id: 0,
        account_hex: "aa".to_string(),
        value: "10".to_string(),
        root_address: "0:root".to_string(),
        payload: None,
        error: None,
        block_hash: None,
        block_time: None,
        direction: TonTransactionDirection::Receive,
        status: TonTokenTransactionStatus::New,
        created_at: 1,
        updated_at: 2,
    }
}

fn gw_owner(address: &str, workchain: i32, hex: &str) -> TokenOwnerDb {
    TokenOwnerDb {
        address: address.to_string(),
        owner_account_workchain_id: workchain,
        owner_account_hex: hex.to_string(),
        root_address: "0:root".to_string(),
        code_hash: "Y29kZQ==".to_string(),
        created_at: 7,
    }
}

fn gw_ids(rows: &[AddressDb]) -> Vec<u128> {
    rows.iter().map(|a| a.id).collect()
}

#[test]
fn new_store_is_empty() {
    let client = SqlxClient::new(Store::new());
    assert!(client.get_all_addresses(ServiceId::new(1)).is_empty());
    assert!(client.get_all_transactions(ServiceId::new(1)).is_empty());
    assert!(client.get_all_token_transactions(ServiceId::new(1)).is_empty());
    assert_eq!(
        client.get_token_owner_by_owner_account(0, "aa").err(),
        Some(StorageError::NotFound)
    );
}

#[test]
fn create_address_returns_the_row() {
    let mut client = SqlxClient::new(Store::new());
    let row = client.create_address(gw_address(1, 9)).unwrap();
    assert_eq!(row.id, 1);
    assert_eq!(row.service_id, ServiceId::new(9));
    assert_eq!(row.balance, "1250.5");
    assert_eq!(row.private_key, "private-1");
    assert_eq!(row.custodians, Some(3));
    assert_eq!(gw_ids(&client.get_all_addresses(ServiceId::new(9))), vec![1]);
}

#[test]
fn create_address_refuses_taken_identity() {
    let mut client = SqlxClient::new(Store::new());
    client.create_address(gw_address(1, 9)).unwrap();
    let again = client.create_address(gw_address(1, 8));
    assert_eq!(again.err(), Some(StorageError::DuplicateIdentity));
    assert_eq!(gw_ids(&client.get_all_addresses(ServiceId::new(9))), vec![1]);
    assert!(client.get_all_addresses(ServiceId::new(8)).is_empty());
}

#[test]
fn addresses_are_grouped_by_scope_in_table_order() {
    let mut client = SqlxClient::new(Store::new());
    for (id, scope) in [(5u128, 1u128), (3, 2), (9, 1), (1, 1), (4, 2)] {
        client.create_address(gw_address(id, scope)).unwrap();
    }
    assert_eq!(gw_ids(&client.get_all_addresses(ServiceId::new(1))), vec![5, 9, 1]);
    assert_eq!(gw_ids(&client.get_all_addresses(ServiceId::new(2))), vec![3, 4]);
    assert!(client.get_all_addresses(ServiceId::new(3)).is_empty());
}

#[test]
fn batch_is_inserted_whole() {
    let mut client = SqlxClient::new(Store::new());
    client.create_address(gw_address(1, 1)).unwrap();
    let batch = vec![gw_address(2, 1), gw_address(3, 1), gw_address(4, 2)];
    assert_eq!(client.create_addresses(batch), Ok(()));
    assert_eq!(gw_ids(&client.get_all_addresses(ServiceId::new(1))), vec![1, 2, 3]);
    assert_eq!(gw_ids(&client.get_all_addresses(ServiceId::new(2))), vec![4]);
}

#[test]
fn empty_batch_changes_nothing() {
    let mut client = SqlxClient::new(Store::new());
    client.create_address(gw_address(1, 1)).unwrap();
    assert_eq!(client.create_addresses(Vec::new()), Ok(()));
    assert_eq!(gw_ids(&client.get_all_addresses(ServiceId::new(1))), vec![1]);
}

#[test]
fn batch_with_taken_identity_leaves_nothing() {
    let mut client = SqlxClient::new(Store::new());
    client.create_address(gw_address(1, 1)).unwrap();
    client.create_address(gw_address(2, 1)).unwrap();
    let batch = vec![gw_address(10, 1), gw_address(11, 1), gw_address(2, 1), gw_address(12, 1)];
    assert_eq!(client.create_addresses(batch), Err(StorageError::DuplicateIdentity));
    assert_eq!(gw_ids(&client.get_all_addresses(ServiceId::new(1))), vec![1, 2]);
}

#[test]
fn batch_with_taken_identity_in_last_place_leaves_nothing() {
    let mut client = SqlxClient::new(Store::new());
    client.create_address(gw_address(1, 1)).unwrap();
    let batch = vec![gw_address(10, 1), gw_address(11, 1), gw_address(1, 1)];
    assert_eq!(client.create_addresses(batch), Err(StorageError::DuplicateIdentity));
    assert_eq!(gw_ids(&client.get_all_addresses(ServiceId::new(1))), vec![1]);
}

#[test]
fn batch_with_repeated_identity_leaves_nothing() {
    let mut client = SqlxClient::new(Store::new());
    let batch = vec![gw_address(10, 1), gw_address(11, 1), gw_address(10, 2)];
    assert_eq!(client.create_addresses(batch), Err(StorageError::DuplicateIdentity));
    assert!(client.get_all_addresses(ServiceId::new(1)).is_empty());
    assert!(client.get_all_addresses(ServiceId::new(2)).is_empty());
    assert_eq!(client.create_addresses(vec![gw_address(10, 1)]), Ok(()));
}

#[test]
fn transactions_are_inserted_and_grouped_by_scope() {
    let mut client = SqlxClient::new(Store::new());
    let row = client.create_transaction(gw_transaction(1, 1)).unwrap();
    assert_eq!(row.message_hash, "message-1");
    assert_eq!(row.status, TonTransactionStatus::Done);
    client.create_transaction(gw_transaction(2, 2)).unwrap();
    client.create_transaction(gw_transaction(3, 1)).unwrap();
    assert_eq!(
        client.create_transaction(gw_transaction(2, 1)).err(),
        Some(StorageError::DuplicateIdentity)
    );
    let ids: Vec<u128> =
        client.get_all_transactions(ServiceId::new(1)).iter().map(|t| t.id).collect();
    assert_eq!(ids, vec![1, 3]);
    let ids: Vec<u128> =
        client.get_all_transactions(ServiceId::new(2)).iter().map(|t| t.id).collect();
    assert_eq!(ids, vec![2]);
}

#[test]
fn token_transactions_are_inserted_and_grouped_by_scope() {
    let mut client = SqlxClient::new(Store::new());
    let row = client.create_token_transaction(gw_token_transaction(1, 1)).unwrap();
    assert_eq!(row.value, "10");
    assert_eq!(row.status, TonTokenTransactionStatus::New);
    client.create_token_transaction(gw_token_transaction(2, 2)).unwrap();
    assert_eq!(
        client.create_token_transaction(gw_token_transaction(1, 2)).err(),
        Some(StorageError::DuplicateIdentity)
    );
    let ids: Vec<u128> =
        client.get_all_token_transactions(ServiceId::new(1)).iter().map(|t| t.id).collect();
    assert_eq!(ids, vec![1]);
    // the same identity may stand in different tables
    client.create_transaction(gw_transaction(1, 1)).unwrap();
    client.create_address(gw_address(1, 1)).unwrap();
}

#[test]
fn token_owner_is_found_by_owner_account() {
    let mut client = SqlxClient::new(Store::new());
    client.create_token_owner(gw_owner("0:wallet-a", 0, "aa"));
    client.create_token_owner(gw_owner("0:wallet-b", -1, "aa"));
    client.create_token_owner(gw_owner("0:wallet-c", 0, "bb"));
    let link = client.get_token_owner_by_owner_account(-1, "aa").unwrap();
    assert_eq!(link.address, "0:wallet-b");
    assert_eq!(link.code_hash, "Y29kZQ==");
    let link = client.get_token_owner_by_owner_account(0, "bb").unwrap();
    assert_eq!(link.address, "0:wallet-c");
    assert_eq!(
        client.get_token_owner_by_owner_account(1, "aa").err(),
        Some(StorageError::NotFound)
    );
    assert_eq!(
        client.get_token_owner_by_owner_account(0, "a").err(),
        Some(StorageError::NotFound)
    );
}

#[test]
fn token_owner_with_taken_address_is_passed_over() {
    let mut client = SqlxClient::new(Store::new());
    client.create_token_owner(gw_owner("0:wallet-a", 0, "aa"));
    client.create_token_owner(gw_owner("0:wallet-a", 0, "bb"));
    assert_eq!(client.get_token_owner_by_owner_account(0, "aa").unwrap().address, "0:wallet-a");
    assert_eq!(
        client.get_token_owner_by_owner_account(0, "bb").err(),
        Some(StorageError::NotFound)
    );
}

#[test]
fn first_link_of_an_account_is_returned() {
    let mut client = SqlxClient::new(Store::new());
    client.create_token_owner(gw_owner("0:wallet-a", 0, "aa"));
    client.create_token_owner(gw_owner("0:wallet-b", 0, "aa"));
    assert_eq!(client.get_token_owner_by_owner_account(0, "aa").unwrap().address, "0:wallet-a");
}

#[test]
fn store_comes_back_from_the_client() {
    let mut client = SqlxClient::new(Store::new());
    client.create_address(gw_address(1, 1)).unwrap();
    let again = SqlxClient::new(client.into_pool());
    assert_eq!(gw_ids(&again.get_all_addresses(ServiceId::new(1))), vec![1]);
}
