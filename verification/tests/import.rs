use ton_api_utility::import::{
    import_address, import_addresses, import_transaction, import_transactions, parse_override,
    run_import, ImportError,
};
use ton_api_utility::models::{
    AccountType, AddressDb, ServiceId, TonTransactionDirection, TonTransactionStatus,
    TransactionDb,
};
use ton_api_utility::sqlx_client::{SqlxClient, StorageError, Store};
use ton_api_utility::utils::{decrypt, CipherError};

const KEY: [u8; 32] = [11u8; 32];

fn im_secret(id: u128) -> Vec<u8> {
    format!("secret of {}", id).into_bytes()
}

fn im_address(id: u128, scope: u128) -> AddressDb {
    AddressDb {
        id,
        service_id: ServiceId::new(scope),
        workchain_id: -1,
        hex: format!("{:04x}", id),
        base64url: format!("base64url-{}", id),
        public_key: format!("public-{}", id),
        private_key: base64::encode(im_secret(id)),
        account_type: AccountType::HighloadWallet,
        custodians: None,
        confirmations: Some(1),
        custodians_public_keys: None,
        balance: "0".to_string(),
        created_at: 10,
        updated_at: 20,
    }
}

fn im_transaction(id: u128, scope: u128) -> TransactionDb {
    TransactionDb {
        id,
        service_id: ServiceId::new(scope),
        message_hash: format!("message-{}", id),
        transaction_hash: None,
        transaction_lt: None,
        transaction_timeout: None,
        transaction_scan_lt: Some(4),
        transaction_timestamp: None,
        sender_workchain_id: None,
        sender_hex: Some("ff".to_string()),
        account_workchain_id: 0,
        account_hex: "aa".to_string(),
        messages: Some("[]".to_string()),
        messages_hash: None,
        data: None,
        original_value: None,
        original_outputs: None,
        value: None,
        fee: None,
        balance_change: None,
        direction: TonTransactionDirection::Receive,
        status: TonTransactionStatus::PartiallyDone,
        error: Some("late".to_string()),
        aborted: true,
        bounce: false,
        created_at: 1,
        updated_at: 2,
    }
}

fn im_uuid(v: u128) -> String {
    ServiceId::new(v).to_hyphenated()
}

#[test]
fn imported_address_holds_envelope_of_its_secret() {
    let parsed = im_address(1 << 64, 5);
    let row = import_address(&None, parsed.clone(), KEY).unwrap();
    assert_ne!(row.private_key, parsed.private_key);
    assert_eq!(decrypt(&row.private_key, KEY, 1 << 64), Ok(im_secret(1 << 64)));
    assert_eq!(row.service_id, ServiceId::new(5));
    assert_eq!(row.id, parsed.id);
    assert_eq!(row.hex, parsed.hex);
    assert_eq!(row.workchain_id, -1);
    assert_eq!(row.balance, "0");
    assert_eq!(row.confirmations, Some(1));
    assert_eq!(row.account_type, AccountType::HighloadWallet);
}

#[test]
fn imported_address_carries_the_override() {
    let row = import_address(&Some(ServiceId::new(9)), im_address(1, 5), KEY).unwrap();
    assert_eq!(row.service_id, ServiceId::new(9));
    assert_eq!(decrypt(&row.private_key, KEY, 1), Ok(im_secret(1)));
}

#[test]
fn import_address_refuses_secret_that_is_not_base64() {
    let mut parsed = im_address(1, 5);
    parsed.private_key = "not base64".to_string();
    assert_eq!(import_address(&None, parsed, KEY).err(), Some(CipherError::Encoding));
}

#[test]
fn imported_transaction_carries_the_override() {
    let row = import_transaction(&Some(ServiceId::new(9)), im_transaction(1, 5));
    assert_eq!(row.service_id, ServiceId::new(9));
    assert_eq!(row.id, 1);
    assert_eq!(row.message_hash, "message-1");
    assert_eq!(row.status, TonTransactionStatus::PartiallyDone);
    assert_eq!(row.error, Some("late".to_string()));
    assert!(row.aborted);
    let row = import_transaction(&None, im_transaction(1, 5));
    assert_eq!(row.service_id, ServiceId::new(5));
}

#[test]
fn override_is_read_from_uuid_text() {
    assert_eq!(parse_override(None), Ok(None));
    assert_eq!(parse_override(Some(im_uuid(77))), Ok(Some(ServiceId::new(77))));
    assert_eq!(parse_override(Some("seventy-seven".to_string())), Err(ImportError::Scope));
    assert_eq!(parse_override(Some(String::new())), Err(ImportError::Scope));
}

#[test]
fn scope_override_reaches_every_record() {
    let mut client = SqlxClient::new(Store::new());
    let addresses = vec![im_address(1, 5), im_address(2, 6), im_address(3, 5)];
    let transactions = vec![im_transaction(1, 5), im_transaction(2, 6)];
    assert_eq!(run_import(Some(im_uuid(9)), &mut client, addresses, transactions, KEY), Ok(()));
    let rows = client.get_all_addresses(ServiceId::new(9));
    assert_eq!(rows.iter().map(|a| a.id).collect::<Vec<u128>>(), vec![1, 2, 3]);
    let rows = client.get_all_transactions(ServiceId::new(9));
    assert_eq!(rows.iter().map(|t| t.id).collect::<Vec<u128>>(), vec![1, 2]);
    assert!(client.get_all_addresses(ServiceId::new(5)).is_empty());
    assert!(client.get_all_addresses(ServiceId::new(6)).is_empty());
    assert!(client.get_all_transactions(ServiceId::new(5)).is_empty());
    assert!(client.get_all_transactions(ServiceId::new(6)).is_empty());
}

#[test]
fn without_override_scopes_are_kept() {
    let mut client = SqlxClient::new(Store::new());
    let addresses = vec![im_address(1, 5), im_address(2, 6), im_address(3, 5)];
    let transactions = vec![im_transaction(1, 5), im_transaction(2, 6)];
    assert_eq!(run_import(None, &mut client, addresses, transactions, KEY), Ok(()));
    let rows = client.get_all_addresses(ServiceId::new(5));
    assert_eq!(rows.iter().map(|a| a.id).collect::<Vec<u128>>(), vec![1, 3]);
    for row in rows.iter() {
        assert_eq!(decrypt(&row.private_key, KEY, row.id), Ok(im_secret(row.id)));
    }
    let rows = client.get_all_transactions(ServiceId::new(6));
    assert_eq!(rows.iter().map(|t| t.id).collect::<Vec<u128>>(), vec![2]);
}

#[test]
fn invalid_override_stops_the_import_before_anything_is_persisted() {
    let mut client = SqlxClient::new(Store::new());
    let done = run_import(
        Some("nonsense".to_string()),
        &mut client,
        vec![im_address(1, 5)],
        vec![im_transaction(1, 5)],
        KEY,
    );
    assert_eq!(done, Err(ImportError::Scope));
    assert!(client.get_all_addresses(ServiceId::new(5)).is_empty());
    assert!(client.get_all_transactions(ServiceId::new(5)).is_empty());
}

#[test]
fn one_failing_address_leaves_none_of_the_batch() {
    let mut client = SqlxClient::new(Store::new());
    client.create_address(im_address(2, 5)).unwrap();
    let batch = vec![im_address(1, 5), im_address(2, 5), im_address(3, 5)];
    assert_eq!(
        import_addresses(&None, &mut client, batch, KEY),
        Err(ImportError::Storage(StorageError::DuplicateIdentity))
    );
    let rows = client.get_all_addresses(ServiceId::new(5));
    assert_eq!(rows.iter().map(|a| a.id).collect::<Vec<u128>>(), vec![2]);
}

#[test]
fn one_unsealable_address_leaves_none_of_the_batch() {
    let mut client = SqlxClient::new(Store::new());
    let mut broken = im_address(3, 5);
    broken.private_key = "%%%".to_string();
    let batch = vec![im_address(1, 5), im_address(2, 5), broken];
    assert_eq!(
        import_addresses(&None, &mut client, batch, KEY),
        Err(ImportError::Cipher(CipherError::Encoding))
    );
    assert!(client.get_all_addresses(ServiceId::new(5)).is_empty());
}

#[test]
fn failing_addresses_stop_the_run_before_the_transactions() {
    let mut client = SqlxClient::new(Store::new());
    let addresses = vec![im_address(1, 5), im_address(1, 5)];
    let done = run_import(None, &mut client, addresses, vec![im_transaction(1, 5)], KEY);
    assert_eq!(done, Err(ImportError::Storage(StorageError::DuplicateIdentity)));
    assert!(client.get_all_addresses(ServiceId::new(5)).is_empty());
    assert!(client.get_all_transactions(ServiceId::new(5)).is_empty());
}

#[test]
fn failing_transaction_leaves_those_before_it() {
    let mut client = SqlxClient::new(Store::new());
    client.create_transaction(im_transaction(3, 5)).unwrap();
    let run = vec![im_transaction(1, 5), im_transaction(2, 5), im_transaction(3, 5), im_transaction(4, 5)];
    assert_eq!(
        import_transactions(&Some(ServiceId::new(6)), &mut client, run),
        Err(ImportError::Storage(StorageError::DuplicateIdentity))
    );
    let rows = client.get_all_transactions(ServiceId::new(6));
    assert_eq!(rows.iter().map(|t| t.id).collect::<Vec<u128>>(), vec![1, 2]);
    let rows = client.get_all_transactions(ServiceId::new(5));
    assert_eq!(rows.iter().map(|t| t.id).collect::<Vec<u128>>(), vec![3]);
}

#[test]
fn failing_transaction_leaves_the_addresses_persisted() {
    let mut client = SqlxClient::new(Store::new());
    let done = run_import(
        None,
        &mut client,
        vec![im_address(1, 5), im_address(2, 5)],
        vec![im_transaction(1, 5), im_transaction(1, 5), im_transaction(2, 5)],
        KEY,
    );
    assert_eq!(done, Err(ImportError::Storage(StorageError::DuplicateIdentity)));
    assert_eq!(client.get_all_addresses(ServiceId::new(5)).len(), 2);
    let rows = client.get_all_transactions(ServiceId::new(5));
    assert_eq!(rows.iter().map(|t| t.id).collect::<Vec<u128>>(), vec![1]);
}

#[test]
fn import_of_nothing_changes_nothing() {
    let mut client = SqlxClient::new(Store::new());
    assert_eq!(run_import(None, &mut client, Vec::new(), Vec::new(), KEY), Ok(()));
    assert!(client.get_all_addresses(ServiceId::new(5)).is_empty());
}
