use delegated_transfer::address::Address;
use delegated_transfer::error::{RejectReason, TransferError};
use delegated_transfer::handler::{prepare_transfer, process_delegated_transfer, AccountRef};
use delegated_transfer::ledger::Ledger;
use delegated_transfer::pda::derive_authority;

fn addr(n: u8) -> Address {
    Address::new(vec![n; 32])
}

fn mint_data(decimals: u8, initialized: bool) -> Vec<u8> {
    let mut data = vec![0u8; 82];
    data[44] = decimals;
    data[45] = if initialized { 1 } else { 0 };
    data
}

fn holding_data(token_class: &Address, authority: &Address, amount: u64, state: u8) -> Vec<u8> {
    let mut data = vec![0u8; 165];
    data[0..32].copy_from_slice(&token_class.bytes);
    data[32..64].copy_from_slice(&authority.bytes);
    data[64..72].copy_from_slice(&amount.to_le_bytes());
    data[108] = state;
    data
}

fn account(key: &Address, data: Vec<u8>) -> AccountRef {
    AccountRef { key: key.clone(), data }
}

fn identity() -> Address {
    addr(7)
}

fn valid_accounts(identity: &Address) -> Vec<AccountRef> {
    let (authority, _) = derive_authority(identity).unwrap();
    let class_key = addr(10);
    vec![
        account(&addr(11), holding_data(&class_key, &authority, 10_000, 1)),
        account(&class_key, mint_data(9, true)),
        account(&addr(12), holding_data(&class_key, &addr(14), 0, 1)),
        account(&authority, vec![]),
        account(&addr(13), vec![]),
    ]
}

#[test]
fn derivation_is_deterministic() {
    let id = identity();
    let (a1, b1) = derive_authority(&id).unwrap();
    let (a2, b2) = derive_authority(&id).unwrap();
    assert_eq!(a1.bytes, a2.bytes);
    assert_eq!(b1, b2);
    assert_eq!(a1.bytes.len(), 32);
    // the derived address is a genuine derivation, not the identity echoed back
    assert_ne!(a1.bytes, id.bytes);
}

#[test]
fn prepare_builds_the_canonical_request() {
    let id = identity();
    let (authority, bump) = derive_authority(&id).unwrap();
    let accounts = valid_accounts(&id);
    let req = prepare_transfer(&id, &accounts).unwrap();
    assert_eq!(req.source.bytes, accounts[0].key.bytes);
    assert_eq!(req.token_class.bytes, accounts[1].key.bytes);
    assert_eq!(req.destination.bytes, accounts[2].key.bytes);
    assert_eq!(req.authority.bytes, authority.bytes);
    assert_eq!(req.token_service.bytes, accounts[4].key.bytes);
    assert_eq!(req.amount, 10_000);
    assert_eq!(req.decimals, 9);
    assert_eq!(req.seed, b"authority".to_vec());
    assert_eq!(req.bump, bump);
}

#[test]
fn fewer_than_five_accounts_is_missing_account() {
    let id = identity();
    let mut accounts = valid_accounts(&id);
    accounts.pop();
    let r = prepare_transfer(&id, &accounts);
    assert!(matches!(r, Err(TransferError::MissingAccount)));
}

#[test]
fn extra_accounts_are_ignored() {
    let id = identity();
    let mut accounts = valid_accounts(&id);
    accounts.push(account(&addr(99), vec![1, 2, 3]));
    assert!(prepare_transfer(&id, &accounts).is_ok());
}

#[test]
fn wrong_claimed_authority_is_invalid_authority() {
    let id = identity();
    let mut accounts = valid_accounts(&id);
    accounts[3] = account(&addr(42), vec![]);
    let r = prepare_transfer(&id, &accounts);
    assert!(matches!(r, Err(TransferError::InvalidAuthority)));
}

#[test]
fn authority_for_another_identity_is_invalid_authority() {
    let id = identity();
    let other = addr(8);
    let (foreign_authority, _) = derive_authority(&other).unwrap();
    let mut accounts = valid_accounts(&id);
    accounts[3] = account(&foreign_authority, vec![]);
    let r = prepare_transfer(&id, &accounts);
    assert!(matches!(r, Err(TransferError::InvalidAuthority)));
}

#[test]
fn short_token_class_data_is_malformed_token_class() {
    let id = identity();
    let mut accounts = valid_accounts(&id);
    let key = accounts[1].key.clone();
    accounts[1] = account(&key, vec![0u8; 81]);
    let r = prepare_transfer(&id, &accounts);
    assert!(matches!(r, Err(TransferError::MalformedTokenClass)));
}

#[test]
fn uninitialized_token_class_is_malformed_token_class() {
    let id = identity();
    let mut accounts = valid_accounts(&id);
    let key = accounts[1].key.clone();
    accounts[1] = account(&key, mint_data(9, false));
    let r = prepare_transfer(&id, &accounts);
    assert!(matches!(r, Err(TransferError::MalformedTokenClass)));
}

#[test]
fn uninitialized_source_holding_is_malformed_account() {
    let id = identity();
    let (authority, _) = derive_authority(&id).unwrap();
    let mut accounts = valid_accounts(&id);
    let key = accounts[0].key.clone();
    let class_key = accounts[1].key.clone();
    accounts[0] = account(&key, holding_data(&class_key, &authority, 10_000, 0));
    let r = prepare_transfer(&id, &accounts);
    assert!(matches!(r, Err(TransferError::MalformedAccount)));
}

#[test]
fn short_source_holding_is_malformed_account() {
    let id = identity();
    let mut accounts = valid_accounts(&id);
    let key = accounts[0].key.clone();
    accounts[0] = account(&key, vec![0u8; 164]);
    let r = prepare_transfer(&id, &accounts);
    assert!(matches!(r, Err(TransferError::MalformedAccount)));
}

#[test]
fn swapping_destination_and_authority_is_rejected() {
    let id = identity();
    let mut accounts = valid_accounts(&id);
    accounts.swap(2, 3);
    let r = prepare_transfer(&id, &accounts);
    assert!(matches!(r, Err(TransferError::InvalidAuthority)));
}

#[test]
fn swapping_source_and_token_class_is_rejected() {
    let id = identity();
    let mut accounts = valid_accounts(&id);
    accounts.swap(0, 1);
    let r = prepare_transfer(&id, &accounts);
    assert!(matches!(r, Err(TransferError::MalformedTokenClass)));
}

#[test]
fn swapping_source_and_destination_is_not_a_silent_success() {
    // both positions decode as holdings, so validation passes, but the
    // delegated authority has no custody of the destination holding
    let id = identity();
    let (authority, _) = derive_authority(&id).unwrap();
    let class_key = addr(10);
    let source_key = addr(11);
    let dest_key = addr(12);
    let mut service = Ledger::new_service();
    assert!(service.create_token_class(&class_key, 9));
    assert!(service.create_holding(&source_key, &class_key, &authority));
    assert!(service.create_holding(&dest_key, &class_key, &addr(14)));
    assert!(service.mint_to(&source_key, 10_000));
    let mut accounts = valid_accounts(&id);
    accounts.swap(0, 2);
    let r = process_delegated_transfer(&id, &accounts, &mut service);
    assert!(matches!(
        r,
        Err(TransferError::TransferRejected(RejectReason::NotAuthorized))
    ));
    assert_eq!(service.balance_of(&source_key), Some(10_000));
    assert_eq!(service.balance_of(&dest_key), Some(0));
}

#[test]
fn validation_failure_touches_no_balance() {
    let id = identity();
    let (authority, _) = derive_authority(&id).unwrap();
    let class_key = addr(10);
    let source_key = addr(11);
    let dest_key = addr(12);
    let mut service = Ledger::new_service();
    assert!(service.create_token_class(&class_key, 9));
    assert!(service.create_holding(&source_key, &class_key, &authority));
    assert!(service.create_holding(&dest_key, &class_key, &addr(14)));
    assert!(service.mint_to(&source_key, 10_000));
    let mut accounts = valid_accounts(&id);
    accounts[3] = account(&addr(42), vec![]);
    let r = process_delegated_transfer(&id, &accounts, &mut service);
    assert!(matches!(r, Err(TransferError::InvalidAuthority)));
    assert_eq!(service.balance_of(&source_key), Some(10_000));
    assert_eq!(service.balance_of(&dest_key), Some(0));
}

#[test]
fn precision_is_read_from_the_descriptor() {
    let id = identity();
    let mut accounts = valid_accounts(&id);
    let key = accounts[1].key.clone();
    accounts[1] = account(&key, mint_data(7, true));
    let req = prepare_transfer(&id, &accounts).unwrap();
    assert_eq!(req.decimals, 7);
}

#[test]
fn bad_close_authority_tag_is_malformed_account() {
    let id = identity();
    let (authority, _) = derive_authority(&id).unwrap();
    let mut accounts = valid_accounts(&id);
    let key = accounts[0].key.clone();
    let class_key = accounts[1].key.clone();
    let mut data = holding_data(&class_key, &authority, 10_000, 1);
    // the close-authority tag sits at 129..133; 2 is not a valid tag byte
    data[129] = 2;
    accounts[0] = account(&key, data);
    let r = prepare_transfer(&id, &accounts);
    assert!(matches!(r, Err(TransferError::MalformedAccount)));
}

#[test]
fn close_authority_key_bytes_are_not_a_tag() {
    let id = identity();
    let (authority, _) = derive_authority(&id).unwrap();
    let mut accounts = valid_accounts(&id);
    let key = accounts[0].key.clone();
    let class_key = accounts[1].key.clone();
    let mut data = holding_data(&class_key, &authority, 10_000, 1);
    // a close authority is present, and its key bytes at 133..165 may hold
    // anything, including values that would be invalid as a tag
    data[129] = 1;
    data[145] = 2;
    accounts[0] = account(&key, data);
    assert!(prepare_transfer(&id, &accounts).is_ok());
}
