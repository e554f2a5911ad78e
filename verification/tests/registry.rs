use ed25519_dalek::{Signer, SigningKey};
use sha2::Digest;
use stellar_wrap::contract::StellarWrapContract;
use stellar_wrap::types::{
    Address, AddressKind, ContractError, DataKey, Event, Failure, Invocation, Symbol,
};
use stellar_wrap::xdr::build_signing_payload;

fn signing_key() -> SigningKey {
    SigningKey::from_bytes(&[1u8; 32])
}

fn admin_pubkey() -> [u8; 32] {
    signing_key().verifying_key().to_bytes()
}

fn contract_id() -> Address {
    Address::contract([9u8; 32])
}

fn admin() -> Address {
    Address::account([2u8; 32])
}

fn user_a() -> Address {
    Address::account([3u8; 32])
}

fn user_b() -> Address {
    Address::account([4u8; 32])
}

fn architect() -> Symbol {
    Symbol::from_bytes(b"architect").unwrap()
}

fn sign_payload(
    signer: &SigningKey,
    contract: &Address,
    user: &Address,
    period: u64,
    archetype: &Symbol,
    data_hash: &[u8; 32],
) -> [u8; 64] {
    let payload = build_signing_payload(contract, user, period, archetype, data_hash);
    signer.sign(&payload).to_bytes()
}

fn as_user(user: Address, timestamp: u64) -> Invocation {
    Invocation { authorized: vec![user], timestamp }
}

fn as_nobody() -> Invocation {
    Invocation { authorized: vec![], timestamp: 0 }
}

fn initialized_at(contract: Address) -> StellarWrapContract {
    let mut c = StellarWrapContract::new(contract);
    assert_eq!(c.initialize(admin(), admin_pubkey()), Ok(()));
    c
}

fn initialized() -> StellarWrapContract {
    initialized_at(contract_id())
}

fn mint(c: &mut StellarWrapContract, user: Address, period: u64, hash: [u8; 32], time: u64) -> Result<(), Failure> {
    let arch = architect();
    let sig = sign_payload(&signing_key(), &c.contract_address(), &user, period, &arch, &hash);
    c.mint_wrap(&as_user(user, time), user, period, arch, hash, sig).map(|_| ())
}

#[test]
fn test_replay_attack_same_period_fails() {
    let mut c = initialized();
    let user = user_a();
    let data_hash = [42u8; 32];
    let archetype = architect();
    let period = 202512u64;
    let signature = sign_payload(&signing_key(), &contract_id(), &user, period, &archetype, &data_hash);

    assert!(c.mint_wrap(&as_user(user, 0), user, period, archetype, data_hash, signature).is_ok());
    assert!(c.get_wrap(user, period).is_some(), "First mint should succeed");

    let second = c.mint_wrap(&as_user(user, 0), user, period, archetype, data_hash, signature);
    match second {
        Err(Failure::Contract(e)) => {
            assert_eq!(e, ContractError::WrapAlreadyExists);
            assert_eq!(e.code(), 4);
        }
        _ => panic!("a second mint of the same period must be refused"),
    }
}

#[test]
fn test_replay_attack_different_hash_same_period_fails() {
    let mut c = initialized();
    let user = user_a();
    let period = 202512u64;
    assert_eq!(mint(&mut c, user, period, [42u8; 32], 0), Ok(()));
    let second = mint(&mut c, user, period, [99u8; 32], 0);
    assert_eq!(second, Err(Failure::Contract(ContractError::WrapAlreadyExists)));
    assert_eq!(ContractError::WrapAlreadyExists.code(), 4);
    assert_eq!(c.get_wrap(user, period).unwrap().data_hash, [42u8; 32]);
}

#[test]
fn test_multiple_periods_for_same_user_success() {
    let mut c = initialized();
    let user = user_a();
    assert_eq!(mint(&mut c, user, 202512, [42u8; 32], 0), Ok(()));
    assert_eq!(mint(&mut c, user, 202601, [99u8; 32], 0), Ok(()));
    assert_eq!(mint(&mut c, user, 202602, [77u8; 32], 0), Ok(()));
    assert!(c.get_wrap(user, 202512).is_some());
    assert!(c.get_wrap(user, 202601).is_some());
    assert!(c.get_wrap(user, 202602).is_some());
}

#[test]
fn test_signature_cannot_be_stolen_by_another_user() {
    let mut c = initialized();
    let a = user_a();
    let b = user_b();
    let archetype = architect();
    let period = 202512u64;
    let hash_a = [42u8; 32];
    let sig_a = sign_payload(&signing_key(), &contract_id(), &a, period, &archetype, &hash_a);
    assert!(c.mint_wrap(&as_user(a, 0), a, period, archetype, hash_a, sig_a).is_ok());
    assert!(c.get_wrap(a, period).is_some(), "User A should have the wrap");

    let hash_b = [99u8; 32];
    let period_b = 202601u64;
    let sig_b = sign_payload(&signing_key(), &contract_id(), &b, period_b, &archetype, &hash_b);
    assert!(c.mint_wrap(&as_user(b, 0), b, period_b, archetype, hash_b, sig_b).is_ok());

    let wrap_a = c.get_wrap(a, period).unwrap();
    let wrap_b = c.get_wrap(b, period_b).unwrap();
    assert_eq!(wrap_a.data_hash, hash_a);
    assert_eq!(wrap_b.data_hash, hash_b);
    assert!(c.get_wrap(b, period).is_none(), "User B should not have User A's period");
}

#[test]
fn stolen_signature_is_rejected_for_another_user() {
    let mut c = initialized();
    let a = user_a();
    let b = user_b();
    let archetype = architect();
    let sig_a = sign_payload(&signing_key(), &contract_id(), &a, 202512, &archetype, &[42u8; 32]);
    let r = c.mint_wrap(&as_user(b, 0), b, 202512, archetype, [42u8; 32], sig_a);
    assert_eq!(r.err(), Some(Failure::SignatureRejected));
    assert!(c.get_wrap(b, 202512).is_none());
    assert_eq!(c.balance_of(b), 0);
}

#[test]
fn test_cross_contract_replay_protection() {
    let v1_id = Address::contract([10u8; 32]);
    let v2_id = Address::contract([11u8; 32]);
    let mut v1 = initialized_at(v1_id);
    let mut v2 = initialized_at(v2_id);
    let user = user_a();
    let archetype = architect();
    let data_hash = [42u8; 32];
    let period = 202512u64;

    let sig_v1 = sign_payload(&signing_key(), &v1_id, &user, period, &archetype, &data_hash);
    assert!(v1.mint_wrap(&as_user(user, 0), user, period, archetype, data_hash, sig_v1).is_ok());
    assert!(v1.get_wrap(user, period).is_some(), "Wrap should exist on contract V1");

    let sig_v2 = sign_payload(&signing_key(), &v2_id, &user, period, &archetype, &data_hash);
    assert!(v2.mint_wrap(&as_user(user, 0), user, period, archetype, data_hash, sig_v2).is_ok());
    assert!(v2.get_wrap(user, period).is_some(), "Wrap should exist on contract V2");

    assert!(v1.get_wrap(user, period).is_some());
    assert!(v2.get_wrap(user, period).is_some());
}

#[test]
fn signature_for_one_contract_is_rejected_by_another() {
    let v1_id = Address::contract([10u8; 32]);
    let v2_id = Address::contract([11u8; 32]);
    let mut v2 = initialized_at(v2_id);
    let user = user_a();
    let archetype = architect();
    let sig_v1 = sign_payload(&signing_key(), &v1_id, &user, 202512, &archetype, &[42u8; 32]);
    let r = v2.mint_wrap(&as_user(user, 0), user, 202512, archetype, [42u8; 32], sig_v1);
    assert_eq!(r.err(), Some(Failure::SignatureRejected));
}

#[test]
fn test_timestamp_is_from_ledger_not_user() {
    let mut c = initialized();
    let user = user_a();
    assert_eq!(mint(&mut c, user, 202512, [42u8; 32], 1000000), Ok(()));
    assert_eq!(c.get_wrap(user, 202512).unwrap().timestamp, 1000000, "Timestamp should come from ledger");
    assert_eq!(mint(&mut c, user, 202601, [42u8; 32], 2000000), Ok(()));
    assert_eq!(
        c.get_wrap(user, 202601).unwrap().timestamp,
        2000000,
        "Second timestamp should match new ledger time"
    );
}

#[test]
fn test_edge_case_long_symbols() {
    let mut c = initialized();
    let user = user_a();
    assert_eq!(mint(&mut c, user, 202512, [42u8; 32], 0), Ok(()));
    assert!(c.get_wrap(user, 202512).is_some(), "Should handle reasonably long symbols");
}

#[test]
fn test_non_admin_cannot_mint() {
    let mut c = initialized();
    let user = user_a();
    let archetype = architect();
    let data_hash = [42u8; 32];
    let sig = sign_payload(&signing_key(), &contract_id(), &user, 202512, &archetype, &data_hash);
    let r = c.mint_wrap(&as_nobody(), user, 202512, archetype, data_hash, sig);
    assert_eq!(r.err(), Some(Failure::NotAuthorized));
    assert!(c.get_wrap(user, 202512).is_none());
}

#[test]
fn mint_reports_event_and_extended_entries() {
    let mut c = initialized();
    let user = user_a();
    let arch = architect();
    let sig = sign_payload(&signing_key(), &contract_id(), &user, 5, &arch, &[42u8; 32]);
    let out = c.mint_wrap(&as_user(user, 7), user, 5, arch, [42u8; 32], sig).unwrap();
    match out.event {
        Some(Event::Minted { user: u, period, archetype }) => {
            assert_eq!(u.key, user.key);
            assert_eq!(period, 5);
            assert_eq!(archetype.to_vec(), b"architect".to_vec());
        }
        _ => panic!("expected a mint event"),
    }
    assert_eq!(out.extended.len(), 3);
    assert!(matches!(out.extended[0], DataKey::Wrap(_, 5)));
    assert!(matches!(out.extended[1], DataKey::WrapCount(_)));
    assert!(matches!(out.extended[2], DataKey::LatestPeriod(_)));
    assert!(!out.extend_instance);

    // An earlier period does not move the latest period.
    let sig = sign_payload(&signing_key(), &contract_id(), &user, 3, &arch, &[42u8; 32]);
    let out = c.mint_wrap(&as_user(user, 8), user, 3, arch, [42u8; 32], sig).unwrap();
    assert_eq!(out.extended.len(), 2);
    assert_eq!(c.get_latest_wrap(user).unwrap().period, 5);
}

#[test]
fn mint_before_initialize_fails() {
    let mut c = StellarWrapContract::new(contract_id());
    let user = user_a();
    let arch = architect();
    let sig = sign_payload(&signing_key(), &contract_id(), &user, 1, &arch, &[42u8; 32]);
    let r = c.mint_wrap(&as_user(user, 0), user, 1, arch, [42u8; 32], sig);
    assert_eq!(r.err(), Some(Failure::Contract(ContractError::NotInitialized)));
    assert_eq!(ContractError::NotInitialized.code(), 2);
}

#[test]
fn zero_data_hash_is_rejected() {
    let mut c = initialized();
    let user = user_a();
    let r = mint(&mut c, user, 1, [0u8; 32], 0);
    assert_eq!(r, Err(Failure::Contract(ContractError::InvalidDataHash)));
    assert_eq!(ContractError::InvalidDataHash.code(), 7);
    assert_eq!(c.balance_of(user), 0);
}

#[test]
fn signature_by_another_key_is_rejected() {
    let mut c = initialized();
    let user = user_a();
    let arch = architect();
    let other = SigningKey::from_bytes(&[5u8; 32]);
    let sig = sign_payload(&other, &contract_id(), &user, 1, &arch, &[42u8; 32]);
    let r = c.mint_wrap(&as_user(user, 0), user, 1, arch, [42u8; 32], sig);
    assert_eq!(r.err(), Some(Failure::SignatureRejected));
    let tampered = sign_payload(&signing_key(), &contract_id(), &user, 2, &arch, &[42u8; 32]);
    let r = c.mint_wrap(&as_user(user, 0), user, 1, arch, [42u8; 32], tampered);
    assert_eq!(r.err(), Some(Failure::SignatureRejected));
}

#[test]
fn initialize_twice_fails() {
    let mut c = initialized();
    assert_eq!(
        c.initialize(user_a(), [7u8; 32]),
        Err(Failure::Contract(ContractError::AlreadyInitialized))
    );
    assert_eq!(ContractError::AlreadyInitialized.code(), 1);
    assert_eq!(c.get_admin().unwrap().key, admin().key);
}

#[test]
fn get_admin_before_and_after_initialize() {
    let mut c = StellarWrapContract::new(contract_id());
    assert!(c.get_admin().is_none());
    assert_eq!(c.initialize(admin(), admin_pubkey()), Ok(()));
    let a = c.get_admin().unwrap();
    assert_eq!(a.key, [2u8; 32]);
    assert_eq!(a.kind, AddressKind::Account);
}

#[test]
fn update_admin_needs_current_admin() {
    let mut c = StellarWrapContract::new(contract_id());
    assert_eq!(
        c.update_admin(&as_user(admin(), 0), user_a()).err(),
        Some(Failure::Contract(ContractError::NotInitialized))
    );
    assert_eq!(c.initialize(admin(), admin_pubkey()), Ok(()));
    assert_eq!(c.update_admin(&as_user(user_a(), 0), user_a()).err(), Some(Failure::NotAuthorized));
    let out = c.update_admin(&as_user(admin(), 0), user_a()).unwrap();
    match out.event {
        Some(Event::AdminUpdated { previous, new_admin }) => {
            assert_eq!(previous.key, [2u8; 32]);
            assert_eq!(new_admin.key, [3u8; 32]);
        }
        _ => panic!("expected an admin event"),
    }
    assert_eq!(c.get_admin().unwrap().key, [3u8; 32]);
}

#[test]
fn update_wrap_keeps_timestamp() {
    let mut c = initialized();
    let user = user_a();
    assert_eq!(mint(&mut c, user, 10, [42u8; 32], 1234), Ok(()));
    let new_arch = Symbol::from_bytes(b"explorer").unwrap();
    let sig = sign_payload(&signing_key(), &contract_id(), &user, 10, &new_arch, &[55u8; 32]);
    // The user alone cannot update.
    let r = c.update_wrap(&as_user(user, 9999), user, 10, [55u8; 32], new_arch, sig);
    assert_eq!(r.err(), Some(Failure::NotAuthorized));
    let out = c.update_wrap(&as_user(admin(), 9999), user, 10, [55u8; 32], new_arch, sig).unwrap();
    assert!(matches!(out.event, Some(Event::Updated { period: 10, .. })));
    assert_eq!(out.extended.len(), 1);
    let w = c.get_wrap(user, 10).unwrap();
    assert_eq!(w.timestamp, 1234);
    assert_eq!(w.data_hash, [55u8; 32]);
    assert_eq!(w.archetype.to_vec(), b"explorer".to_vec());
    assert_eq!(w.period, 10);
    assert_eq!(c.balance_of(user), 1);
}

#[test]
fn update_missing_wrap_fails() {
    let mut c = initialized();
    let user = user_a();
    let arch = architect();
    let sig = sign_payload(&signing_key(), &contract_id(), &user, 10, &arch, &[55u8; 32]);
    let r = c.update_wrap(&as_user(admin(), 0), user, 10, [55u8; 32], arch, sig);
    assert_eq!(r.err(), Some(Failure::Contract(ContractError::WrapNotFound)));
    let r = c.update_wrap(&as_user(admin(), 0), user, 10, [0u8; 32], arch, sig);
    assert_eq!(r.err(), Some(Failure::Contract(ContractError::InvalidDataHash)));
}

#[test]
fn revoke_removes_wrap_and_decrements_balance() {
    let mut c = initialized();
    let user = user_a();
    assert_eq!(mint(&mut c, user, 1, [42u8; 32], 0), Ok(()));
    assert_eq!(mint(&mut c, user, 2, [43u8; 32], 0), Ok(()));
    assert_eq!(c.balance_of(user), 2);
    assert_eq!(c.revoke_wrap(&as_user(user, 0), user, 2).err(), Some(Failure::NotAuthorized));
    let out = c.revoke_wrap(&as_user(admin(), 0), user, 2).unwrap();
    assert!(matches!(out.event, Some(Event::Revoked { period: 2, .. })));
    assert!(c.get_wrap(user, 2).is_none());
    assert_eq!(c.balance_of(user), 1);
    // The latest period still names the revoked wrap.
    assert!(c.get_latest_wrap(user).is_none());
    assert_eq!(
        c.revoke_wrap(&as_user(admin(), 0), user, 2).err(),
        Some(Failure::Contract(ContractError::WrapNotFound))
    );
    assert_eq!(ContractError::WrapNotFound.code(), 5);
    // After revocation the period can be minted again.
    assert_eq!(mint(&mut c, user, 2, [44u8; 32], 0), Ok(()));
    assert_eq!(c.balance_of(user), 2);
}

#[test]
fn latest_wrap_follows_greatest_period() {
    let mut c = initialized();
    let user = user_a();
    assert!(c.get_latest_wrap(user).is_none());
    assert_eq!(mint(&mut c, user, 202601, [1u8; 32], 0), Ok(()));
    assert_eq!(mint(&mut c, user, 202512, [2u8; 32], 0), Ok(()));
    assert_eq!(c.get_latest_wrap(user).unwrap().period, 202601);
    assert_eq!(mint(&mut c, user, 202602, [3u8; 32], 0), Ok(()));
    assert_eq!(c.get_latest_wrap(user).unwrap().data_hash, [3u8; 32]);
}

#[test]
fn verify_data_checks_sha256() {
    let env = soroban_sdk::Env::default();
    let mut c = initialized();
    let user = user_a();
    let data = b"wrap data".to_vec();
    let hash: [u8; 32] = sha2::Sha256::digest(&data).into();
    assert_eq!(mint(&mut c, user, 1, hash, 0), Ok(()));
    assert!(c.verify_data(&env, user, 1, &data));
    assert!(!c.verify_data(&env, user, 1, &b"other data".to_vec()));
    assert!(!c.verify_data(&env, user, 2, &data));
}

#[test]
fn extend_ttl_lists_existing_entries() {
    let mut c = initialized();
    let user = user_a();
    let out = c.extend_ttl(user, 1);
    assert_eq!(out.extended.len(), 0);
    assert!(out.extend_instance);
    assert!(out.event.is_none());
    assert_eq!(mint(&mut c, user, 1, [42u8; 32], 0), Ok(()));
    let out = c.extend_ttl(user, 1);
    assert_eq!(out.extended.len(), 3);
    let out = c.extend_ttl(user, 2);
    assert_eq!(out.extended.len(), 2);
}

#[test]
fn upgrade_needs_admin() {
    let c = StellarWrapContract::new(contract_id());
    assert_eq!(
        c.upgrade(&as_user(admin(), 0), [8u8; 32]),
        Err(Failure::Contract(ContractError::NotInitialized))
    );
    let c = initialized();
    assert_eq!(c.upgrade(&as_nobody(), [8u8; 32]), Err(Failure::NotAuthorized));
    assert_eq!(c.upgrade(&as_user(admin(), 0), [8u8; 32]), Ok([8u8; 32]));
}

#[test]
fn metadata() {
    assert_eq!(StellarWrapContract::name(), "Stellar Wrap Registry");
    assert_eq!(StellarWrapContract::symbol(), "WRAP");
    assert_eq!(StellarWrapContract::decimals(), 0);
    let info = StellarWrapContract::contract_info();
    assert_eq!(info.name, "Stellar Wrap Registry");
    assert_eq!(info.version, "0.1.0");
    assert_eq!(info.repo, "https://github.com/zintarh/stellar-wrap-contract");
    assert_eq!(info.description, "Soulbound token registry for Stellar Wrap");
}

#[test]
fn error_codes() {
    assert_eq!(ContractError::Unauthorized.code(), 3);
    assert_eq!(ContractError::InvalidSignature.code(), 6);
}

#[test]
fn symbols_hold_at_most_32_bytes() {
    assert!(Symbol::from_bytes(&[b'a'; 32]).is_some());
    assert!(Symbol::from_bytes(&[b'a'; 33]).is_none());
    let s = Symbol::from_bytes(b"architect").unwrap();
    assert_eq!(s.len(), 9);
    assert!(s.same(&architect()));
    assert!(!s.same(&Symbol::from_bytes(b"architects").unwrap()));
}

#[test]
fn first_mint_at_period_zero_records_no_latest() {
    let mut c = initialized();
    let user = user_a();
    assert_eq!(mint(&mut c, user, 0, [42u8; 32], 0), Ok(()));
    assert!(c.get_wrap(user, 0).is_some());
    assert!(c.stored_latest_period(user).is_none());
    assert!(c.get_latest_wrap(user).is_none());
    assert_eq!(mint(&mut c, user, 1, [43u8; 32], 0), Ok(()));
    assert_eq!(c.get_latest_wrap(user).unwrap().period, 1);
}

#[test]
fn stored_entries_are_read_back() {
    let user = user_a();
    let rec = stellar_wrap::types::WrapRecord {
        timestamp: 5,
        data_hash: [6u8; 32],
        archetype: architect(),
        period: 7,
    };
    let wraps = vec![(stellar_wrap::types::WrapKey { user, period: 7 }, rec)];
    let counts = vec![(user, 3u32), (user, 1u32)];
    let latest = vec![(user, 7u64)];
    let c = StellarWrapContract::from_storage(
        contract_id(),
        Some(admin()),
        Some(admin_pubkey()),
        &wraps,
        &counts,
        &latest,
        &vec![],
    );
    assert_eq!(c.stored_count(user), Some(1));
    assert_eq!(c.balance_of(user), 1);
    assert_eq!(c.stored_latest_period(user), Some(7));
    assert_eq!(c.get_wrap(user, 7).unwrap().timestamp, 5);
    assert_eq!(c.get_latest_wrap(user).unwrap().data_hash, [6u8; 32]);
    assert_eq!(c.admin_pubkey(), Some(admin_pubkey()));
    assert!(c.stored_count(user_b()).is_none());
}

#[test]
fn a_held_mint_guard_refuses_the_mint() {
    let user = user_a();
    let mut c = StellarWrapContract::from_storage(
        contract_id(),
        Some(admin()),
        Some(admin_pubkey()),
        &vec![],
        &vec![],
        &vec![],
        &vec![(user, true)],
    );
    let r = mint(&mut c, user, 1, [42u8; 32], 0);
    assert_eq!(r, Err(Failure::Contract(ContractError::Unauthorized)));
    assert_eq!(ContractError::Unauthorized.code(), 3);
    // Another user is not held up by it.
    assert_eq!(mint(&mut c, user_b(), 1, [42u8; 32], 0), Ok(()));
}
