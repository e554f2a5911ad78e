use soroban_sdk::xdr::{FromXdr, ToXdr};
use soroban_sdk::{Bytes, BytesN, Env};
use stellar_wrap::types::{Address, Symbol};
use stellar_wrap::xdr::build_signing_payload;

fn to_vec(b: &Bytes) -> Vec<u8> {
    b.iter().collect()
}

fn payload() -> Vec<u8> {
    let contract = Address::contract([9u8; 32]);
    let user = Address::account([3u8; 32]);
    let archetype = Symbol::from_bytes(b"architect").unwrap();
    build_signing_payload(&contract, &user, 202512, &archetype, &[42u8; 32])
}

#[test]
fn payload_has_the_expected_bytes() {
    let p = payload();
    let mut expected: Vec<u8> = Vec::new();
    // contract address: ScVal::Address, ScAddress::Contract, 32 bytes
    expected.extend_from_slice(&[0, 0, 0, 18, 0, 0, 0, 1]);
    expected.extend_from_slice(&[9u8; 32]);
    // user address: ScVal::Address, ScAddress::Account, PublicKeyTypeEd25519, 32 bytes
    expected.extend_from_slice(&[0, 0, 0, 18, 0, 0, 0, 0, 0, 0, 0, 0]);
    expected.extend_from_slice(&[3u8; 32]);
    // period: ScVal::U64, big-endian
    expected.extend_from_slice(&[0, 0, 0, 5]);
    expected.extend_from_slice(&202512u64.to_be_bytes());
    // archetype: ScVal::Symbol, length 9, bytes, 3 bytes of padding
    expected.extend_from_slice(&[0, 0, 0, 15, 0, 0, 0, 9]);
    expected.extend_from_slice(b"architect");
    expected.extend_from_slice(&[0, 0, 0]);
    // data hash: ScVal::Bytes, length 32, bytes
    expected.extend_from_slice(&[0, 0, 0, 13, 0, 0, 0, 32]);
    expected.extend_from_slice(&[42u8; 32]);
    assert_eq!(p, expected);
}

#[test]
fn payload_pieces_match_the_hosts_encoding() {
    let env = Env::default();
    let p = payload();
    assert_eq!(p.len(), 40 + 44 + 12 + 20 + 40);
    assert_eq!(p[84..96].to_vec(), to_vec(&202512u64.to_xdr(&env)));
    let sym = soroban_sdk::Symbol::new(&env, "architect");
    assert_eq!(p[96..116].to_vec(), to_vec(&sym.to_xdr(&env)));
    let hash = BytesN::from_array(&env, &[42u8; 32]);
    assert_eq!(p[116..156].to_vec(), to_vec(&hash.to_xdr(&env)));
    for range in [0..40, 40..84] {
        let piece = Bytes::from_slice(&env, &p[range.clone()]);
        let addr = soroban_sdk::Address::from_xdr(&env, &piece).unwrap();
        assert_eq!(to_vec(&addr.to_xdr(&env)), p[range].to_vec());
    }
}

#[test]
fn payload_differs_per_user_period_and_contract() {
    let archetype = Symbol::from_bytes(b"architect").unwrap();
    let base = payload();
    let other_user = build_signing_payload(
        &Address::contract([9u8; 32]),
        &Address::account([4u8; 32]),
        202512,
        &archetype,
        &[42u8; 32],
    );
    let other_period = build_signing_payload(
        &Address::contract([9u8; 32]),
        &Address::account([3u8; 32]),
        202601,
        &archetype,
        &[42u8; 32],
    );
    let other_contract = build_signing_payload(
        &Address::contract([8u8; 32]),
        &Address::account([3u8; 32]),
        202512,
        &archetype,
        &[42u8; 32],
    );
    assert_ne!(base, other_user);
    assert_ne!(base, other_period);
    assert_ne!(base, other_contract);
}
