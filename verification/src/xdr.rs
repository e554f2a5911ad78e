//! The XDR (ScVal) encodings of the values that make up the message the
//! admin signs, and that message itself.
//!
//! The encoder is `soroban_sdk::xdr` (the `stellar-xdr` crate that soroban
//! re-exports); its contract states the bytes it writes.

use vstd::prelude::*;

use soroban_sdk::xdr::{
    AccountId, Limits, PublicKey, ScAddress, ScBytes, ScSymbol, ScVal, Uint256, WriteXdr,
};

use crate::types::{Address, AddressKind, Symbol};

verus! {

/// The big-endian bytes of a `u32`.
pub open spec fn be_u32(v: u32) -> Seq<u8> {
    seq![(v >> 24u32) as u8, (v >> 16u32) as u8, (v >> 8u32) as u8, v as u8]
}

/// The big-endian bytes of a `u64`.
pub open spec fn be_u64(v: u64) -> Seq<u8> {
    seq![
        (v >> 56u64) as u8,
        (v >> 48u64) as u8,
        (v >> 40u64) as u8,
        (v >> 32u64) as u8,
        (v >> 24u64) as u8,
        (v >> 16u64) as u8,
        (v >> 8u64) as u8,
        v as u8,
    ]
}

/// An XDR enum discriminant below 256: four bytes, big-endian.
pub open spec fn xdr_tag(t: u8) -> Seq<u8> {
    seq![0u8, 0u8, 0u8, t]
}

/// The zero bytes that pad an opaque of length `n` to a multiple of four.
pub open spec fn xdr_padding(n: nat) -> Seq<u8> {
    Seq::new(((4 - n % 4) % 4) as nat, |i: int| 0u8)
}

/// `ScVal::U64(v)`: discriminant 5, then the value.
pub open spec fn xdr_u64(v: u64) -> Seq<u8> {
    xdr_tag(5) + be_u64(v)
}

/// `ScVal::Bytes(b)`: discriminant 13, the length, the bytes, padding.
pub open spec fn xdr_bytes(b: Seq<u8>) -> Seq<u8> {
    xdr_tag(13) + be_u32(b.len() as u32) + b + xdr_padding(b.len())
}

/// `ScVal::Symbol(s)`: discriminant 15, the length, the bytes, padding.
pub open spec fn xdr_symbol(s: Seq<u8>) -> Seq<u8> {
    xdr_tag(15) + be_u32(s.len() as u32) + s + xdr_padding(s.len())
}

/// `ScVal::Address(a)`: discriminant 18, then the `ScAddress`: for an
/// account, discriminant 0 and the `PublicKey` (discriminant 0 and the 32
/// key bytes); for a contract, discriminant 1 and the 32 bytes of its id.
pub open spec fn xdr_address(a: Address) -> Seq<u8> {
    xdr_tag(18) + match a.kind {
        AddressKind::Account => xdr_tag(0) + xdr_tag(0) + a.key@,
        AddressKind::Contract => xdr_tag(1) + a.key@,
    }
}

/// The message that the admin signs to approve a wrap: the contract's
/// address, the user's address, the period, the archetype and the data hash,
/// each XDR-encoded, one after another.
pub open spec fn signing_payload(
    contract: Address,
    user: Address,
    period: u64,
    archetype: Seq<u8>,
    data_hash: Seq<u8>,
) -> Seq<u8> {
    xdr_address(contract) + (xdr_address(user) + (xdr_u64(period) + (xdr_symbol(archetype)
        + xdr_bytes(data_hash))))
}

/// A value of one of the `ScVal` kinds that the signing payload holds.
pub enum XdrValue {
    U64(u64),
    Bytes32([u8; 32]),
    Symbol(Vec<u8>),
    Account([u8; 32]),
    Contract([u8; 32]),
}

/// The XDR encoding of the value.
pub open spec fn xdr_encoding(v: XdrValue) -> Seq<u8> {
    match v {
        XdrValue::U64(n) => xdr_u64(n),
        XdrValue::Bytes32(b) => xdr_bytes(b@),
        XdrValue::Symbol(s) => xdr_symbol(s@),
        XdrValue::Account(k) => xdr_address(Address { kind: AddressKind::Account, key: k }),
        XdrValue::Contract(k) => xdr_address(Address { kind: AddressKind::Contract, key: k }),
    }
}

/// Builds the corresponding `soroban_sdk::xdr::ScVal` and encodes it with
/// `WriteXdr::to_xdr(Limits::none())`. The contract states the bytes that
/// the encoder writes (discriminants and lengths as 4-byte big-endian
/// words, opaque data padded to a multiple of four); with no limits and an
/// in-memory writer, and a symbol of at most 32 bytes, the encoder does not
/// fail.
#[verifier::external_body]
fn to_xdr(v: &XdrValue) -> (r: Vec<u8>)
    requires
        v matches XdrValue::Symbol(s) ==> s@.len() <= 32,
    ensures
        r@ == xdr_encoding(*v),
{
    let val = match v {
        XdrValue::U64(n) => ScVal::U64(*n),
        XdrValue::Bytes32(b) => ScVal::Bytes(ScBytes(b.to_vec().try_into().unwrap_or_default())),
        XdrValue::Symbol(s) => ScVal::Symbol(ScSymbol(s.clone().try_into().unwrap_or_default())),
        XdrValue::Account(k) => ScVal::Address(ScAddress::Account(AccountId(PublicKey::PublicKeyTypeEd25519(Uint256(*k))))),
        XdrValue::Contract(k) => ScVal::Address(ScAddress::Contract(soroban_sdk::xdr::Hash(*k))),
    };
    val.to_xdr(Limits::none()).unwrap_or_default()
}

/// The XDR value of an address.
fn address_value(a: &Address) -> (v: XdrValue)
    ensures
        xdr_encoding(v) == xdr_address(*a),
        v is Account || v is Contract,
{
    match a.kind {
        AddressKind::Account => XdrValue::Account(a.key),
        AddressKind::Contract => XdrValue::Contract(a.key),
    }
}

/// Builds the message that the admin signs to approve the wrap of `user`
/// for `period` with `archetype` and `data_hash`, at `contract`.
pub fn build_signing_payload(
    contract: &Address,
    user: &Address,
    period: u64,
    archetype: &Symbol,
    data_hash: &[u8; 32],
) -> (payload: Vec<u8>)
    ensures
        payload@ == signing_payload(*contract, *user, period, archetype@, data_hash@),
{
    let mut payload = to_xdr(&address_value(contract));
    let mut part = to_xdr(&address_value(user));
    payload.append(&mut part);
    let mut part = to_xdr(&XdrValue::U64(period));
    payload.append(&mut part);
    let mut part = to_xdr(&XdrValue::Symbol(archetype.to_vec()));
    payload.append(&mut part);
    let mut part = to_xdr(&XdrValue::Bytes32(*data_hash));
    payload.append(&mut part);
    assert(payload@ =~= signing_payload(*contract, *user, period, archetype@, data_hash@));
    payload
}


/// Two concatenations with equally long first parts have equal parts.
proof fn lemma_split_equal(x1: Seq<u8>, y1: Seq<u8>, x2: Seq<u8>, y2: Seq<u8>)
    requires
        x1 + y1 == x2 + y2,
        x1.len() == x2.len(),
    ensures
        x1 == x2,
        y1 == y2,
{
    assert(x1 =~= (x1 + y1).subrange(0, x1.len() as int));
    assert(x2 =~= (x2 + y2).subrange(0, x2.len() as int));
    assert(y1 =~= (x1 + y1).subrange(x1.len() as int, (x1 + y1).len() as int));
    assert(y2 =~= (x2 + y2).subrange(x2.len() as int, (x2 + y2).len() as int));
}

proof fn lemma_be_u64_injective(a: u64, b: u64)
    requires
        be_u64(a) == be_u64(b),
    ensures
        a == b,
{
    assert(be_u64(a)[0] == be_u64(b)[0]);
    assert(be_u64(a)[1] == be_u64(b)[1]);
    assert(be_u64(a)[2] == be_u64(b)[2]);
    assert(be_u64(a)[3] == be_u64(b)[3]);
    assert(be_u64(a)[4] == be_u64(b)[4]);
    assert(be_u64(a)[5] == be_u64(b)[5]);
    assert(be_u64(a)[6] == be_u64(b)[6]);
    assert(be_u64(a)[7] == be_u64(b)[7]);
    assert(a == b) by (bit_vector)
        requires
            (a >> 56u64) as u8 == (b >> 56u64) as u8,
            (a >> 48u64) as u8 == (b >> 48u64) as u8,
            (a >> 40u64) as u8 == (b >> 40u64) as u8,
            (a >> 32u64) as u8 == (b >> 32u64) as u8,
            (a >> 24u64) as u8 == (b >> 24u64) as u8,
            (a >> 16u64) as u8 == (b >> 16u64) as u8,
            (a >> 8u64) as u8 == (b >> 8u64) as u8,
            a as u8 == b as u8,
    ;
}

proof fn lemma_small_u32_byte(a: u32, b: u32)
    requires
        a <= 32,
        b <= 32,
        a as u8 == b as u8,
    ensures
        a == b,
{
    assert(a == b) by (bit_vector)
        requires
            a <= 32,
            b <= 32,
            a as u8 == b as u8,
    ;
}

/// The length of an address's encoding, read off its eighth byte.
proof fn lemma_address_shape(a: Address)
    ensures
        xdr_address(a).len() == (match a.kind {
            AddressKind::Account => 44int,
            AddressKind::Contract => 40int,
        }),
        xdr_address(a)[7] == (match a.kind {
            AddressKind::Account => 0u8,
            AddressKind::Contract => 1u8,
        }),
        a.key@ == xdr_address(a).subrange(xdr_address(a).len() - 32, xdr_address(a).len() as int),
{
    match a.kind {
        AddressKind::Account => {
            assert(a.key@ =~= xdr_address(a).subrange(12, 44));
        },
        AddressKind::Contract => {
            assert(a.key@ =~= xdr_address(a).subrange(8, 40));
        },
    }
}

/// An address followed by anything: equal byte strings start with the same
/// address, followed by the same rest.
proof fn lemma_address_prefix(a1: Address, r1: Seq<u8>, a2: Address, r2: Seq<u8>)
    requires
        xdr_address(a1) + r1 == xdr_address(a2) + r2,
    ensures
        a1 == a2,
        r1 == r2,
{
    lemma_address_shape(a1);
    lemma_address_shape(a2);
    assert((xdr_address(a1) + r1)[7] == xdr_address(a1)[7]);
    assert((xdr_address(a2) + r2)[7] == xdr_address(a2)[7]);
    assert(a1.kind == a2.kind);
    lemma_split_equal(xdr_address(a1), r1, xdr_address(a2), r2);
    assert(a1.key =~= a2.key);
}

/// A symbol followed by anything: equal byte strings start with the same
/// symbol, followed by the same rest.
proof fn lemma_symbol_prefix(s1: Seq<u8>, r1: Seq<u8>, s2: Seq<u8>, r2: Seq<u8>)
    requires
        s1.len() <= 32,
        s2.len() <= 32,
        xdr_symbol(s1) + r1 == xdr_symbol(s2) + r2,
    ensures
        s1 == s2,
        r1 == r2,
{
    let e1 = xdr_symbol(s1);
    let e2 = xdr_symbol(s2);
    assert((e1 + r1)[7] == e1[7]);
    assert((e2 + r2)[7] == e2[7]);
    assert(e1[7] == (s1.len() as u32) as u8);
    assert(e2[7] == (s2.len() as u32) as u8);
    lemma_small_u32_byte(s1.len() as u32, s2.len() as u32);
    assert(e1.len() == e2.len());
    lemma_split_equal(e1, r1, e2, r2);
    assert(s1 =~= e1.subrange(8, 8 + s1.len() as int));
    assert(s2 =~= e2.subrange(8, 8 + s2.len() as int));
}

/// The signing payload determines everything the admin approves by signing
/// it: the contract, the user, the period, the archetype and the data hash.
/// A signature over one approval is therefore a signature over no other
/// (another user, another period, another contract, other data).
pub proof fn lemma_signing_payload_injective(
    contract1: Address,
    user1: Address,
    period1: u64,
    archetype1: Seq<u8>,
    data_hash1: Seq<u8>,
    contract2: Address,
    user2: Address,
    period2: u64,
    archetype2: Seq<u8>,
    data_hash2: Seq<u8>,
)
    requires
        archetype1.len() <= 32,
        archetype2.len() <= 32,
        data_hash1.len() == 32,
        data_hash2.len() == 32,
        signing_payload(contract1, user1, period1, archetype1, data_hash1) == signing_payload(
            contract2,
            user2,
            period2,
            archetype2,
            data_hash2,
        ),
    ensures
        contract1 == contract2,
        user1 == user2,
        period1 == period2,
        archetype1 == archetype2,
        data_hash1 == data_hash2,
{
    let t1 = xdr_u64(period1) + (xdr_symbol(archetype1) + xdr_bytes(data_hash1));
    let t2 = xdr_u64(period2) + (xdr_symbol(archetype2) + xdr_bytes(data_hash2));
    lemma_address_prefix(contract1, xdr_address(user1) + t1, contract2, xdr_address(user2) + t2);
    lemma_address_prefix(user1, t1, user2, t2);
    lemma_split_equal(
        xdr_u64(period1),
        xdr_symbol(archetype1) + xdr_bytes(data_hash1),
        xdr_u64(period2),
        xdr_symbol(archetype2) + xdr_bytes(data_hash2),
    );
    assert(be_u64(period1) =~= xdr_u64(period1).subrange(4, 12));
    assert(be_u64(period2) =~= xdr_u64(period2).subrange(4, 12));
    lemma_be_u64_injective(period1, period2);
    lemma_symbol_prefix(archetype1, xdr_bytes(data_hash1), archetype2, xdr_bytes(data_hash2));
    assert(data_hash1 =~= xdr_bytes(data_hash1).subrange(8, 40));
    assert(data_hash2 =~= xdr_bytes(data_hash2).subrange(8, 40));
}

} // verus!
