//! The plain values that the registry stores and exchanges: addresses,
//! symbols, wrap records, storage keys, events and errors.

use vstd::prelude::*;

verus! {

/// Whether an address names a Stellar account or a contract.
#[derive(Clone, Copy, Debug, PartialEq, Eq, Structural)]
pub enum AddressKind {
    Account,
    Contract,
}

/// A Stellar address: an account (by its ed25519 public key) or a contract
/// (by its contract id hash). Both are 32 bytes.
#[derive(Clone, Copy, Debug)]
pub struct Address {
    pub kind: AddressKind,
    pub key: [u8; 32],
}

impl Address {
    /// The address of an account with the given ed25519 public key.
    pub fn account(key: [u8; 32]) -> (a: Address)
        ensures
            a.kind == AddressKind::Account,
            a.key == key,
    {
        Address { kind: AddressKind::Account, key }
    }

    /// The address of a contract with the given contract id.
    pub fn contract(key: [u8; 32]) -> (a: Address)
        ensures
            a.kind == AddressKind::Contract,
            a.key == key,
    {
        Address { kind: AddressKind::Contract, key }
    }

    /// Whether two addresses are the same address.
    pub fn same(&self, other: &Address) -> (r: bool)
        ensures
            r == (*self == *other),
    {
        if self.kind != other.kind {
            return false;
        }
        let r = same_bytes32(&self.key, &other.key);
        proof {
            if r {
                assert(self.key =~= other.key);
            }
        }
        r
    }
}

/// Whether two 32-byte arrays hold the same bytes.
pub fn same_bytes32(a: &[u8; 32], b: &[u8; 32]) -> (r: bool)
    ensures
        r == (a@ == b@),
{
    let mut i: usize = 0;
    while i < 32
        invariant
            0 <= i <= 32,
            a@.len() == 32,
            b@.len() == 32,
            forall|j: int| 0 <= j < i ==> a@[j] == b@[j],
        decreases 32 - i,
    {
        if a[i] != b[i] {
            return false;
        }
        i = i + 1;
    }
    assert(a@ =~= b@);
    true
}

/// Whether all 32 bytes are zero.
pub fn is_zero_bytes32(a: &[u8; 32]) -> (r: bool)
    ensures
        r == (a@ == Seq::new(32, |i: int| 0u8)),
{
    let mut i: usize = 0;
    while i < 32
        invariant
            0 <= i <= 32,
            a@.len() == 32,
            forall|j: int| 0 <= j < i ==> a@[j] == 0u8,
        decreases 32 - i,
    {
        if a[i] != 0 {
            assert(a@[i as int] != Seq::new(32, |k: int| 0u8)[i as int]);
            return false;
        }
        i = i + 1;
    }
    assert(a@ =~= Seq::new(32, |i: int| 0u8));
    true
}

/// The number of bytes a symbol may hold.
pub const SYMBOL_MAX_LEN: usize = 32;

/// A symbol of at most 32 bytes, such as a wrap's archetype. The unused
/// tail of the buffer is kept zero, so two symbols with the same bytes are
/// the same value.
#[derive(Clone, Copy, Debug)]
pub struct Symbol {
    len: usize,
    chars: [u8; 32],
}

impl View for Symbol {
    type V = Seq<u8>;

    closed spec fn view(&self) -> Seq<u8> {
        self.chars@.take(self.len as int)
    }
}

impl Symbol {
    /// The buffer holds `len <= 32` bytes and zeros after them.
    #[verifier::type_invariant]
    pub closed spec fn wf(self) -> bool {
        &&& self.len <= 32
        &&& forall|i: int| self.len <= i < 32 ==> self.chars@[i] == 0u8
    }

    /// What every symbol satisfies: at most 32 bytes, and determined by them.
    pub proof fn lemma_wf(self, other: Symbol)
        requires
            self.wf(),
            other.wf(),
        ensures
            self@.len() <= 32,
            self@ == other@ ==> self == other,
    {
        if self@ == other@ {
            assert(self.len == other.len);
            assert forall|i: int| 0 <= i < 32 implies self.chars@[i] == other.chars@[i] by {
                if i < self.len {
                    assert(self@[i] == other@[i]);
                }
            }
            assert(self.chars =~= other.chars);
        }
    }

    /// The symbol holding `bytes`, or `None` where there are more than 32.
    pub fn from_bytes(bytes: &[u8]) -> (r: Option<Symbol>)
        ensures
            r is Some <==> bytes@.len() <= 32,
            r matches Some(s) ==> s@ == bytes@,
    {
        if bytes.len() > SYMBOL_MAX_LEN {
            return None;
        }
        let mut chars = [0u8; 32];
        let mut i: usize = 0;
        while i < bytes.len()
            invariant
                bytes@.len() <= 32,
                0 <= i <= bytes@.len(),
                chars@.len() == 32,
                forall|j: int| 0 <= j < i ==> chars@[j] == bytes@[j],
                forall|j: int| i <= j < 32 ==> chars@[j] == 0u8,
            decreases bytes@.len() - i,
        {
            chars[i] = bytes[i];
            i = i + 1;
        }
        let s = Symbol { len: bytes.len(), chars };
        assert(s@ =~= bytes@);
        Some(s)
    }

    /// The number of bytes in the symbol.
    pub fn len(&self) -> (n: usize)
        ensures
            n == self@.len(),
    {
        proof {
            use_type_invariant(self);
        }
        self.len
    }

    /// The bytes of the symbol.
    pub fn to_vec(&self) -> (v: Vec<u8>)
        ensures
            v@ == self@,
            v@.len() <= 32,
    {
        proof {
            use_type_invariant(self);
        }
        let mut v: Vec<u8> = Vec::new();
        let mut i: usize = 0;
        while i < self.len
            invariant
                self.len <= 32,
                0 <= i <= self.len,
                self.chars@.len() == 32,
                v@ =~= self.chars@.take(i as int),
            decreases self.len - i,
        {
            v.push(self.chars[i]);
            i = i + 1;
        }
        v
    }

    /// Whether two symbols hold the same bytes (and so are the same symbol).
    pub fn same(&self, other: &Symbol) -> (r: bool)
        ensures
            r == (self@ == other@),
            r == (*self == *other),
    {
        proof {
            use_type_invariant(self);
            use_type_invariant(other);
            self.lemma_wf(*other);
        }
        let r = self.len == other.len && same_bytes32(&self.chars, &other.chars);
        proof {
            if r {
                assert(self.chars =~= other.chars);
            }
        }
        r
    }
}

/// The key under which a wrap is stored: its holder and its period.
#[derive(Clone, Copy, Debug)]
pub struct WrapKey {
    pub user: Address,
    pub period: u64,
}

/// A minted wrap: when it was minted, the hash of its data, its archetype
/// and its period.
#[derive(Clone, Copy, Debug)]
pub struct WrapRecord {
    pub timestamp: u64,
    pub data_hash: [u8; 32],
    pub archetype: Symbol,
    pub period: u64,
}

/// The errors that the registry raises by its own rules.
#[derive(Clone, Copy, Debug, PartialEq, Eq, Structural, PartialOrd, Ord)]
pub enum ContractError {
    AlreadyInitialized,
    NotInitialized,
    Unauthorized,
    WrapAlreadyExists,
    WrapNotFound,
    InvalidSignature,
    InvalidDataHash,
}

impl ContractError {
    /// The error's code, as the contract reports it.
    pub fn code(&self) -> (c: u32)
        ensures
            c == self.spec_code(),
    {
        match self {
            ContractError::AlreadyInitialized => 1,
            ContractError::NotInitialized => 2,
            ContractError::Unauthorized => 3,
            ContractError::WrapAlreadyExists => 4,
            ContractError::WrapNotFound => 5,
            ContractError::InvalidSignature => 6,
            ContractError::InvalidDataHash => 7,
        }
    }

    pub open spec fn spec_code(&self) -> u32 {
        match self {
            ContractError::AlreadyInitialized => 1,
            ContractError::NotInitialized => 2,
            ContractError::Unauthorized => 3,
            ContractError::WrapAlreadyExists => 4,
            ContractError::WrapNotFound => 5,
            ContractError::InvalidSignature => 6,
            ContractError::InvalidDataHash => 7,
        }
    }
}

/// Why an invocation was refused. A refused invocation changes nothing.
#[derive(Clone, Copy, Debug, PartialEq, Eq, Structural)]
pub enum Failure {
    /// The registry's own rules refused it.
    Contract(ContractError),
    /// An address whose authorization the call needs did not give it.
    NotAuthorized,
    /// The ed25519 signature does not verify against the admin's key.
    SignatureRejected,
}

/// The storage keys of the registry.
#[derive(Clone, Copy, Debug)]
pub enum DataKey {
    Admin,
    AdminPubKey,
    SchemaVersion,
    Wrap(Address, u64),
    WrapCount(Address),
    LatestPeriod(Address),
    MintGuard(Address),
    AllowedArchetypes,
    MerkleRoot(u64),
    MerkleClaimed(Address, u64),
    UserOptOut(Address),
}

/// The version of the storage layout.
pub const SCHEMA_VERSION: u32 = 1;

/// The number of ledgers in a year (5 s each), the time-to-live that the
/// registry gives its entries.
pub const TTL_ONE_YEAR: u32 = 17280 * 365;

/// An event that an invocation publishes, under the topic `v1` and the
/// name of the action.
#[derive(Clone, Copy, Debug)]
pub enum Event {
    /// Topics `("v1", "admin", "updated")`, data `(previous, new_admin)`.
    AdminUpdated { previous: Address, new_admin: Address },
    /// Topics `("v1", "mint", user, period)`, data the archetype.
    Minted { user: Address, period: u64, archetype: Symbol },
    /// Topics `("v1", "update", user, period)`, data the new archetype.
    Updated { user: Address, period: u64, archetype: Symbol },
    /// Topics `("v1", "revoke", user, period)`, data `true`.
    Revoked { user: Address, period: u64 },
}

/// What a successful invocation asks of the host besides the new state:
/// an event to publish, and the storage entries whose time-to-live is to be
/// extended to `TTL_ONE_YEAR` (the contract instance's too, where
/// `extend_instance` holds).
pub struct Outcome {
    pub event: Option<Event>,
    pub extended: Vec<DataKey>,
    pub extend_instance: bool,
}

/// The context of an invocation that the host supplies: which addresses
/// have authorized it, and the ledger's timestamp.
pub struct Invocation {
    pub authorized: Vec<Address>,
    pub timestamp: u64,
}

/// Static metadata of the registry.
pub struct ContractInfo {
    pub name: String,
    pub version: String,
    pub repo: String,
    pub description: String,
}

/// Aggregate statistics of the registry.
pub struct ContractStats {
    pub total_mints: u64,
    pub admin: Option<Address>,
    pub is_initialized: bool,
    pub last_mint_timestamp: Option<u64>,
    pub schema_version: u32,
}

/// The result of comparing two users' wraps for one period.
pub struct WrapComparison {
    pub period: u64,
    pub user_a_wrap: Option<WrapRecord>,
    pub user_b_wrap: Option<WrapRecord>,
    pub both_have_wrap: bool,
    pub same_archetype: bool,
}

} // verus!
