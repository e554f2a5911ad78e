//! The abstract state of the registry and what each invocation does to it.

use vstd::prelude::*;

use crate::crypto::ed25519_verifies;
use crate::types::{Address, ContractError, DataKey, Failure, Symbol, WrapKey, WrapRecord};
use crate::xdr::signing_payload;

verus! {

/// The registry's storage: the instance entries (admin and admin key), the
/// persistent entries (wraps, per-user wrap counts, per-user latest periods)
/// and the temporary mint guards, together with the contract's own address.
pub struct RegistryState {
    pub contract: Address,
    pub admin: Option<Address>,
    pub admin_pubkey: Option<[u8; 32]>,
    pub wraps: Map<WrapKey, WrapRecord>,
    pub counts: Map<Address, u32>,
    pub latest: Map<Address, u64>,
    pub guards: Map<Address, bool>,
}

/// 32 zero bytes: the data hash that is never accepted.
pub open spec fn zero_hash() -> Seq<u8> {
    Seq::new(32, |i: int| 0u8)
}

/// The periods at which `user` holds a wrap.
pub open spec fn held_in(wraps: Map<WrapKey, WrapRecord>, user: Address) -> Set<u64> {
    Set::new(|p: u64| wraps.contains_key(WrapKey { user, period: p }))
}

impl RegistryState {
    /// A freshly deployed registry at `contract`: all storage empty.
    pub open spec fn deployed(contract: Address) -> RegistryState {
        RegistryState {
            contract,
            admin: None,
            admin_pubkey: None,
            wraps: Map::empty(),
            counts: Map::empty(),
            latest: Map::empty(),
            guards: Map::empty(),
        }
    }

    /// The stored wrap count of `user`, 0 where none is stored.
    pub open spec fn count_of(self, user: Address) -> u32 {
        if self.counts.contains_key(user) {
            self.counts[user]
        } else {
            0
        }
    }

    /// The stored latest period of `user`, 0 where none is stored.
    pub open spec fn latest_of(self, user: Address) -> u64 {
        if self.latest.contains_key(user) {
            self.latest[user]
        } else {
            0
        }
    }

    /// The periods at which `user` holds a wrap: those `p` for which
    /// `get_wrap(user, p)` returns a record.
    pub open spec fn held(self, user: Address) -> Set<u64> {
        held_in(self.wraps, user)
    }

    /// What holds of every state that invocations reach from deployment:
    /// admin and admin key are set together; no mint guard outlives an
    /// invocation; each user holds finitely many wraps and its count is
    /// their number; each wrap is stored under its own period, which is at
    /// most the holder's latest period, and has a non-zero data hash.
    pub open spec fn consistent(self) -> bool {
        &&& self.admin.is_some() == self.admin_pubkey.is_some()
        &&& self.guards.dom() == Set::<Address>::empty()
        &&& forall|u: Address| #[trigger] self.held(u).finite()
        &&& forall|u: Address| #[trigger] self.count_of(u) == self.held(u).len()
        &&& forall|k: WrapKey|
            #[trigger] self.wraps.contains_key(k) ==> {
                &&& self.wraps[k].period == k.period
                &&& k.period <= self.latest_of(k.user)
                &&& self.wraps[k].data_hash@ != zero_hash()
            }
    }

    /// `initialize`: sets the admin and the admin's ed25519 key, once.
    pub open spec fn initialize_result(self, admin: Address, admin_pubkey: [u8; 32]) -> Result<
        RegistryState,
        Failure,
    > {
        if self.admin.is_some() {
            Err(Failure::Contract(ContractError::AlreadyInitialized))
        } else {
            Ok(RegistryState { admin: Some(admin), admin_pubkey: Some(admin_pubkey), ..self })
        }
    }

    /// `update_admin`: the current admin hands the role to `new_admin`.
    pub open spec fn update_admin_result(self, authorized: Seq<Address>, new_admin: Address) -> Result<
        RegistryState,
        Failure,
    > {
        match self.admin {
            None => Err(Failure::Contract(ContractError::NotInitialized)),
            Some(current) => if !authorized.contains(current) {
                Err(Failure::NotAuthorized)
            } else {
                Ok(RegistryState { admin: Some(new_admin), ..self })
            },
        }
    }

    /// `mint_wrap`: the user, with the admin's signature over the payload,
    /// mints the wrap for `period`, stamped with the ledger time `now`.
    pub open spec fn mint_result(
        self,
        authorized: Seq<Address>,
        now: u64,
        user: Address,
        period: u64,
        archetype: Symbol,
        data_hash: [u8; 32],
        signature: [u8; 64],
    ) -> Result<RegistryState, Failure> {
        if !authorized.contains(user) {
            Err(Failure::NotAuthorized)
        } else if self.guards.contains_key(user) {
            Err(Failure::Contract(ContractError::Unauthorized))
        } else if self.admin_pubkey is None {
            Err(Failure::Contract(ContractError::NotInitialized))
        } else if data_hash@ == zero_hash() {
            Err(Failure::Contract(ContractError::InvalidDataHash))
        } else if !ed25519_verifies(
            self.admin_pubkey.unwrap()@,
            signing_payload(self.contract, user, period, archetype@, data_hash@),
            signature@,
        ) {
            Err(Failure::SignatureRejected)
        } else if self.wraps.contains_key(WrapKey { user, period }) {
            Err(Failure::Contract(ContractError::WrapAlreadyExists))
        } else {
            Ok(
                RegistryState {
                    wraps: self.wraps.insert(
                        WrapKey { user, period },
                        WrapRecord { timestamp: now, data_hash, archetype, period },
                    ),
                    counts: self.counts.insert(user, (self.count_of(user) + 1) as u32),
                    latest: if period > self.latest_of(user) {
                        self.latest.insert(user, period)
                    } else {
                        self.latest
                    },
                    ..self
                },
            )
        }
    }

    /// The entries whose time-to-live a successful mint extends.
    pub open spec fn mint_extended(self, user: Address, period: u64) -> Seq<DataKey> {
        seq![DataKey::Wrap(user, period), DataKey::WrapCount(user)] + if period > self.latest_of(
            user,
        ) {
            seq![DataKey::LatestPeriod(user)]
        } else {
            Seq::<DataKey>::empty()
        }
    }

    /// `update_wrap`: the admin, with a signature by the admin key, replaces
    /// the data hash and archetype of an existing wrap; its timestamp stays.
    pub open spec fn update_result(
        self,
        authorized: Seq<Address>,
        user: Address,
        period: u64,
        new_data_hash: [u8; 32],
        new_archetype: Symbol,
        signature: [u8; 64],
    ) -> Result<RegistryState, Failure> {
        if self.admin is None {
            Err(Failure::Contract(ContractError::NotInitialized))
        } else if !authorized.contains(self.admin.unwrap()) {
            Err(Failure::NotAuthorized)
        } else if self.admin_pubkey is None {
            Err(Failure::Contract(ContractError::NotInitialized))
        } else if new_data_hash@ == zero_hash() {
            Err(Failure::Contract(ContractError::InvalidDataHash))
        } else if !ed25519_verifies(
            self.admin_pubkey.unwrap()@,
            signing_payload(self.contract, user, period, new_archetype@, new_data_hash@),
            signature@,
        ) {
            Err(Failure::SignatureRejected)
        } else if !self.wraps.contains_key(WrapKey { user, period }) {
            Err(Failure::Contract(ContractError::WrapNotFound))
        } else {
            Ok(
                RegistryState {
                    wraps: self.wraps.insert(
                        WrapKey { user, period },
                        WrapRecord {
                            timestamp: self.wraps[WrapKey { user, period }].timestamp,
                            data_hash: new_data_hash,
                            archetype: new_archetype,
                            period,
                        },
                    ),
                    ..self
                },
            )
        }
    }

    /// `revoke_wrap`: the admin removes a wrap; the holder's count drops by
    /// one (never below zero). The latest period stays as it was.
    pub open spec fn revoke_result(self, authorized: Seq<Address>, user: Address, period: u64) -> Result<
        RegistryState,
        Failure,
    > {
        if self.admin is None {
            Err(Failure::Contract(ContractError::NotInitialized))
        } else if !authorized.contains(self.admin.unwrap()) {
            Err(Failure::NotAuthorized)
        } else if !self.wraps.contains_key(WrapKey { user, period }) {
            Err(Failure::Contract(ContractError::WrapNotFound))
        } else {
            Ok(
                RegistryState {
                    wraps: self.wraps.remove(WrapKey { user, period }),
                    counts: if self.count_of(user) > 0 {
                        self.counts.insert(user, (self.count_of(user) - 1) as u32)
                    } else {
                        self.counts
                    },
                    ..self
                },
            )
        }
    }

    /// `upgrade`: only the admin may replace the contract's code.
    pub open spec fn upgrade_result(self, authorized: Seq<Address>) -> Result<(), Failure> {
        if self.admin is None {
            Err(Failure::Contract(ContractError::NotInitialized))
        } else if !authorized.contains(self.admin.unwrap()) {
            Err(Failure::NotAuthorized)
        } else {
            Ok(())
        }
    }

    /// `get_latest_wrap`: the wrap at the user's latest period, if any.
    pub open spec fn latest_wrap(self, user: Address) -> Option<WrapRecord> {
        if self.latest.contains_key(user) {
            self.wraps.get(WrapKey { user, period: self.latest[user] })
        } else {
            None
        }
    }

    /// The entries that `extend_ttl` extends: those of the three that exist.
    pub open spec fn ttl_keys(self, user: Address, period: u64) -> Seq<DataKey> {
        (if self.wraps.contains_key(WrapKey { user, period }) {
            seq![DataKey::Wrap(user, period)]
        } else {
            Seq::<DataKey>::empty()
        }) + (if self.counts.contains_key(user) {
            seq![DataKey::WrapCount(user)]
        } else {
            Seq::<DataKey>::empty()
        }) + (if self.latest.contains_key(user) {
            seq![DataKey::LatestPeriod(user)]
        } else {
            Seq::<DataKey>::empty()
        })
    }
}

/// Adding a wrap that was not there adds one to its holder's holdings and
/// leaves everyone else's as they were.
pub proof fn lemma_held_insert(
    wraps: Map<WrapKey, WrapRecord>,
    k: WrapKey,
    r: WrapRecord,
    u: Address,
)
    requires
        held_in(wraps, u).finite(),
        !wraps.contains_key(k),
    ensures
        held_in(wraps.insert(k, r), u).finite(),
        held_in(wraps.insert(k, r), u).len() == held_in(wraps, u).len() + (if k.user == u {
            1int
        } else {
            0int
        }),
{
    if k.user == u {
        assert(held_in(wraps.insert(k, r), u) =~= held_in(wraps, u).insert(k.period));
        assert(!held_in(wraps, u).contains(k.period));
    } else {
        assert(held_in(wraps.insert(k, r), u) =~= held_in(wraps, u));
    }
}

/// Removing a wrap that was there takes one from its holder's holdings and
/// leaves everyone else's as they were.
pub proof fn lemma_held_remove(wraps: Map<WrapKey, WrapRecord>, k: WrapKey, u: Address)
    requires
        held_in(wraps, u).finite(),
        wraps.contains_key(k),
    ensures
        held_in(wraps.remove(k), u).finite(),
        held_in(wraps.remove(k), u).len() + (if k.user == u {
            1int
        } else {
            0int
        }) == held_in(wraps, u).len(),
{
    if k.user == u {
        assert(held_in(wraps.remove(k), u) =~= held_in(wraps, u).remove(k.period));
        assert(held_in(wraps, u).contains(k.period));
    } else {
        assert(held_in(wraps.remove(k), u) =~= held_in(wraps, u));
    }
}

/// Replacing the record under a present key changes nobody's holdings.
pub proof fn lemma_held_replace(
    wraps: Map<WrapKey, WrapRecord>,
    k: WrapKey,
    r: WrapRecord,
    u: Address,
)
    requires
        wraps.contains_key(k),
    ensures
        held_in(wraps.insert(k, r), u) == held_in(wraps, u),
{
    assert(held_in(wraps.insert(k, r), u) =~= held_in(wraps, u));
}

} // verus!
