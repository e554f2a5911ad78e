//! The registry contract: its storage and its invocations.

use vstd::prelude::*;

use soroban_sdk::Env;

use crate::crypto::{ed25519_verify, sha256, sha256_digest};
use crate::laws::{
    lemma_deployed_consistent, lemma_initialize_keeps_consistent, lemma_mint_keeps_consistent,
    lemma_revoke_keeps_consistent, lemma_update_admin_keeps_consistent, lemma_update_keeps_consistent,
};
use crate::state::RegistryState;
use crate::table::{pairs_to_map, Table};
use crate::types::{
    is_zero_bytes32, same_bytes32, Address, ContractError, ContractInfo, DataKey, Event, Failure,
    Invocation, Outcome, Symbol, WrapKey, WrapRecord,
};
use crate::xdr::build_signing_payload;

verus! {

/// The wrap registry: soulbound records, one per user and period, minted by
/// the user on the strength of the admin's ed25519 signature.
pub struct StellarWrapContract {
    contract: Address,
    admin: Option<Address>,
    admin_pubkey: Option<[u8; 32]>,
    wraps: Table<WrapKey, WrapRecord>,
    counts: Table<Address, u32>,
    latest: Table<Address, u64>,
    guards: Table<Address, bool>,
}

impl View for StellarWrapContract {
    type V = RegistryState;

    closed spec fn view(&self) -> RegistryState {
        RegistryState {
            contract: self.contract,
            admin: self.admin,
            admin_pubkey: self.admin_pubkey,
            wraps: self.wraps@,
            counts: self.counts@,
            latest: self.latest@,
            guards: self.guards@,
        }
    }
}

/// Whether `a` has authorized the invocation.
fn has_authorized(inv: &Invocation, a: &Address) -> (r: bool)
    ensures
        r == inv.authorized@.contains(*a),
{
    let mut i: usize = 0;
    while i < inv.authorized.len()
        invariant
            0 <= i <= inv.authorized@.len(),
            forall|j: int| 0 <= j < i ==> inv.authorized@[j] != *a,
        decreases inv.authorized@.len() - i,
    {
        if inv.authorized[i].same(a) {
            return true;
        }
        i = i + 1;
    }
    false
}

impl StellarWrapContract {
    /// The storage tables are well formed.
    pub closed spec fn wf(&self) -> bool {
        &&& self.wraps.wf()
        &&& self.counts.wf()
        &&& self.latest.wf()
        &&& self.guards.wf()
    }

    /// The registry as deployed at `contract`, before `initialize`.
    pub fn new(contract: Address) -> (c: Self)
        ensures
            c.wf(),
            c@ == RegistryState::deployed(contract),
            c@.consistent(),
    {
        let c = StellarWrapContract {
            contract,
            admin: None,
            admin_pubkey: None,
            wraps: Table::new(),
            counts: Table::new(),
            latest: Table::new(),
            guards: Table::new(),
        };
        proof {
            lemma_deployed_consistent(contract);
        }
        c
    }

    /// The registry at `contract` holding the given storage entries (a later
    /// entry for a key overrides an earlier one). The host's storage is read
    /// into this form before an invocation.
    pub fn from_storage(
        contract: Address,
        admin: Option<Address>,
        admin_pubkey: Option<[u8; 32]>,
        wraps: &Vec<(WrapKey, WrapRecord)>,
        counts: &Vec<(Address, u32)>,
        latest: &Vec<(Address, u64)>,
        guards: &Vec<(Address, bool)>,
    ) -> (c: Self)
        ensures
            c.wf(),
            c@ == (RegistryState {
                contract,
                admin,
                admin_pubkey,
                wraps: pairs_to_map(wraps@),
                counts: pairs_to_map(counts@),
                latest: pairs_to_map(latest@),
                guards: pairs_to_map(guards@),
            }),
    {
        StellarWrapContract {
            contract,
            admin,
            admin_pubkey,
            wraps: Table::from_pairs(wraps),
            counts: Table::from_pairs(counts),
            latest: Table::from_pairs(latest),
            guards: Table::from_pairs(guards),
        }
    }

    /// The stored wrap count of `user`, if one is stored.
    pub fn stored_count(&self, user: Address) -> (r: Option<u32>)
        requires
            self.wf(),
        ensures
            r == self@.counts.get(user),
    {
        self.counts.get(&user)
    }

    /// The stored latest period of `user`, if one is stored.
    pub fn stored_latest_period(&self, user: Address) -> (r: Option<u64>)
        requires
            self.wf(),
        ensures
            r == self@.latest.get(user),
    {
        self.latest.get(&user)
    }

    /// The stored admin public key, if one is stored.
    pub fn admin_pubkey(&self) -> (r: Option<[u8; 32]>)
        ensures
            r == self@.admin_pubkey,
    {
        self.admin_pubkey
    }

    /// The contract's own address.
    pub fn contract_address(&self) -> (a: Address)
        ensures
            a == self@.contract,
    {
        self.contract
    }

    /// Sets the admin and the admin's ed25519 public key. Fails with
    /// `AlreadyInitialized` once an admin is set.
    pub fn initialize(&mut self, admin: Address, admin_pubkey: [u8; 32]) -> (r: Result<(), Failure>)
        requires
            old(self).wf(),
        ensures
            final(self).wf(),
            old(self)@.consistent() ==> final(self)@.consistent(),
            old(self)@.initialize_result(admin, admin_pubkey) == match r {
                Ok(_) => Ok(final(self)@),
                Err(f) => Err(f),
            },
            r is Err ==> final(self)@ == old(self)@,
    {
        if self.admin.is_some() {
            return Err(Failure::Contract(ContractError::AlreadyInitialized));
        }
        proof {
            if self@.consistent() {
                lemma_initialize_keeps_consistent(self@, admin, admin_pubkey);
            }
        }
        self.admin = Some(admin);
        self.admin_pubkey = Some(admin_pubkey);
        Ok(())
    }

    /// The current admin, with its authorization, hands the admin role to
    /// `new_admin`, and an `AdminUpdated` event is published.
    pub fn update_admin(&mut self, inv: &Invocation, new_admin: Address) -> (r: Result<Outcome, Failure>)
        requires
            old(self).wf(),
        ensures
            final(self).wf(),
            old(self)@.consistent() ==> final(self)@.consistent(),
            old(self)@.update_admin_result(inv.authorized@, new_admin) == match r {
                Ok(_) => Ok(final(self)@),
                Err(f) => Err(f),
            },
            r is Err ==> final(self)@ == old(self)@,
            r matches Ok(out) ==> {
                &&& out.event == Some(
                    Event::AdminUpdated { previous: old(self)@.admin.unwrap(), new_admin },
                )
                &&& out.extended@ == Seq::<DataKey>::empty()
                &&& !out.extend_instance
            },
    {
        let current = match self.admin {
            Some(a) => a,
            None => {
                return Err(Failure::Contract(ContractError::NotInitialized));
            },
        };
        if !has_authorized(inv, &current) {
            return Err(Failure::NotAuthorized);
        }
        proof {
            if self@.consistent() {
                lemma_update_admin_keeps_consistent(self@, inv.authorized@, new_admin);
            }
        }
        self.admin = Some(new_admin);
        Ok(
            Outcome {
                event: Some(Event::AdminUpdated { previous: current, new_admin }),
                extended: Vec::new(),
                extend_instance: false,
            },
        )
    }

    /// The user, with its authorization and the admin's signature over the
    /// signing payload, mints its wrap for `period`, stamped with the
    /// ledger's timestamp. The user's count grows by one and its latest
    /// period becomes `period` where that is later; a `Minted` event is
    /// published and the new entries' time-to-live is extended.
    pub fn mint_wrap(
        &mut self,
        inv: &Invocation,
        user: Address,
        period: u64,
        archetype: Symbol,
        data_hash: [u8; 32],
        signature: [u8; 64],
    ) -> (r: Result<Outcome, Failure>)
        requires
            old(self).wf(),
            old(self)@.count_of(user) < u32::MAX,
        ensures
            final(self).wf(),
            old(self)@.consistent() ==> final(self)@.consistent(),
            old(self)@.mint_result(
                inv.authorized@,
                inv.timestamp,
                user,
                period,
                archetype,
                data_hash,
                signature,
            ) == match r {
                Ok(_) => Ok(final(self)@),
                Err(f) => Err(f),
            },
            r is Err ==> final(self)@ == old(self)@,
            r matches Ok(out) ==> {
                &&& out.event == Some(Event::Minted { user, period, archetype })
                &&& out.extended@ == old(self)@.mint_extended(user, period)
                &&& !out.extend_instance
            },
    {
        if !has_authorized(inv, &user) {
            return Err(Failure::NotAuthorized);
        }
        if self.guards.contains(&user) {
            return Err(Failure::Contract(ContractError::Unauthorized));
        }
        let pubkey = match self.admin_pubkey {
            Some(k) => k,
            None => {
                return Err(Failure::Contract(ContractError::NotInitialized));
            },
        };
        if is_zero_bytes32(&data_hash) {
            return Err(Failure::Contract(ContractError::InvalidDataHash));
        }
        let payload = build_signing_payload(&self.contract, &user, period, &archetype, &data_hash);
        if !ed25519_verify(&pubkey, &payload, &signature) {
            return Err(Failure::SignatureRejected);
        }
        let key = WrapKey { user, period };
        if self.wraps.contains(&key) {
            return Err(Failure::Contract(ContractError::WrapAlreadyExists));
        }
        let ghost before = self@;
        proof {
            if before.consistent() {
                lemma_mint_keeps_consistent(
                    before,
                    inv.authorized@,
                    inv.timestamp,
                    user,
                    period,
                    archetype,
                    data_hash,
                    signature,
                );
            }
        }
        let record = WrapRecord { timestamp: inv.timestamp, data_hash, archetype, period };
        self.wraps.set(key, record);
        let count = match self.counts.get(&user) {
            Some(c) => c,
            None => 0,
        };
        self.counts.set(user, count + 1);
        let latest = match self.latest.get(&user) {
            Some(p) => p,
            None => 0,
        };
        let mut extended: Vec<DataKey> = Vec::new();
        extended.push(DataKey::Wrap(user, period));
        extended.push(DataKey::WrapCount(user));
        if period > latest {
            self.latest.set(user, period);
            extended.push(DataKey::LatestPeriod(user));
        }
        // The guard that the invocation holds while it runs is released here.
        self.guards.remove(&user);
        proof {
            assert(self.guards@ =~= before.guards);
            assert(self@ == before.mint_result(
                inv.authorized@,
                inv.timestamp,
                user,
                period,
                archetype,
                data_hash,
                signature,
            ).unwrap());
            assert(extended@ =~= before.mint_extended(user, period));
        }
        Ok(
            Outcome {
                event: Some(Event::Minted { user, period, archetype }),
                extended,
                extend_instance: false,
            },
        )
    }

    /// The admin, with its authorization and a signature by the admin key
    /// over the new payload, replaces the data hash and archetype of an
    /// existing wrap; its timestamp stays. An `Updated` event is published
    /// and the wrap's time-to-live is extended.
    pub fn update_wrap(
        &mut self,
        inv: &Invocation,
        user: Address,
        period: u64,
        new_data_hash: [u8; 32],
        new_archetype: Symbol,
        signature: [u8; 64],
    ) -> (r: Result<Outcome, Failure>)
        requires
            old(self).wf(),
        ensures
            final(self).wf(),
            old(self)@.consistent() ==> final(self)@.consistent(),
            old(self)@.update_result(
                inv.authorized@,
                user,
                period,
                new_data_hash,
                new_archetype,
                signature,
            ) == match r {
                Ok(_) => Ok(final(self)@),
                Err(f) => Err(f),
            },
            r is Err ==> final(self)@ == old(self)@,
            r matches Ok(out) ==> {
                &&& out.event == Some(Event::Updated { user, period, archetype: new_archetype })
                &&& out.extended@ == seq![DataKey::Wrap(user, period)]
                &&& !out.extend_instance
            },
    {
        let admin = match self.admin {
            Some(a) => a,
            None => {
                return Err(Failure::Contract(ContractError::NotInitialized));
            },
        };
        if !has_authorized(inv, &admin) {
            return Err(Failure::NotAuthorized);
        }
        let pubkey = match self.admin_pubkey {
            Some(k) => k,
            None => {
                return Err(Failure::Contract(ContractError::NotInitialized));
            },
        };
        if is_zero_bytes32(&new_data_hash) {
            return Err(Failure::Contract(ContractError::InvalidDataHash));
        }
        let payload = build_signing_payload(
            &self.contract,
            &user,
            period,
            &new_archetype,
            &new_data_hash,
        );
        if !ed25519_verify(&pubkey, &payload, &signature) {
            return Err(Failure::SignatureRejected);
        }
        let key = WrapKey { user, period };
        let existing = match self.wraps.get(&key) {
            Some(rec) => rec,
            None => {
                return Err(Failure::Contract(ContractError::WrapNotFound));
            },
        };
        proof {
            if self@.consistent() {
                lemma_update_keeps_consistent(
                    self@,
                    inv.authorized@,
                    user,
                    period,
                    new_data_hash,
                    new_archetype,
                    signature,
                );
            }
        }
        let updated = WrapRecord {
            timestamp: existing.timestamp,
            data_hash: new_data_hash,
            archetype: new_archetype,
            period,
        };
        self.wraps.set(key, updated);
        let mut extended: Vec<DataKey> = Vec::new();
        extended.push(DataKey::Wrap(user, period));
        proof {
            assert(extended@ =~= seq![DataKey::Wrap(user, period)]);
        }
        Ok(
            Outcome {
                event: Some(Event::Updated { user, period, archetype: new_archetype }),
                extended,
                extend_instance: false,
            },
        )
    }

    /// The admin, with its authorization, revokes an existing wrap; the
    /// holder's count drops by one and a `Revoked` event is published.
    pub fn revoke_wrap(&mut self, inv: &Invocation, user: Address, period: u64) -> (r: Result<
        Outcome,
        Failure,
    >)
        requires
            old(self).wf(),
        ensures
            final(self).wf(),
            old(self)@.consistent() ==> final(self)@.consistent(),
            old(self)@.revoke_result(inv.authorized@, user, period) == match r {
                Ok(_) => Ok(final(self)@),
                Err(f) => Err(f),
            },
            r is Err ==> final(self)@ == old(self)@,
            r matches Ok(out) ==> {
                &&& out.event == Some(Event::Revoked { user, period })
                &&& out.extended@ == Seq::<DataKey>::empty()
                &&& !out.extend_instance
            },
    {
        let admin = match self.admin {
            Some(a) => a,
            None => {
                return Err(Failure::Contract(ContractError::NotInitialized));
            },
        };
        if !has_authorized(inv, &admin) {
            return Err(Failure::NotAuthorized);
        }
        let key = WrapKey { user, period };
        if !self.wraps.contains(&key) {
            return Err(Failure::Contract(ContractError::WrapNotFound));
        }
        proof {
            if self@.consistent() {
                lemma_revoke_keeps_consistent(self@, inv.authorized@, user, period);
            }
        }
        self.wraps.remove(&key);
        let count = match self.counts.get(&user) {
            Some(c) => c,
            None => 0,
        };
        if count > 0 {
            self.counts.set(user, count - 1);
        }
        Ok(
            Outcome {
                event: Some(Event::Revoked { user, period }),
                extended: Vec::new(),
                extend_instance: false,
            },
        )
    }

    /// The wrap of `user` for `period`, if there is one.
    pub fn get_wrap(&self, user: Address, period: u64) -> (r: Option<WrapRecord>)
        requires
            self.wf(),
        ensures
            r == self@.wraps.get(WrapKey { user, period }),
    {
        self.wraps.get(&WrapKey { user, period })
    }

    /// The number of wraps that `id` holds (its stored count, 0 if none).
    pub fn balance_of(&self, id: Address) -> (b: i128)
        requires
            self.wf(),
        ensures
            b == self@.count_of(id),
    {
        match self.counts.get(&id) {
            Some(c) => c as i128,
            None => 0,
        }
    }

    /// Whether `data` hashes (SHA-256) to the data hash of the wrap of `user`
    /// for `period`; `false` where there is no such wrap.
    pub fn verify_data(&self, env: &Env, user: Address, period: u64, data: &Vec<u8>) -> (ok: bool)
        requires
            self.wf(),
        ensures
            ok == match self@.wraps.get(WrapKey { user, period }) {
                Some(record) => record.data_hash@ == sha256_digest(data@),
                None => false,
            },
    {
        match self.wraps.get(&WrapKey { user, period }) {
            Some(record) => {
                let computed = sha256(env, data);
                same_bytes32(&record.data_hash, &computed)
            },
            None => false,
        }
    }

    /// The wrap of `user` at its latest period, if that wrap exists.
    pub fn get_latest_wrap(&self, user: Address) -> (r: Option<WrapRecord>)
        requires
            self.wf(),
        ensures
            r == self@.latest_wrap(user),
    {
        match self.latest.get(&user) {
            Some(period) => self.wraps.get(&WrapKey { user, period }),
            None => None,
        }
    }

    /// Extends to `TTL_ONE_YEAR` the time-to-live of those of the wrap, the
    /// count and the latest period of `user` that exist, and of the contract
    /// instance. Nothing else changes.
    pub fn extend_ttl(&self, user: Address, period: u64) -> (out: Outcome)
        requires
            self.wf(),
        ensures
            out.event is None,
            out.extended@ == self@.ttl_keys(user, period),
            out.extend_instance,
    {
        let mut extended: Vec<DataKey> = Vec::new();
        if self.wraps.contains(&WrapKey { user, period }) {
            extended.push(DataKey::Wrap(user, period));
        }
        if self.counts.contains(&user) {
            extended.push(DataKey::WrapCount(user));
        }
        if self.latest.contains(&user) {
            extended.push(DataKey::LatestPeriod(user));
        }
        proof {
            assert(extended@ =~= self@.ttl_keys(user, period));
        }
        Outcome { event: None, extended, extend_instance: true }
    }

    /// The admin, if one is set.
    pub fn get_admin(&self) -> (r: Option<Address>)
        ensures
            r == self@.admin,
    {
        self.admin
    }

    /// The admin, with its authorization, may replace the contract's code
    /// with `new_wasm_hash`; on success that hash is handed back to install.
    pub fn upgrade(&self, inv: &Invocation, new_wasm_hash: [u8; 32]) -> (r: Result<[u8; 32], Failure>)
        ensures
            match self@.upgrade_result(inv.authorized@) {
                Ok(_) => r == Ok::<[u8; 32], Failure>(new_wasm_hash),
                Err(f) => r == Err::<[u8; 32], Failure>(f),
            },
    {
        let admin = match self.admin {
            Some(a) => a,
            None => {
                return Err(Failure::Contract(ContractError::NotInitialized));
            },
        };
        if !has_authorized(inv, &admin) {
            return Err(Failure::NotAuthorized);
        }
        Ok(new_wasm_hash)
    }

    /// The token's name.
    pub fn name() -> (s: String)
        ensures
            s@ == "Stellar Wrap Registry"@,
    {
        "Stellar Wrap Registry".to_owned()
    }

    /// The token's symbol.
    pub fn symbol() -> (s: String)
        ensures
            s@ == "WRAP"@,
    {
        "WRAP".to_owned()
    }

    /// Wraps are indivisible.
    pub fn decimals() -> (d: u32)
        ensures
            d == 0,
    {
        0
    }

    /// The registry's static metadata.
    pub fn contract_info() -> (info: ContractInfo)
        ensures
            info.name@ == "Stellar Wrap Registry"@,
            info.version@ == "0.1.0"@,
            info.repo@ == "https://github.com/zintarh/stellar-wrap-contract"@,
            info.description@ == "Soulbound token registry for Stellar Wrap"@,
    {
        ContractInfo {
            name: "Stellar Wrap Registry".to_owned(),
            version: "0.1.0".to_owned(),
            repo: "https://github.com/zintarh/stellar-wrap-contract".to_owned(),
            description: "Soulbound token registry for Stellar Wrap".to_owned(),
        }
    }
}

} // verus!
