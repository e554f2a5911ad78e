//! Laws of the registry: what every invocation keeps, and what holds across
//! invocations.

use vstd::prelude::*;

use crate::crypto::ed25519_verifies;
use crate::state::{lemma_held_insert, lemma_held_remove, lemma_held_replace, zero_hash, RegistryState};
use crate::types::{Address, ContractError, DataKey, Failure, Symbol, WrapKey, WrapRecord};
use crate::xdr::signing_payload;

verus! {

/// A freshly deployed registry is consistent.
pub proof fn lemma_deployed_consistent(contract: Address)
    ensures
        RegistryState::deployed(contract).consistent(),
{
    let s = RegistryState::deployed(contract);
    assert(s.guards.dom() =~= Set::<Address>::empty());
    assert forall|u: Address| #[trigger] s.held(u).finite() by {
        assert(s.held(u) =~= Set::<u64>::empty());
    }
    assert forall|u: Address| #[trigger] s.count_of(u) == s.held(u).len() by {
        assert(s.held(u) =~= Set::<u64>::empty());
    }
}

/// `initialize` keeps the registry consistent.
pub proof fn lemma_initialize_keeps_consistent(s: RegistryState, admin: Address, admin_pubkey: [u8; 32])
    requires
        s.consistent(),
        s.initialize_result(admin, admin_pubkey) is Ok,
    ensures
        s.initialize_result(admin, admin_pubkey).unwrap().consistent(),
{
    let t = s.initialize_result(admin, admin_pubkey).unwrap();
    assert forall|u: Address| #[trigger] t.held(u).finite() by {
        assert(s.held(u).finite());
    }
    assert forall|u: Address| #[trigger] t.count_of(u) == t.held(u).len() by {
        assert(s.count_of(u) == s.held(u).len());
    }
    assert forall|k: WrapKey| #[trigger] t.wraps.contains_key(k) implies t.wraps[k].period == k.period
        && k.period <= t.latest_of(k.user) by {
        assert(s.wraps.contains_key(k));
    }
}

/// `update_admin` keeps the registry consistent.
pub proof fn lemma_update_admin_keeps_consistent(s: RegistryState, authorized: Seq<Address>, new_admin: Address)
    requires
        s.consistent(),
        s.update_admin_result(authorized, new_admin) is Ok,
    ensures
        s.update_admin_result(authorized, new_admin).unwrap().consistent(),
{
    let t = s.update_admin_result(authorized, new_admin).unwrap();
    assert forall|u: Address| #[trigger] t.held(u).finite() by {
        assert(s.held(u).finite());
    }
    assert forall|u: Address| #[trigger] t.count_of(u) == t.held(u).len() by {
        assert(s.count_of(u) == s.held(u).len());
    }
    assert forall|k: WrapKey| #[trigger] t.wraps.contains_key(k) implies t.wraps[k].period == k.period
        && k.period <= t.latest_of(k.user) by {
        assert(s.wraps.contains_key(k));
    }
}

/// `mint_wrap` keeps the registry consistent (where the holder's count can
/// still grow: beyond `u32::MAX` the contract's arithmetic overflows).
pub proof fn lemma_mint_keeps_consistent(
    s: RegistryState,
    authorized: Seq<Address>,
    now: u64,
    user: Address,
    period: u64,
    archetype: Symbol,
    data_hash: [u8; 32],
    signature: [u8; 64],
)
    requires
        s.consistent(),
        s.count_of(user) < u32::MAX,
        s.mint_result(authorized, now, user, period, archetype, data_hash, signature) is Ok,
    ensures
        s.mint_result(authorized, now, user, period, archetype, data_hash, signature).unwrap().consistent(),
{
    let t = s.mint_result(authorized, now, user, period, archetype, data_hash, signature).unwrap();
    let k = WrapKey { user, period };
    let r = t.wraps[k];
    assert(t.wraps == s.wraps.insert(k, r));
    assert forall|u: Address| #[trigger] t.held(u).finite() by {
        assert(s.held(u).finite());
        lemma_held_insert(s.wraps, k, r, u);
    }
    assert forall|u: Address| #[trigger] t.count_of(u) == t.held(u).len() by {
        assert(s.held(u).finite());
        lemma_held_insert(s.wraps, k, r, u);
        assert(s.count_of(u) == s.held(u).len());
    }
    assert forall|kk: WrapKey| #[trigger] t.wraps.contains_key(kk) implies t.wraps[kk].period == kk.period
        && kk.period <= t.latest_of(kk.user) by {
        if kk != k {
            assert(s.wraps.contains_key(kk));
        }
    }
}

/// `update_wrap` keeps the registry consistent.
pub proof fn lemma_update_keeps_consistent(
    s: RegistryState,
    authorized: Seq<Address>,
    user: Address,
    period: u64,
    new_data_hash: [u8; 32],
    new_archetype: Symbol,
    signature: [u8; 64],
)
    requires
        s.consistent(),
        s.update_result(authorized, user, period, new_data_hash, new_archetype, signature) is Ok,
    ensures
        s.update_result(authorized, user, period, new_data_hash, new_archetype, signature).unwrap().consistent(),
{
    let t = s.update_result(authorized, user, period, new_data_hash, new_archetype, signature).unwrap();
    let k = WrapKey { user, period };
    let r = t.wraps[k];
    assert(t.wraps == s.wraps.insert(k, r));
    assert forall|u: Address| #[trigger] t.held(u).finite() by {
        lemma_held_replace(s.wraps, k, r, u);
        assert(s.held(u).finite());
    }
    assert forall|u: Address| #[trigger] t.count_of(u) == t.held(u).len() by {
        lemma_held_replace(s.wraps, k, r, u);
        assert(s.count_of(u) == s.held(u).len());
    }
    assert forall|kk: WrapKey| #[trigger] t.wraps.contains_key(kk) implies t.wraps[kk].period == kk.period
        && kk.period <= t.latest_of(kk.user) by {
        assert(s.wraps.contains_key(kk));
    }
}

/// `revoke_wrap` keeps the registry consistent.
pub proof fn lemma_revoke_keeps_consistent(s: RegistryState, authorized: Seq<Address>, user: Address, period: u64)
    requires
        s.consistent(),
        s.revoke_result(authorized, user, period) is Ok,
    ensures
        s.revoke_result(authorized, user, period).unwrap().consistent(),
{
    let t = s.revoke_result(authorized, user, period).unwrap();
    let k = WrapKey { user, period };
    assert forall|u: Address| #[trigger] t.held(u).finite() by {
        assert(s.held(u).finite());
        lemma_held_remove(s.wraps, k, u);
    }
    assert forall|u: Address| #[trigger] t.count_of(u) == t.held(u).len() by {
        assert(s.held(u).finite());
        assert(s.held(user).finite());
        lemma_held_remove(s.wraps, k, u);
        assert(s.count_of(u) == s.held(u).len());
        assert(s.count_of(user) == s.held(user).len());
        lemma_held_remove(s.wraps, k, user);
    }
    assert forall|kk: WrapKey| #[trigger] t.wraps.contains_key(kk) implies t.wraps[kk].period == kk.period
        && kk.period <= t.latest_of(kk.user) by {
        assert(s.wraps.contains_key(kk));
    }
}


/// Each user's stored count is the number of wraps it holds, so
/// `balance_of` answers how many wraps a user holds.
pub proof fn lemma_balance_is_holdings(s: RegistryState, user: Address)
    requires
        s.consistent(),
    ensures
        s.count_of(user) == s.held(user).len(),
        s.held(user).finite(),
{
}

/// A mint succeeds only with the user's authorization and a valid admin
/// signature over exactly this contract, user, period, archetype and hash;
/// it stores that record, stamped with the ledger time, adds one to the
/// user's count and moves the user's latest period up to `period` where
/// that is later.
pub proof fn lemma_mint_effect(
    s: RegistryState,
    authorized: Seq<Address>,
    now: u64,
    user: Address,
    period: u64,
    archetype: Symbol,
    data_hash: [u8; 32],
    signature: [u8; 64],
)
    requires
        s.count_of(user) < u32::MAX,
        s.mint_result(authorized, now, user, period, archetype, data_hash, signature) is Ok,
    ensures
        ({
            let t = s.mint_result(authorized, now, user, period, archetype, data_hash, signature).unwrap();
            &&& authorized.contains(user)
            &&& s.admin_pubkey is Some
            &&& data_hash@ != zero_hash()
            &&& ed25519_verifies(
                s.admin_pubkey.unwrap()@,
                signing_payload(s.contract, user, period, archetype@, data_hash@),
                signature@,
            )
            &&& !s.wraps.contains_key(WrapKey { user, period })
            &&& t.wraps.get(WrapKey { user, period }) == Some(
                WrapRecord { timestamp: now, data_hash, archetype, period },
            )
            &&& t.count_of(user) == s.count_of(user) + 1
            &&& t.latest_of(user) == if period > s.latest_of(user) {
                period
            } else {
                s.latest_of(user)
            }
        }),
{
}

/// A mint at a period later than the user's latest makes the new wrap the
/// one that `get_latest_wrap` returns. (A first mint at period 0 does not
/// record a latest period, so no latest wrap is returned then.)
pub proof fn lemma_mint_then_latest(
    s: RegistryState,
    authorized: Seq<Address>,
    now: u64,
    user: Address,
    period: u64,
    archetype: Symbol,
    data_hash: [u8; 32],
    signature: [u8; 64],
)
    requires
        s.mint_result(authorized, now, user, period, archetype, data_hash, signature) is Ok,
        period > s.latest_of(user),
    ensures
        s.mint_result(authorized, now, user, period, archetype, data_hash, signature).unwrap().latest_wrap(
            user,
        ) == Some(WrapRecord { timestamp: now, data_hash, archetype, period }),
{
}

/// Replay protection: while the wrap of `user` for `period` exists, no mint
/// of it succeeds; one that passes the checks before the existence check is
/// refused with `WrapAlreadyExists`. In particular a successful mint can
/// never be repeated, with the same signature or another.
pub proof fn lemma_mint_once(
    s: RegistryState,
    authorized: Seq<Address>,
    now: u64,
    user: Address,
    period: u64,
    archetype: Symbol,
    data_hash: [u8; 32],
    signature: [u8; 64],
)
    requires
        s.wraps.contains_key(WrapKey { user, period }),
    ensures
        s.mint_result(authorized, now, user, period, archetype, data_hash, signature) is Err,
        ({
            &&& authorized.contains(user)
            &&& !s.guards.contains_key(user)
            &&& s.admin_pubkey is Some
            &&& data_hash@ != zero_hash()
            &&& ed25519_verifies(
                s.admin_pubkey.unwrap()@,
                signing_payload(s.contract, user, period, archetype@, data_hash@),
                signature@,
            )
        }) ==> s.mint_result(authorized, now, user, period, archetype, data_hash, signature)
            == Err::<RegistryState, Failure>(Failure::Contract(ContractError::WrapAlreadyExists)),
{
}

/// A successful mint leaves every other wrap, every other user's count and
/// latest period, the admin and the admin key as they were.
pub proof fn lemma_mint_frame(
    s: RegistryState,
    authorized: Seq<Address>,
    now: u64,
    user: Address,
    period: u64,
    archetype: Symbol,
    data_hash: [u8; 32],
    signature: [u8; 64],
)
    requires
        s.mint_result(authorized, now, user, period, archetype, data_hash, signature) is Ok,
    ensures
        ({
            let t = s.mint_result(authorized, now, user, period, archetype, data_hash, signature).unwrap();
            &&& forall|k: WrapKey| k != WrapKey { user, period } ==> #[trigger] t.wraps.get(k) == s.wraps.get(k)
            &&& forall|u: Address| u != user ==> #[trigger] t.count_of(u) == s.count_of(u)
            &&& forall|u: Address| u != user ==> #[trigger] t.latest_of(u) == s.latest_of(u)
            &&& t.admin == s.admin
            &&& t.admin_pubkey == s.admin_pubkey
            &&& t.contract == s.contract
        }),
{
}

/// Only the admin updates a wrap, with a valid signature by the admin key
/// over the new approval; the update keeps the wrap's timestamp and period,
/// replaces its hash and archetype, and touches nothing else.
pub proof fn lemma_update_effect(
    s: RegistryState,
    authorized: Seq<Address>,
    user: Address,
    period: u64,
    new_data_hash: [u8; 32],
    new_archetype: Symbol,
    signature: [u8; 64],
)
    requires
        s.update_result(authorized, user, period, new_data_hash, new_archetype, signature) is Ok,
    ensures
        ({
            let t = s.update_result(authorized, user, period, new_data_hash, new_archetype, signature).unwrap();
            let k = WrapKey { user, period };
            &&& s.admin is Some
            &&& authorized.contains(s.admin.unwrap())
            &&& ed25519_verifies(
                s.admin_pubkey.unwrap()@,
                signing_payload(s.contract, user, period, new_archetype@, new_data_hash@),
                signature@,
            )
            &&& s.wraps.contains_key(k)
            &&& t.wraps.get(k) == Some(
                WrapRecord {
                    timestamp: s.wraps[k].timestamp,
                    data_hash: new_data_hash,
                    archetype: new_archetype,
                    period,
                },
            )
            &&& forall|k2: WrapKey| k2 != k ==> #[trigger] t.wraps.get(k2) == s.wraps.get(k2)
            &&& t.counts == s.counts
            &&& t.latest == s.latest
            &&& t.admin == s.admin
        }),
{
}

/// Only the admin revokes a wrap; afterwards the wrap is gone, its holder's
/// count is one less, and nothing else changed (the latest period stays).
pub proof fn lemma_revoke_effect(s: RegistryState, authorized: Seq<Address>, user: Address, period: u64)
    requires
        s.consistent(),
        s.revoke_result(authorized, user, period) is Ok,
    ensures
        ({
            let t = s.revoke_result(authorized, user, period).unwrap();
            let k = WrapKey { user, period };
            &&& s.admin is Some
            &&& authorized.contains(s.admin.unwrap())
            &&& s.wraps.contains_key(k)
            &&& t.wraps.get(k) is None
            &&& t.count_of(user) == s.count_of(user) - 1
            &&& forall|k2: WrapKey| k2 != k ==> #[trigger] t.wraps.get(k2) == s.wraps.get(k2)
            &&& forall|u: Address| u != user ==> #[trigger] t.count_of(u) == s.count_of(u)
            &&& t.latest == s.latest
            &&& t.admin == s.admin
        }),
{
    let k = WrapKey { user, period };
    lemma_balance_is_holdings(s, user);
    assert(s.held(user).contains(period));
}

/// `get_latest_wrap` returns, where it returns a wrap, one the user holds
/// and whose period is the greatest among the user's wraps.
pub proof fn lemma_latest_wrap_is_greatest(s: RegistryState, user: Address)
    requires
        s.consistent(),
    ensures
        s.latest_wrap(user) matches Some(r) ==> {
            &&& r.period == s.latest_of(user)
            &&& s.wraps.get(WrapKey { user, period: r.period }) == Some(r)
            &&& forall|p: u64| #[trigger] s.held(user).contains(p) ==> p <= r.period
        },
{
    if s.latest_wrap(user) is Some {
        let k = WrapKey { user, period: s.latest[user] };
        assert(s.wraps.contains_key(k));
        assert forall|p: u64| #[trigger] s.held(user).contains(p) implies p
            <= s.latest_of(user) by {
            assert(s.wraps.contains_key(WrapKey { user, period: p }));
        }
    }
}

/// No mint guard survives an invocation, so in every reachable state a mint
/// is never refused as `Unauthorized`.
pub proof fn lemma_mint_never_guarded(
    s: RegistryState,
    authorized: Seq<Address>,
    now: u64,
    user: Address,
    period: u64,
    archetype: Symbol,
    data_hash: [u8; 32],
    signature: [u8; 64],
)
    requires
        s.consistent(),
    ensures
        s.mint_result(authorized, now, user, period, archetype, data_hash, signature) != Err::<
            RegistryState,
            Failure,
        >(Failure::Contract(ContractError::Unauthorized)),
{
    assert(!s.guards.dom().contains(user));
}

/// Only the current admin hands over the admin role; afterwards the new
/// admin is the admin, and the key and all wraps are as they were.
pub proof fn lemma_update_admin_effect(s: RegistryState, authorized: Seq<Address>, new_admin: Address)
    requires
        s.update_admin_result(authorized, new_admin) is Ok,
    ensures
        ({
            let t = s.update_admin_result(authorized, new_admin).unwrap();
            &&& s.admin is Some
            &&& authorized.contains(s.admin.unwrap())
            &&& t.admin == Some(new_admin)
            &&& t.admin_pubkey == s.admin_pubkey
            &&& t.wraps == s.wraps
            &&& t.counts == s.counts
            &&& t.latest == s.latest
        }),
{
}

/// The registry is initialized once: a successful `initialize` sets the
/// admin and key, and every later `initialize` fails with
/// `AlreadyInitialized`.
pub proof fn lemma_initialize_once(
    s: RegistryState,
    admin: Address,
    admin_pubkey: [u8; 32],
    admin2: Address,
    admin_pubkey2: [u8; 32],
)
    requires
        s.initialize_result(admin, admin_pubkey) is Ok,
    ensures
        ({
            let t = s.initialize_result(admin, admin_pubkey).unwrap();
            &&& t.admin == Some(admin)
            &&& t.admin_pubkey == Some(admin_pubkey)
            &&& t.initialize_result(admin2, admin_pubkey2) == Err::<RegistryState, Failure>(
                Failure::Contract(ContractError::AlreadyInitialized),
            )
        }),
{
}


/// An invocation that can change the registry's storage, with its inputs.
pub enum Invoked {
    Initialize { admin: Address, admin_pubkey: [u8; 32] },
    UpdateAdmin { authorized: Seq<Address>, new_admin: Address },
    Mint {
        authorized: Seq<Address>,
        now: u64,
        user: Address,
        period: u64,
        archetype: Symbol,
        data_hash: [u8; 32],
        signature: [u8; 64],
    },
    Update {
        authorized: Seq<Address>,
        user: Address,
        period: u64,
        new_data_hash: [u8; 32],
        new_archetype: Symbol,
        signature: [u8; 64],
    },
    Revoke { authorized: Seq<Address>, user: Address, period: u64 },
}

/// The state after the invocation: its new state where it succeeds, the
/// old one where it is refused (a refused invocation, like one that
/// overflows the holder's count, is rolled back).
pub open spec fn apply(s: RegistryState, op: Invoked) -> RegistryState {
    let r = match op {
        Invoked::Initialize { admin, admin_pubkey } => s.initialize_result(admin, admin_pubkey),
        Invoked::UpdateAdmin { authorized, new_admin } => s.update_admin_result(authorized, new_admin),
        Invoked::Mint { authorized, now, user, period, archetype, data_hash, signature } =>
            s.mint_result(authorized, now, user, period, archetype, data_hash, signature),
        Invoked::Update { authorized, user, period, new_data_hash, new_archetype, signature } =>
            s.update_result(authorized, user, period, new_data_hash, new_archetype, signature),
        Invoked::Revoke { authorized, user, period } => s.revoke_result(authorized, user, period),
    };
    let overflows = match op {
        Invoked::Mint { user, .. } => s.count_of(user) >= u32::MAX,
        _ => false,
    };
    match r {
        Ok(t) => if overflows {
            s
        } else {
            t
        },
        Err(_) => s,
    }
}

/// The state that the invocations `ops`, one after another, reach from the
/// registry freshly deployed at `contract`.
pub open spec fn reached(contract: Address, ops: Seq<Invoked>) -> RegistryState
    decreases ops.len(),
{
    if ops.len() == 0 {
        RegistryState::deployed(contract)
    } else {
        apply(reached(contract, ops.drop_last()), ops.last())
    }
}

/// Every invocation keeps the registry consistent.
pub proof fn lemma_apply_keeps_consistent(s: RegistryState, op: Invoked)
    requires
        s.consistent(),
    ensures
        apply(s, op).consistent(),
{
    match op {
        Invoked::Initialize { admin, admin_pubkey } => {
            if s.initialize_result(admin, admin_pubkey) is Ok {
                lemma_initialize_keeps_consistent(s, admin, admin_pubkey);
            }
        },
        Invoked::UpdateAdmin { authorized, new_admin } => {
            if s.update_admin_result(authorized, new_admin) is Ok {
                lemma_update_admin_keeps_consistent(s, authorized, new_admin);
            }
        },
        Invoked::Mint { authorized, now, user, period, archetype, data_hash, signature } => {
            if s.count_of(user) < u32::MAX && s.mint_result(
                authorized,
                now,
                user,
                period,
                archetype,
                data_hash,
                signature,
            ) is Ok {
                lemma_mint_keeps_consistent(
                    s,
                    authorized,
                    now,
                    user,
                    period,
                    archetype,
                    data_hash,
                    signature,
                );
            }
        },
        Invoked::Update { authorized, user, period, new_data_hash, new_archetype, signature } => {
            if s.update_result(authorized, user, period, new_data_hash, new_archetype, signature) is Ok {
                lemma_update_keeps_consistent(
                    s,
                    authorized,
                    user,
                    period,
                    new_data_hash,
                    new_archetype,
                    signature,
                );
            }
        },
        Invoked::Revoke { authorized, user, period } => {
            if s.revoke_result(authorized, user, period) is Ok {
                lemma_revoke_keeps_consistent(s, authorized, user, period);
            }
        },
    }
}

/// Every state reached from deployment by any invocations is consistent.
pub proof fn lemma_reached_consistent(contract: Address, ops: Seq<Invoked>)
    ensures
        reached(contract, ops).consistent(),
    decreases ops.len(),
{
    if ops.len() == 0 {
        lemma_deployed_consistent(contract);
    } else {
        lemma_reached_consistent(contract, ops.drop_last());
        lemma_apply_keeps_consistent(reached(contract, ops.drop_last()), ops.last());
    }
}

/// After any invocations from deployment, `balance_of(user)` is the number
/// of periods `p` at which `get_wrap(user, p)` returns a wrap: a mint adds
/// one wrap and one to the count, a revoke removes one of each, nothing else
/// changes either.
pub proof fn lemma_balance_after_any_invocations(contract: Address, ops: Seq<Invoked>, user: Address)
    ensures
        reached(contract, ops).held(user).finite(),
        reached(contract, ops).count_of(user) == reached(contract, ops).held(user).len(),
{
    lemma_reached_consistent(contract, ops);
}

/// Whether the op is a revocation of a wrap of `user`.
pub open spec fn revokes_wrap_of(op: Invoked, user: Address) -> bool {
    op matches Invoked::Revoke { user: u, .. } && u == user
}

/// The user's latest period, where one is stored, names a wrap it holds.
pub open spec fn latest_is_held(s: RegistryState, user: Address) -> bool {
    s.latest.contains_key(user) ==> s.wraps.contains_key(WrapKey { user, period: s.latest[user] })
}

proof fn lemma_apply_keeps_latest_held(s: RegistryState, op: Invoked, user: Address)
    requires
        latest_is_held(s, user),
        !revokes_wrap_of(op, user),
    ensures
        latest_is_held(apply(s, op), user),
{
    match op {
        Invoked::Revoke { authorized, user: u, period } => {
            if s.revoke_result(authorized, u, period) is Ok && s.latest.contains_key(user) {
                assert(WrapKey { user: u, period } != WrapKey { user, period: s.latest[user] });
            }
        },
        _ => {},
    }
}

proof fn lemma_reached_latest_held(contract: Address, ops: Seq<Invoked>, user: Address)
    requires
        forall|i: int| 0 <= i < ops.len() ==> !revokes_wrap_of(#[trigger] ops[i], user),
    ensures
        latest_is_held(reached(contract, ops), user),
    decreases ops.len(),
{
    if ops.len() > 0 {
        assert forall|i: int| 0 <= i < ops.drop_last().len() implies !revokes_wrap_of(
            #[trigger] ops.drop_last()[i],
            user,
        ) by {
            assert(ops.drop_last()[i] == ops[i]);
        }
        lemma_reached_latest_held(contract, ops.drop_last(), user);
        assert(!revokes_wrap_of(ops[ops.len() - 1], user));
        lemma_apply_keeps_latest_held(reached(contract, ops.drop_last()), ops.last(), user);
    }
}

/// After any invocations from deployment that revoke none of `user`'s
/// wraps, where the user holds a wrap at some period above 0,
/// `get_latest_wrap(user)` returns the wrap at the greatest period it holds
/// (the greatest period minted, not the most recent mint).
pub proof fn lemma_latest_after_mints_without_revoke(
    contract: Address,
    ops: Seq<Invoked>,
    user: Address,
    p: u64,
)
    requires
        forall|i: int| 0 <= i < ops.len() ==> !revokes_wrap_of(#[trigger] ops[i], user),
        reached(contract, ops).held(user).contains(p),
        p > 0,
    ensures
        ({
            let s = reached(contract, ops);
            &&& s.latest_wrap(user) is Some
            &&& s.latest_wrap(user) == s.wraps.get(WrapKey { user, period: s.latest_of(user) })
            &&& s.held(user).contains(s.latest_of(user))
            &&& forall|q: u64| #[trigger] s.held(user).contains(q) ==> q <= s.latest_of(user)
        }),
{
    let s = reached(contract, ops);
    lemma_reached_consistent(contract, ops);
    lemma_reached_latest_held(contract, ops, user);
    assert(s.wraps.contains_key(WrapKey { user, period: p }));
    assert(s.latest.contains_key(user));
    assert forall|q: u64| #[trigger] s.held(user).contains(q) implies q <= s.latest_of(user) by {
        assert(s.wraps.contains_key(WrapKey { user, period: q }));
    }
}


/// Whether some byte of the hash is not zero.
pub open spec fn has_nonzero_byte(h: [u8; 32]) -> bool {
    exists|i: int| 0 <= i < 32 && h@[i] != 0u8
}

/// When a mint succeeds: whenever the user authorized, no mint guard is
/// held for it, the admin key is set, some byte of the data hash is not
/// zero, the admin's signature over the signing payload verifies and no wrap
/// exists at `(user, period)`, the mint succeeds, storing exactly the given
/// record and adding one to the user's count; any other 32-byte hash than
/// all zeros is accepted.
pub proof fn lemma_mint_succeeds(
    s: RegistryState,
    authorized: Seq<Address>,
    now: u64,
    user: Address,
    period: u64,
    archetype: Symbol,
    data_hash: [u8; 32],
    signature: [u8; 64],
)
    requires
        authorized.contains(user),
        !s.guards.contains_key(user),
        s.admin_pubkey is Some,
        has_nonzero_byte(data_hash),
        ed25519_verifies(
            s.admin_pubkey.unwrap()@,
            signing_payload(s.contract, user, period, archetype@, data_hash@),
            signature@,
        ),
        !s.wraps.contains_key(WrapKey { user, period }),
        s.count_of(user) < u32::MAX,
    ensures
        s.mint_result(authorized, now, user, period, archetype, data_hash, signature) is Ok,
        ({
            let t = s.mint_result(authorized, now, user, period, archetype, data_hash, signature).unwrap();
            &&& t.wraps.get(WrapKey { user, period }) == Some(
                WrapRecord { timestamp: now, data_hash, archetype, period },
            )
            &&& t.count_of(user) == s.count_of(user) + 1
            &&& t.admin == s.admin
        }),
{
    let i = choose|i: int| 0 <= i < 32 && data_hash@[i] != 0u8;
    assert(data_hash@[i] != zero_hash()[i]);
}

/// A mint with the all-zero data hash never succeeds, whoever asks.
pub proof fn lemma_mint_rejects_zero_hash(
    s: RegistryState,
    authorized: Seq<Address>,
    now: u64,
    user: Address,
    period: u64,
    archetype: Symbol,
    data_hash: [u8; 32],
    signature: [u8; 64],
)
    requires
        !has_nonzero_byte(data_hash),
    ensures
        s.mint_result(authorized, now, user, period, archetype, data_hash, signature) is Err,
{
    assert(data_hash@ =~= zero_hash());
}

/// When an update succeeds: whenever an admin is set and authorized, the
/// admin key is set, some byte of the new hash is not zero, the signature
/// over the new payload verifies and a wrap exists at `(user, period)` (at
/// any period the user holds, latest or not), the update succeeds: the wrap
/// keeps its timestamp and period and takes the new hash and archetype.
pub proof fn lemma_update_succeeds(
    s: RegistryState,
    authorized: Seq<Address>,
    user: Address,
    period: u64,
    new_data_hash: [u8; 32],
    new_archetype: Symbol,
    signature: [u8; 64],
)
    requires
        s.admin is Some,
        authorized.contains(s.admin.unwrap()),
        s.admin_pubkey is Some,
        has_nonzero_byte(new_data_hash),
        ed25519_verifies(
            s.admin_pubkey.unwrap()@,
            signing_payload(s.contract, user, period, new_archetype@, new_data_hash@),
            signature@,
        ),
        s.wraps.contains_key(WrapKey { user, period }),
    ensures
        s.update_result(authorized, user, period, new_data_hash, new_archetype, signature) is Ok,
        ({
            let t = s.update_result(authorized, user, period, new_data_hash, new_archetype, signature).unwrap();
            let k = WrapKey { user, period };
            &&& t.wraps.get(k) == Some(
                WrapRecord {
                    timestamp: s.wraps[k].timestamp,
                    data_hash: new_data_hash,
                    archetype: new_archetype,
                    period,
                },
            )
            &&& t.counts == s.counts
            &&& t.latest == s.latest
        }),
{
    let i = choose|i: int| 0 <= i < 32 && new_data_hash@[i] != 0u8;
    assert(new_data_hash@[i] != zero_hash()[i]);
}

/// When a revocation succeeds: whenever an admin is set and authorized and
/// a wrap exists at `(user, period)` (its only wrap or not), the revocation
/// succeeds, the wrap is gone and, in a consistent registry, the user's
/// count is one less.
pub proof fn lemma_revoke_succeeds(s: RegistryState, authorized: Seq<Address>, user: Address, period: u64)
    requires
        s.admin is Some,
        authorized.contains(s.admin.unwrap()),
        s.wraps.contains_key(WrapKey { user, period }),
    ensures
        s.revoke_result(authorized, user, period) is Ok,
        s.revoke_result(authorized, user, period).unwrap().wraps.get(WrapKey { user, period }) is None,
        s.consistent() ==> s.revoke_result(authorized, user, period).unwrap().count_of(user) == s.count_of(
            user,
        ) - 1,
{
    if s.consistent() {
        assert(s.held(user).contains(period));
    }
}

/// When an admin hand-over succeeds: whenever an admin is set and it
/// authorized, `update_admin` succeeds and the admin becomes `new_admin`,
/// whatever address (account or contract) that is.
pub proof fn lemma_update_admin_succeeds(s: RegistryState, authorized: Seq<Address>, new_admin: Address)
    requires
        s.admin is Some,
        authorized.contains(s.admin.unwrap()),
    ensures
        s.update_admin_result(authorized, new_admin) is Ok,
        s.update_admin_result(authorized, new_admin).unwrap().admin == Some(new_admin),
        s.update_admin_result(authorized, new_admin).unwrap().wraps == s.wraps,
{
}

/// The entries that `extend_ttl(user, period)` extends are exactly those of
/// the wrap at `(user, period)`, the count of `user` and the latest period
/// of `user` that are stored, each once, with no other condition.
pub proof fn lemma_extend_ttl_keys(s: RegistryState, user: Address, period: u64)
    ensures
        s.ttl_keys(user, period).contains(DataKey::Wrap(user, period)) <==> s.wraps.contains_key(
            WrapKey { user, period },
        ),
        s.ttl_keys(user, period).contains(DataKey::WrapCount(user)) <==> s.counts.contains_key(user),
        s.ttl_keys(user, period).contains(DataKey::LatestPeriod(user)) <==> s.latest.contains_key(user),
        s.ttl_keys(user, period).len() == (if s.wraps.contains_key(WrapKey { user, period }) {
            1int
        } else {
            0int
        }) + (if s.counts.contains_key(user) {
            1int
        } else {
            0int
        }) + (if s.latest.contains_key(user) {
            1int
        } else {
            0int
        }),
{
    let w = DataKey::Wrap(user, period);
    let c = DataKey::WrapCount(user);
    let l = DataKey::LatestPeriod(user);
    let ks = s.ttl_keys(user, period);
    if s.wraps.contains_key(WrapKey { user, period }) {
        assert(ks[0] == w);
    }
    if ks.contains(w) {
        let i = choose|i: int| 0 <= i < ks.len() && ks[i] == w;
        assert(ks[i] == w);
    }
    if s.counts.contains_key(user) {
        let i: int = if s.wraps.contains_key(WrapKey { user, period }) { 1 } else { 0 };
        assert(ks[i] == c);
    }
    if ks.contains(c) {
        let i = choose|i: int| 0 <= i < ks.len() && ks[i] == c;
        assert(ks[i] == c);
    }
    if s.latest.contains_key(user) {
        assert(ks[ks.len() - 1] == l);
    }
    if ks.contains(l) {
        let i = choose|i: int| 0 <= i < ks.len() && ks[i] == l;
        assert(ks[i] == l);
    }
}


/// `initialize` succeeds exactly when no admin is set yet, and then sets the
/// given admin and key and nothing else.
pub proof fn lemma_initialize_succeeds(s: RegistryState, admin: Address, admin_pubkey: [u8; 32])
    ensures
        s.initialize_result(admin, admin_pubkey) is Ok <==> s.admin is None,
        s.admin is None ==> {
            let t = s.initialize_result(admin, admin_pubkey).unwrap();
            &&& t.admin == Some(admin)
            &&& t.admin_pubkey == Some(admin_pubkey)
            &&& t.wraps == s.wraps
            &&& t.counts == s.counts
            &&& t.latest == s.latest
        },
{
}

/// `upgrade` succeeds exactly when an admin is set and authorized.
pub proof fn lemma_upgrade_succeeds(s: RegistryState, authorized: Seq<Address>)
    ensures
        s.upgrade_result(authorized) is Ok <==> (s.admin is Some && authorized.contains(
            s.admin.unwrap(),
        )),
{
}

/// Without the needed authorization nothing changes hands: a mint needs the
/// user's, an admin hand-over, an update and a revocation the admin's (and
/// with no admin set they fail as not initialized).
pub proof fn lemma_refused_without_authorization(
    s: RegistryState,
    authorized: Seq<Address>,
    now: u64,
    user: Address,
    period: u64,
    archetype: Symbol,
    data_hash: [u8; 32],
    signature: [u8; 64],
    new_admin: Address,
)
    ensures
        !authorized.contains(user) ==> s.mint_result(authorized, now, user, period, archetype, data_hash, signature)
            == Err::<RegistryState, Failure>(Failure::NotAuthorized),
        s.admin is Some && !authorized.contains(s.admin.unwrap()) ==> s.update_admin_result(authorized, new_admin)
            == Err::<RegistryState, Failure>(Failure::NotAuthorized),
        s.admin is Some && !authorized.contains(s.admin.unwrap()) ==> s.update_result(authorized, user, period, data_hash, archetype, signature)
            == Err::<RegistryState, Failure>(Failure::NotAuthorized),
        s.admin is Some && !authorized.contains(s.admin.unwrap()) ==> s.revoke_result(authorized, user, period)
            == Err::<RegistryState, Failure>(Failure::NotAuthorized),
        s.admin is None ==> s.update_admin_result(authorized, new_admin)
            == Err::<RegistryState, Failure>(Failure::Contract(ContractError::NotInitialized)),
        s.admin is None ==> s.update_result(authorized, user, period, data_hash, archetype, signature)
            == Err::<RegistryState, Failure>(Failure::Contract(ContractError::NotInitialized)),
        s.admin is None ==> s.revoke_result(authorized, user, period)
            == Err::<RegistryState, Failure>(Failure::Contract(ContractError::NotInitialized)),
{
}

/// A mint or an update whose signature does not verify under the admin key
/// over exactly its payload never succeeds, nor one with an all-zero hash;
/// a revocation of a wrap that does not exist never succeeds.
pub proof fn lemma_refused_without_signature_or_wrap(
    s: RegistryState,
    authorized: Seq<Address>,
    now: u64,
    user: Address,
    period: u64,
    archetype: Symbol,
    data_hash: [u8; 32],
    signature: [u8; 64],
)
    ensures
        s.admin_pubkey is Some && !ed25519_verifies(s.admin_pubkey.unwrap()@, signing_payload(s.contract, user, period, archetype@, data_hash@), signature@)
            ==> s.mint_result(authorized, now, user, period, archetype, data_hash, signature) is Err,
        s.admin_pubkey is Some && !ed25519_verifies(s.admin_pubkey.unwrap()@, signing_payload(s.contract, user, period, archetype@, data_hash@), signature@)
            ==> s.update_result(authorized, user, period, data_hash, archetype, signature) is Err,
        !has_nonzero_byte(data_hash) ==> s.update_result(authorized, user, period, data_hash, archetype, signature) is Err,
        !s.wraps.contains_key(WrapKey { user, period }) ==> s.revoke_result(authorized, user, period) is Err,
{
    if !has_nonzero_byte(data_hash) {
        assert(data_hash@ =~= zero_hash());
    }
}

} // verus!
