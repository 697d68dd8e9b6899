//! The state-machine coordinator: the store and the two UTXO caches moved
//! in lockstep, so that cache membership always mirrors the vault
//! statuses.

use vstd::prelude::*;

use crate::cache::UtxoCache;
use crate::status::VaultStatus;
use crate::store::{
    can_record_spender, new_unconfirmed_vault, spending_vault, with_status, with_status_no_spender,
    Store,
};
use crate::vault::{PresignedSet, Vault};
use crate::types::{TxRef, UtxoInfo, DUST_LIMIT};

verus! {

/// The outpoint of an unvault transaction's vault output: always its first
/// output.
pub open spec fn spec_unvault_outpoint(utxid: u64) -> TxRef {
    TxRef { txid: utxid, vout: 0 }
}

/// Executable twin of [`spec_unvault_outpoint`].
#[verifier::when_used_as_spec(spec_unvault_outpoint)]
pub fn unvault_outpoint(utxid: u64) -> (r: TxRef)
    ensures
        r == spec_unvault_outpoint(utxid),
{
    TxRef { txid: utxid, vout: 0 }
}

/// Forward chain motion only: vaults are only added, no key moves, and no
/// vault's status moves down the lattice.
pub open spec fn forward_vaults(pre: Seq<Vault>, post: Seq<Vault>) -> bool {
    &&& post.len() >= pre.len()
    &&& forall|i: int|
        0 <= i < pre.len() ==> (#[trigger] post[i]).deposit_outpoint == pre[i].deposit_outpoint
            && post[i].status.rank() >= pre[i].status.rank()
}

/// The poller's whole chain-tracking state.
#[derive(Debug)]
pub struct ChainState {
    pub store: Store,
    /// Deposit outputs expected unspent.
    pub deposits: UtxoCache,
    /// Unvault outputs expected unspent.
    pub unvaults: UtxoCache,
}

impl ChainState {
    pub open spec fn wf(self) -> bool {
        &&& self.store.wf()
        &&& self.deposits.wf()
        &&& self.unvaults.wf()
    }

    /// The caches agree with one vault's status: a deposit-cache entry iff
    /// the deposit output is still unspent (statuses `Unconfirmed` through
    /// `Active`), confirmed iff past `Unconfirmed`; an unvault-cache entry
    /// iff the unvault output is on-chain and unspent (`Unvaulting`,
    /// `Unvaulted`), confirmed iff `Unvaulted`.
    pub open spec fn vault_cache_ok(self, v: Vault) -> bool {
        &&& (self.deposits.has(v.deposit_outpoint) <==> v.status.spec_in_deposit_set())
        &&& (self.deposits.has(v.deposit_outpoint) ==> (self.deposits.confirmed(v.deposit_outpoint)
            <==> v.status != VaultStatus::Unconfirmed))
        &&& match v.unvault_txid() {
            Some(u) => {
                &&& (self.unvaults.has(spec_unvault_outpoint(u))
                    <==> v.status.spec_in_unvault_set())
                &&& (self.unvaults.has(spec_unvault_outpoint(u)) ==> (self.unvaults.confirmed(
                    spec_unvault_outpoint(u),
                ) <==> v.status == VaultStatus::Unvaulted))
            },
            None => true,
        }
    }

    /// Every deposit-cache entry belongs to some vault.
    pub open spec fn deposits_covered(self) -> bool {
        forall|q: TxRef|
            #[trigger] self.deposits.has(q) ==> exists|i: int|
                0 <= i < self.store.vaults@.len() && (#[trigger] self.store.vaults@[i]).deposit_outpoint
                    == q
    }

    /// Every unvault-cache entry belongs to some vault's unvault output.
    pub open spec fn unvaults_covered(self) -> bool {
        forall|q: TxRef|
            #[trigger] self.unvaults.has(q) ==> q.vout == 0 && exists|i: int|
                0 <= i < self.store.vaults@.len() && (#[trigger] self.store.vaults@[i]).unvault_txid()
                    == Some(q.txid)
    }

    /// Cache/store coherence, for every vault and every cache entry.
    pub open spec fn coherent(self) -> bool {
        &&& forall|i: int|
            0 <= i < self.store.vaults@.len() ==> self.vault_cache_ok(
                #[trigger] self.store.vaults@[i],
            )
        &&& self.deposits_covered()
        &&& self.unvaults_covered()
    }

    /// An empty record with a starting tip: the state of a fresh daemon.
    pub fn new(tip: crate::types::BlockchainTip) -> (r: ChainState)
        ensures
            r.wf(),
            r.coherent(),
            r.store.tip == tip,
            r.store.deposit_index == 0,
            r.store.vaults@.len() == 0,
            r.store.spends@.len() == 0,
    {
        ChainState {
            store: Store { tip, deposit_index: 0, vaults: Vec::new(), spends: Vec::new() },
            deposits: UtxoCache::new(),
            unvaults: UtxoCache::new(),
        }
    }

    /// Hydrate the two UTXO caches from a freshly loaded store, as the
    /// poller does at startup: a deposit entry for every vault whose
    /// deposit output is unspent, an unvault entry for every vault whose
    /// unvault output is on-chain and unspent, flags from the statuses.
    /// This establishes cache/store coherence, which every later
    /// operation preserves.
    pub fn from_store(store: Store) -> (r: ChainState)
        requires
            store.wf(),
        ensures
            r.wf(),
            r.coherent(),
            r.store == store,
    {
        let mut deposits = UtxoCache::new();
        let mut unvaults = UtxoCache::new();
        let mut i: usize = 0;
        while i < store.vaults.len()
            invariant
                store.wf(),
                deposits.wf(),
                unvaults.wf(),
                i <= store.vaults@.len(),
                forall|j: int|
                    0 <= j < i ==> {
                        let v = #[trigger] store.vaults@[j];
                        &&& (deposits.has(v.deposit_outpoint) <==> v.status.spec_in_deposit_set())
                        &&& (deposits.has(v.deposit_outpoint) ==> (deposits.confirmed(
                            v.deposit_outpoint,
                        ) <==> v.status != VaultStatus::Unconfirmed))
                        &&& match v.unvault_txid() {
                            Some(u) => {
                                &&& (unvaults.has(spec_unvault_outpoint(u))
                                    <==> v.status.spec_in_unvault_set())
                                &&& (unvaults.has(spec_unvault_outpoint(u)) ==> (
                                unvaults.confirmed(spec_unvault_outpoint(u)) <==> v.status
                                    == VaultStatus::Unvaulted))
                            },
                            None => true,
                        }
                    },
                forall|q: TxRef|
                    #[trigger] deposits.has(q) ==> exists|j: int|
                        0 <= j < i && (#[trigger] store.vaults@[j]).deposit_outpoint == q,
                forall|q: TxRef|
                    #[trigger] unvaults.has(q) ==> q.vout == 0 && exists|j: int|
                        0 <= j < i && (#[trigger] store.vaults@[j]).unvault_txid() == Some(q.txid),
            decreases store.vaults@.len() - i,
        {
            let st = store.vaults[i].status;
            let dep_op = store.vaults[i].deposit_outpoint;
            let amount = store.vaults[i].amount;
            if st.in_deposit_set() {
                deposits.upsert(
                    dep_op,
                    UtxoInfo {
                        value: amount,
                        script: 0,
                        is_confirmed: !matches!(st, VaultStatus::Unconfirmed),
                    },
                );
            }
            let utxid: Option<u64> = match &store.vaults[i].presigned {
                Some(p) => Some(p.unvault.txid),
                None => None,
            };
            if let Some(u) = utxid {
                if st.in_unvault_set() {
                    unvaults.upsert(
                        unvault_outpoint(u),
                        UtxoInfo {
                            value: amount,
                            script: 0,
                            is_confirmed: matches!(st, VaultStatus::Unvaulted),
                        },
                    );
                }
            }
            proof {
                assert forall|q: TxRef| #[trigger] deposits.has(q) implies exists|j: int|
                    0 <= j < i + 1 && (#[trigger] store.vaults@[j]).deposit_outpoint == q by {
                    if q == dep_op {
                        assert(store.vaults@[i as int].deposit_outpoint == q);
                    }
                }
                assert forall|q: TxRef| #[trigger] unvaults.has(q) implies q.vout == 0
                    && exists|j: int|
                    0 <= j < i + 1 && (#[trigger] store.vaults@[j]).unvault_txid() == Some(
                        q.txid,
                    ) by {
                    if utxid is Some && q == spec_unvault_outpoint(utxid->Some_0) {
                        assert(store.vaults@[i as int].unvault_txid() == Some(q.txid));
                    }
                }
                assert forall|j: int| 0 <= j < i + 1 implies {
                    let v = #[trigger] store.vaults@[j];
                    &&& (deposits.has(v.deposit_outpoint) <==> v.status.spec_in_deposit_set())
                    &&& (deposits.has(v.deposit_outpoint) ==> (deposits.confirmed(
                        v.deposit_outpoint,
                    ) <==> v.status != VaultStatus::Unconfirmed))
                    &&& match v.unvault_txid() {
                        Some(u) => {
                            &&& (unvaults.has(spec_unvault_outpoint(u))
                                <==> v.status.spec_in_unvault_set())
                            &&& (unvaults.has(spec_unvault_outpoint(u)) ==> (unvaults.confirmed(
                                spec_unvault_outpoint(u),
                            ) <==> v.status == VaultStatus::Unvaulted))
                        },
                        None => true,
                    }
                } by {
                    let v = store.vaults@[j];
                    if j < i {
                        assert(v.deposit_outpoint != dep_op);
                        if v.unvault_txid() is Some && utxid is Some {
                            assert(v.unvault_txid() != Some(utxid->Some_0));
                        }
                    }
                }
            }
            i = i + 1;
        }
        ChainState { store, deposits, unvaults }
    }

    /// A fresh deposit output was observed (`sync_deposits`,
    /// `new_unconfirmed`): create the vault row and cache the output,
    /// unless the output is dust or the outpoint is already known.
    ///
    /// The dust policy: an output worth `DUST_LIMIT` or less never creates
    /// a vault row.
    pub fn apply_new_deposit(
        &mut self,
        op: TxRef,
        utxo: UtxoInfo,
        derivation_index: u32,
        received_at: u64,
        now: u64,
    ) -> (r: bool)
        requires
            old(self).wf(),
            old(self).coherent(),
        ensures
            final(self).wf(),
            final(self).coherent(),
            forward_vaults(old(self).store.vaults@, final(self).store.vaults@),
            r == (utxo.value > DUST_LIMIT && !old(self).store.has_vault(op)),
            r ==> final(self).store.vaults@ == old(self).store.vaults@.push(
                new_unconfirmed_vault(op, utxo.value, derivation_index, received_at, now),
            ),
            r ==> final(self).deposits.has(op) && !final(self).deposits.confirmed(op),
            !r ==> final(self).store.vaults@ == old(self).store.vaults@ && final(self).deposits
                == old(self).deposits,
            final(self).store.tip == old(self).store.tip,
            final(self).store.deposit_index == old(self).store.deposit_index,
            final(self).store.spends@ == old(self).store.spends@,
            final(self).unvaults == old(self).unvaults,
    {
        if utxo.value <= DUST_LIMIT {
            return false;
        }
        if !self.store.insert_unconfirmed_vault(op, utxo.value, derivation_index, received_at, now)
        {
            return false;
        }
        let info = UtxoInfo { value: utxo.value, script: utxo.script, is_confirmed: false };
        self.deposits.upsert(op, info);
        proof {
            let n = old(self).store.vaults@.len() as int;
            assert forall|i: int| 0 <= i < self.store.vaults@.len() implies self.vault_cache_ok(
                #[trigger] self.store.vaults@[i],
            ) by {
                if i < n {
                    assert(self.store.vaults@[i] == old(self).store.vaults@[i]);
                    assert(old(self).store.vaults@[i].deposit_outpoint != op);
                    assert(old(self).vault_cache_ok(old(self).store.vaults@[i]));
                }
            }
            assert forall|q: TxRef| #[trigger] self.deposits.has(q) implies exists|i: int|
                0 <= i < self.store.vaults@.len() && (#[trigger] self.store.vaults@[i]).deposit_outpoint
                    == q by {
                if q == op {
                    assert(self.store.vaults@[n].deposit_outpoint == q);
                } else {
                    assert(old(self).deposits.has(q));
                    let w = choose|i: int|
                        0 <= i < old(self).store.vaults@.len() && (
                        #[trigger] old(self).store.vaults@[i]).deposit_outpoint == q;
                    assert(self.store.vaults@[w].deposit_outpoint == q);
                }
            }
            assert forall|q: TxRef| #[trigger] self.unvaults.has(q) implies q.vout == 0
                && exists|i: int|
                0 <= i < self.store.vaults@.len() && (#[trigger] self.store.vaults@[i]).unvault_txid()
                    == Some(q.txid) by {
                assert(old(self).unvaults.has(q));
                let w = choose|i: int|
                    0 <= i < old(self).store.vaults@.len() && (
                    #[trigger] old(self).store.vaults@[i]).unvault_txid() == Some(q.txid);
                assert(self.store.vaults@[w].unvault_txid() == Some(q.txid));
            }
        }
        true
    }

    /// A known deposit reached `min_conf` confirmations
    /// (`sync_deposits`, `new_confirmed`): store the freshly derived
    /// presigned chain and promote `Unconfirmed` to `Funded`.
    pub fn confirm_deposit_with_chain(
        &mut self,
        op: TxRef,
        height: u32,
        chain: PresignedSet,
        now: u64,
    ) -> (r: bool)
        requires
            old(self).wf(),
            old(self).coherent(),
            forall|i: int|
                0 <= i < old(self).store.vaults@.len() && (
                #[trigger] old(self).store.vaults@[i]).unvault_txid() == Some(chain.unvault.txid)
                    ==> old(self).store.vaults@[i].deposit_outpoint == op,
        ensures
            final(self).wf(),
            final(self).coherent(),
            forward_vaults(old(self).store.vaults@, final(self).store.vaults@),
            Store::frame_vault(old(self).store, final(self).store, op),
            forall|i: int|
                0 <= i < old(self).store.vaults@.len() && (
                #[trigger] old(self).store.vaults@[i]).deposit_outpoint == op
                    ==> final(self).store.vaults@[i] == (if old(self).store.vaults@[i].status
                    == VaultStatus::Unconfirmed {
                    crate::store::funded_vault(old(self).store.vaults@[i], height, chain, now)
                } else {
                    old(self).store.vaults@[i]
                }),
            r == exists|i: int|
                0 <= i < old(self).store.vaults@.len() && (
                #[trigger] old(self).store.vaults@[i]).deposit_outpoint == op && old(
                    self,
                ).store.vaults@[i].status == VaultStatus::Unconfirmed,
            r ==> final(self).deposits.confirmed(op),
            final(self).unvaults == old(self).unvaults,
            forall|q: TxRef| #[trigger] final(self).deposits.has(q) <==> old(self).deposits.has(q),
    {
        let r = self.store.confirm_deposit(op, height, chain, now);
        if r {
            self.deposits.set_confirmed(op, true);
        }
        proof {
            if r {
                let w = choose|i: int|
                    0 <= i < old(self).store.vaults@.len() && (
                    #[trigger] old(self).store.vaults@[i]).deposit_outpoint == op && old(
                        self,
                    ).store.vaults@[i].status == VaultStatus::Unconfirmed;
                assert(old(self).vault_cache_ok(old(self).store.vaults@[w]));
                assert(old(self).deposits.has(op));
                assert forall|i: int| 0 <= i < self.store.vaults@.len() implies self.vault_cache_ok(
                    #[trigger] self.store.vaults@[i],
                ) by {
                    assert(old(self).vault_cache_ok(old(self).store.vaults@[i]));
                    if old(self).store.vaults@[i].deposit_outpoint == op {
                        assert(i == w);
                        let u = chain.unvault.txid;
                        if self.unvaults.has(spec_unvault_outpoint(u)) {
                            assert(old(self).unvaults.has(spec_unvault_outpoint(u)));
                            let k = choose|k: int|
                                0 <= k < old(self).store.vaults@.len() && (
                                #[trigger] old(self).store.vaults@[k]).unvault_txid() == Some(u);
                            assert(old(self).store.vaults@[k].deposit_outpoint == op);
                            assert(k == w);
                            assert(old(self).vault_cache_ok(old(self).store.vaults@[k]));
                            assert(false);
                        }
                    } else {
                        assert(self.store.vaults@[i] == old(self).store.vaults@[i]);
                    }
                }
                assert forall|q: TxRef| #[trigger] self.deposits.has(q) implies exists|i: int|
                    0 <= i < self.store.vaults@.len() && (#[trigger] self.store.vaults@[i]).deposit_outpoint
                        == q by {
                    assert(old(self).deposits.has(q));
                    let k = choose|i: int|
                        0 <= i < old(self).store.vaults@.len() && (
                        #[trigger] old(self).store.vaults@[i]).deposit_outpoint == q;
                    assert(self.store.vaults@[k].deposit_outpoint == q);
                }
                assert forall|q: TxRef| #[trigger] self.unvaults.has(q) implies q.vout == 0
                    && exists|i: int|
                    0 <= i < self.store.vaults@.len() && (#[trigger] self.store.vaults@[i]).unvault_txid()
                        == Some(q.txid) by {
                    assert(old(self).unvaults.has(q));
                    let k = choose|i: int|
                        0 <= i < old(self).store.vaults@.len() && (
                        #[trigger] old(self).store.vaults@[i]).unvault_txid() == Some(q.txid);
                    if k == w {
                        assert(old(self).store.vaults@[k].status.spec_in_unvault_set());
                        assert(false);
                    }
                    assert(self.store.vaults@[k].unvault_txid() == Some(q.txid));
                }
            } else {
                assert forall|i: int| 0 <= i < self.store.vaults@.len() implies self.vault_cache_ok(
                    #[trigger] self.store.vaults@[i],
                ) by {
                    assert(self.store.vaults@[i] == old(self).store.vaults@[i]);
                    assert(old(self).vault_cache_ok(old(self).store.vaults@[i]));
                }
            }
        }
        r
    }
    /// An unvault output appeared unconfirmed (`sync_unvaults`,
    /// `new_unconfirmed`): the `Active` vault becomes `Unvaulting`, its
    /// deposit entry leaves the deposits cache and the unvault output is
    /// cached unconfirmed.
    pub fn apply_unvault_broadcast(&mut self, outpoint: TxRef, utxo: UtxoInfo, now: u64) -> (r:
        bool)
        requires
            old(self).wf(),
            old(self).coherent(),
        ensures
            final(self).wf(),
            final(self).coherent(),
            forward_vaults(old(self).store.vaults@, final(self).store.vaults@),
            Store::frame_vault_by_unvault(old(self).store, final(self).store, outpoint.txid),
            forall|i: int|
                0 <= i < old(self).store.vaults@.len() && (
                #[trigger] old(self).store.vaults@[i]).unvault_txid() == Some(outpoint.txid)
                    ==> final(self).store.vaults@[i] == (if outpoint.vout == 0 && old(
                    self,
                ).store.vaults@[i].status == VaultStatus::Active {
                    with_status(old(self).store.vaults@[i], VaultStatus::Unvaulting, now)
                } else {
                    old(self).store.vaults@[i]
                }),
            r == (outpoint.vout == 0 && exists|i: int|
                0 <= i < old(self).store.vaults@.len() && (
                #[trigger] old(self).store.vaults@[i]).unvault_txid() == Some(outpoint.txid)
                    && old(self).store.vaults@[i].status == VaultStatus::Active),
            r ==> final(self).unvaults.has(outpoint) && !final(self).unvaults.confirmed(outpoint),
            !r ==> final(self).deposits == old(self).deposits && final(self).unvaults == old(
                self,
            ).unvaults,
    {
        if outpoint.vout != 0 {
            return false;
        }
        let i = match self.store.find_by_unvault(outpoint.txid) {
            Some(i) => i,
            None => {
                return false;
            },
        };
        if !matches!(self.store.vaults[i].status, VaultStatus::Active) {
            return false;
        }
        let dep_op = self.store.vaults[i].deposit_outpoint;
        self.store.unvault_deposit(outpoint.txid, now);
        self.deposits.remove(dep_op);
        self.unvaults.upsert(
            outpoint,
            UtxoInfo { value: utxo.value, script: utxo.script, is_confirmed: false },
        );
        proof {
            let w = i as int;
            assert forall|k: int| 0 <= k < self.store.vaults@.len() implies self.vault_cache_ok(
                #[trigger] self.store.vaults@[k],
            ) by {
                assert(old(self).vault_cache_ok(old(self).store.vaults@[k]));
                if k != w {
                    assert(self.store.vaults@[k] == old(self).store.vaults@[k]);
                    assert(old(self).store.vaults@[k].deposit_outpoint != dep_op);
                }
            }
            assert forall|q: TxRef| #[trigger] self.deposits.has(q) implies exists|i2: int|
                0 <= i2 < self.store.vaults@.len() && (#[trigger] self.store.vaults@[i2]).deposit_outpoint
                    == q by {
                assert(old(self).deposits.has(q));
                let k = choose|i2: int|
                    0 <= i2 < old(self).store.vaults@.len() && (
                    #[trigger] old(self).store.vaults@[i2]).deposit_outpoint == q;
                assert(self.store.vaults@[k].deposit_outpoint == q);
            }
            assert forall|q: TxRef| #[trigger] self.unvaults.has(q) implies q.vout == 0
                && exists|i2: int|
                0 <= i2 < self.store.vaults@.len() && (#[trigger] self.store.vaults@[i2]).unvault_txid()
                    == Some(q.txid) by {
                if q == outpoint {
                    assert(self.store.vaults@[w].unvault_txid() == Some(q.txid));
                } else {
                    assert(old(self).unvaults.has(q));
                    let k = choose|i2: int|
                        0 <= i2 < old(self).store.vaults@.len() && (
                        #[trigger] old(self).store.vaults@[i2]).unvault_txid() == Some(q.txid);
                    assert(self.store.vaults@[k].unvault_txid() == Some(q.txid));
                }
            }
        }
        true
    }

    /// A tracked unvault output confirmed (`sync_unvaults`,
    /// `new_confirmed`): `Unvaulting` becomes `Unvaulted` and the cache
    /// flag flips.
    pub fn apply_unvault_confirmed(&mut self, outpoint: TxRef, now: u64) -> (r: bool)
        requires
            old(self).wf(),
            old(self).coherent(),
        ensures
            final(self).wf(),
            final(self).coherent(),
            forward_vaults(old(self).store.vaults@, final(self).store.vaults@),
            Store::frame_vault_by_unvault(old(self).store, final(self).store, outpoint.txid),
            forall|i: int|
                0 <= i < old(self).store.vaults@.len() && (
                #[trigger] old(self).store.vaults@[i]).unvault_txid() == Some(outpoint.txid)
                    ==> final(self).store.vaults@[i] == (if outpoint.vout == 0 && old(
                    self,
                ).store.vaults@[i].status.spec_in_unvault_set() {
                    with_status_no_spender(old(self).store.vaults@[i], VaultStatus::Unvaulted, now)
                } else {
                    old(self).store.vaults@[i]
                }),
            r == (outpoint.vout == 0 && exists|i: int|
                0 <= i < old(self).store.vaults@.len() && (
                #[trigger] old(self).store.vaults@[i]).unvault_txid() == Some(outpoint.txid)
                    && old(self).store.vaults@[i].status.spec_in_unvault_set()),
            r ==> final(self).unvaults.confirmed(outpoint),
            final(self).deposits == old(self).deposits,
            forall|q: TxRef| #[trigger] final(self).unvaults.has(q) <==> old(self).unvaults.has(q),
    {
        if !self.unvaults.contains(outpoint) {
            proof {
                assert forall|i: int|
                    0 <= i < old(self).store.vaults@.len() && (
                    #[trigger] old(self).store.vaults@[i]).unvault_txid() == Some(outpoint.txid)
                        && old(self).store.vaults@[i].status.spec_in_unvault_set() implies outpoint.vout
                    != 0 by {
                    assert(old(self).vault_cache_ok(old(self).store.vaults@[i]));
                    if outpoint.vout == 0 {
                        assert(spec_unvault_outpoint(outpoint.txid) == outpoint);
                        assert(old(self).unvaults.has(outpoint));
                    }
                }
            }
            return false;
        }
        proof {
            let k = choose|i2: int|
                0 <= i2 < old(self).store.vaults@.len() && (
                #[trigger] old(self).store.vaults@[i2]).unvault_txid() == Some(outpoint.txid);
            assert(old(self).vault_cache_ok(old(self).store.vaults@[k]));
            assert(old(self).store.vaults@[k].status.spec_in_unvault_set());
        }
        self.store.confirm_unvault(outpoint.txid, now);
        self.unvaults.set_confirmed(outpoint, true);
        proof {
            let w = choose|i2: int|
                0 <= i2 < old(self).store.vaults@.len() && (
                #[trigger] old(self).store.vaults@[i2]).unvault_txid() == Some(outpoint.txid);
            assert forall|k: int| 0 <= k < self.store.vaults@.len() implies self.vault_cache_ok(
                #[trigger] self.store.vaults@[k],
            ) by {
                assert(old(self).vault_cache_ok(old(self).store.vaults@[k]));
                if k != w {
                    assert(self.store.vaults@[k] == old(self).store.vaults@[k]);
                }
            }
            assert forall|q: TxRef| #[trigger] self.deposits.has(q) implies exists|i2: int|
                0 <= i2 < self.store.vaults@.len() && (#[trigger] self.store.vaults@[i2]).deposit_outpoint
                    == q by {
                let k = choose|i2: int|
                    0 <= i2 < old(self).store.vaults@.len() && (
                    #[trigger] old(self).store.vaults@[i2]).deposit_outpoint == q;
                assert(self.store.vaults@[k].deposit_outpoint == q);
            }
            assert forall|q: TxRef| #[trigger] self.unvaults.has(q) implies q.vout == 0
                && exists|i2: int|
                0 <= i2 < self.store.vaults@.len() && (#[trigger] self.store.vaults@[i2]).unvault_txid()
                    == Some(q.txid) by {
                assert(old(self).unvaults.has(q));
                let k = choose|i2: int|
                    0 <= i2 < old(self).store.vaults@.len() && (
                    #[trigger] old(self).store.vaults@[i2]).unvault_txid() == Some(q.txid);
                assert(self.store.vaults@[k].unvault_txid() == Some(q.txid));
            }
        }
        true
    }
}

/// What spent an unvault output, as classified by the poller.
#[derive(Clone, Copy, PartialEq, Eq, Structural, Debug)]
pub enum Spender {
    /// The Cancel, spending via the stakeholders' path back to a deposit.
    Cancel(u64),
    /// A Spend, via the managers' path.
    Spend(u64),
}

/// The row after its recorded Spend confirmed.
pub open spec fn spent_vault(v: Vault, stxid: u64, now: u64) -> Vault {
    Vault {
        status: VaultStatus::Spent,
        spend_txid: Some(stxid),
        updated_at: now,
        ..v
    }
}

impl ChainState {
    /// A tracked unvault output was spent (`sync_unvaults`, `new_spent`)
    /// and the spender was classified: record `Canceling`/`Spending`, drop
    /// the cache entry, and immediately confirm the spender when the
    /// wallet already sees it in a block. An unclassified spender leaves
    /// everything untouched, to be retried next tick.
    pub fn apply_spent_unvault(
        &mut self,
        outpoint: TxRef,
        spender: Option<Spender>,
        spender_confirmed: bool,
        now: u64,
    ) -> (r: bool)
        requires
            old(self).wf(),
            old(self).coherent(),
        ensures
            final(self).wf(),
            final(self).coherent(),
            forward_vaults(old(self).store.vaults@, final(self).store.vaults@),
            final(self).store.vaults@.len() == old(self).store.vaults@.len(),
            forall|i: int|
                0 <= i < old(self).store.vaults@.len() && (
                #[trigger] old(self).store.vaults@[i]).unvault_txid() != Some(outpoint.txid)
                    ==> final(self).store.vaults@[i] == old(self).store.vaults@[i],
            forall|i: int|
                0 <= i < old(self).store.vaults@.len() && (
                #[trigger] old(self).store.vaults@[i]).unvault_txid() == Some(outpoint.txid)
                    ==> final(self).store.vaults@[i] == (if outpoint.vout == 0
                    && can_record_spender(old(self).store.vaults@[i].status) && spender is Some {
                    match spender->Some_0 {
                        Spender::Cancel(_c) => with_status_no_spender(
                            old(self).store.vaults@[i],
                            if spender_confirmed {
                                VaultStatus::Canceled
                            } else {
                                VaultStatus::Canceling
                            },
                            now,
                        ),
                        Spender::Spend(t) => if spender_confirmed {
                            spent_vault(old(self).store.vaults@[i], t, now)
                        } else {
                            spending_vault(old(self).store.vaults@[i], t, now)
                        },
                    }
                } else {
                    old(self).store.vaults@[i]
                }),
            r == (outpoint.vout == 0 && spender is Some && exists|i: int|
                0 <= i < old(self).store.vaults@.len() && (
                #[trigger] old(self).store.vaults@[i]).unvault_txid() == Some(outpoint.txid)
                    && can_record_spender(old(self).store.vaults@[i].status)),
            r ==> !final(self).unvaults.has(outpoint),
            !r ==> final(self).deposits == old(self).deposits && final(self).unvaults == old(
                self,
            ).unvaults,
            final(self).store.tip == old(self).store.tip,
            final(self).store.deposit_index == old(self).store.deposit_index,
            final(self).store.spends@ == old(self).store.spends@,
    {
        if outpoint.vout != 0 {
            return false;
        }
        let sp = match spender {
            Some(sp) => sp,
            None => {
                return false;
            },
        };
        let i = match self.store.find_by_unvault(outpoint.txid) {
            Some(i) => i,
            None => {
                return false;
            },
        };
        if !matches!(
            self.store.vaults[i].status,
            VaultStatus::Active | VaultStatus::Unvaulting | VaultStatus::Unvaulted
        ) {
            return false;
        }
        let was_in_deposit_set = self.store.vaults[i].status.in_deposit_set();
        let dep_op = self.store.vaults[i].deposit_outpoint;
        match sp {
            Spender::Cancel(_ctxid) => {
                self.store.cancel_unvault(outpoint.txid, now);
                if spender_confirmed {
                    self.store.mark_canceled(outpoint.txid, now);
                }
            },
            Spender::Spend(stxid) => {
                self.store.spend_unvault(outpoint.txid, stxid, now);
                if spender_confirmed {
                    self.store.mark_spent(outpoint.txid, now);
                }
            },
        }
        if was_in_deposit_set {
            self.deposits.remove(dep_op);
        }
        self.unvaults.remove(outpoint);
        proof {
            let w = i as int;
            assert forall|k: int| 0 <= k < self.store.vaults@.len() implies self.vault_cache_ok(
                #[trigger] self.store.vaults@[k],
            ) by {
                assert(old(self).vault_cache_ok(old(self).store.vaults@[k]));
                if k != w {
                    assert(self.store.vaults@[k] == old(self).store.vaults@[k]);
                    assert(old(self).store.vaults@[k].deposit_outpoint != dep_op);
                }
            }
            assert forall|q: TxRef| #[trigger] self.deposits.has(q) implies exists|i2: int|
                0 <= i2 < self.store.vaults@.len() && (#[trigger] self.store.vaults@[i2]).deposit_outpoint
                    == q by {
                assert(old(self).deposits.has(q));
                let k = choose|i2: int|
                    0 <= i2 < old(self).store.vaults@.len() && (
                    #[trigger] old(self).store.vaults@[i2]).deposit_outpoint == q;
                assert(self.store.vaults@[k].deposit_outpoint == q);
            }
            assert forall|q: TxRef| #[trigger] self.unvaults.has(q) implies q.vout == 0
                && exists|i2: int|
                0 <= i2 < self.store.vaults@.len() && (#[trigger] self.store.vaults@[i2]).unvault_txid()
                    == Some(q.txid) by {
                assert(old(self).unvaults.has(q));
                let k = choose|i2: int|
                    0 <= i2 < old(self).store.vaults@.len() && (
                    #[trigger] old(self).store.vaults@[i2]).unvault_txid() == Some(q.txid);
                assert(self.store.vaults@[k].unvault_txid() == Some(q.txid));
            }
        }
        true
    }

    /// The recorded Spend of a `Spending` vault confirmed: mark it
    /// `Spent`.
    pub fn confirm_spend(&mut self, utxid: u64, now: u64) -> (r: bool)
        requires
            old(self).wf(),
            old(self).coherent(),
        ensures
            final(self).wf(),
            final(self).coherent(),
            forward_vaults(old(self).store.vaults@, final(self).store.vaults@),
            Store::frame_vault_by_unvault(old(self).store, final(self).store, utxid),
            forall|i: int|
                0 <= i < old(self).store.vaults@.len() && (
                #[trigger] old(self).store.vaults@[i]).unvault_txid() == Some(utxid)
                    ==> final(self).store.vaults@[i] == (if old(self).store.vaults@[i].status
                    == VaultStatus::Spending {
                    with_status(old(self).store.vaults@[i], VaultStatus::Spent, now)
                } else {
                    old(self).store.vaults@[i]
                }),
            r == exists|i: int|
                0 <= i < old(self).store.vaults@.len() && (
                #[trigger] old(self).store.vaults@[i]).unvault_txid() == Some(utxid) && old(
                    self,
                ).store.vaults@[i].status == VaultStatus::Spending,
            final(self).deposits == old(self).deposits,
            final(self).unvaults == old(self).unvaults,
    {
        let r = self.store.mark_spent(utxid, now);
        proof {
            assert forall|k: int| 0 <= k < self.store.vaults@.len() implies self.vault_cache_ok(
                #[trigger] self.store.vaults@[k],
            ) by {
                assert(old(self).vault_cache_ok(old(self).store.vaults@[k]));
            }
            assert forall|q: TxRef| #[trigger] self.deposits.has(q) implies exists|i2: int|
                0 <= i2 < self.store.vaults@.len() && (#[trigger] self.store.vaults@[i2]).deposit_outpoint
                    == q by {
                let k = choose|i2: int|
                    0 <= i2 < old(self).store.vaults@.len() && (
                    #[trigger] old(self).store.vaults@[i2]).deposit_outpoint == q;
                assert(self.store.vaults@[k].deposit_outpoint == q);
            }
            assert forall|q: TxRef| #[trigger] self.unvaults.has(q) implies q.vout == 0
                && exists|i2: int|
                0 <= i2 < self.store.vaults@.len() && (#[trigger] self.store.vaults@[i2]).unvault_txid()
                    == Some(q.txid) by {
                let k = choose|i2: int|
                    0 <= i2 < old(self).store.vaults@.len() && (
                    #[trigger] old(self).store.vaults@[i2]).unvault_txid() == Some(q.txid);
                assert(self.store.vaults@[k].unvault_txid() == Some(q.txid));
            }
        }
        r
    }

    /// The Cancel of a `Canceling` vault confirmed: mark it `Canceled`.
    pub fn confirm_cancel(&mut self, utxid: u64, now: u64) -> (r: bool)
        requires
            old(self).wf(),
            old(self).coherent(),
        ensures
            final(self).wf(),
            final(self).coherent(),
            forward_vaults(old(self).store.vaults@, final(self).store.vaults@),
            Store::frame_vault_by_unvault(old(self).store, final(self).store, utxid),
            forall|i: int|
                0 <= i < old(self).store.vaults@.len() && (
                #[trigger] old(self).store.vaults@[i]).unvault_txid() == Some(utxid)
                    ==> final(self).store.vaults@[i] == (if old(self).store.vaults@[i].status
                    == VaultStatus::Canceling {
                    with_status(old(self).store.vaults@[i], VaultStatus::Canceled, now)
                } else {
                    old(self).store.vaults@[i]
                }),
            r == exists|i: int|
                0 <= i < old(self).store.vaults@.len() && (
                #[trigger] old(self).store.vaults@[i]).unvault_txid() == Some(utxid) && old(
                    self,
                ).store.vaults@[i].status == VaultStatus::Canceling,
            final(self).deposits == old(self).deposits,
            final(self).unvaults == old(self).unvaults,
    {
        let r = self.store.mark_canceled(utxid, now);
        proof {
            assert forall|k: int| 0 <= k < self.store.vaults@.len() implies self.vault_cache_ok(
                #[trigger] self.store.vaults@[k],
            ) by {
                assert(old(self).vault_cache_ok(old(self).store.vaults@[k]));
            }
            assert forall|q: TxRef| #[trigger] self.deposits.has(q) implies exists|i2: int|
                0 <= i2 < self.store.vaults@.len() && (#[trigger] self.store.vaults@[i2]).deposit_outpoint
                    == q by {
                let k = choose|i2: int|
                    0 <= i2 < old(self).store.vaults@.len() && (
                    #[trigger] old(self).store.vaults@[i2]).deposit_outpoint == q;
                assert(self.store.vaults@[k].deposit_outpoint == q);
            }
            assert forall|q: TxRef| #[trigger] self.unvaults.has(q) implies q.vout == 0
                && exists|i2: int|
                0 <= i2 < self.store.vaults@.len() && (#[trigger] self.store.vaults@[i2]).unvault_txid()
                    == Some(q.txid) by {
                let k = choose|i2: int|
                    0 <= i2 < old(self).store.vaults@.len() && (
                    #[trigger] old(self).store.vaults@[i2]).unvault_txid() == Some(q.txid);
                assert(self.store.vaults@[k].unvault_txid() == Some(q.txid));
            }
        }
        r
    }

    /// The recorded Spend or Cancel left the mempool without confirming
    /// (checked at each new tip): downgrade to `Unvaulted` and track the
    /// unvault output again, confirmed, so the next poll reclassifies it.
    pub fn evict_spender(&mut self, outpoint: TxRef, utxo: UtxoInfo, now: u64) -> (r: bool)
        requires
            old(self).wf(),
            old(self).coherent(),
        ensures
            final(self).wf(),
            final(self).coherent(),
            Store::frame_vault_by_unvault(old(self).store, final(self).store, outpoint.txid),
            forall|i: int|
                0 <= i < old(self).store.vaults@.len() && (
                #[trigger] old(self).store.vaults@[i]).unvault_txid() == Some(outpoint.txid)
                    ==> final(self).store.vaults@[i] == (if outpoint.vout == 0 && (old(
                    self,
                ).store.vaults@[i].status == VaultStatus::Spending || old(
                    self,
                ).store.vaults@[i].status == VaultStatus::Canceling) {
                    with_status_no_spender(old(self).store.vaults@[i], VaultStatus::Unvaulted, now)
                } else {
                    old(self).store.vaults@[i]
                }),
            r == (outpoint.vout == 0 && exists|i: int|
                0 <= i < old(self).store.vaults@.len() && (
                #[trigger] old(self).store.vaults@[i]).unvault_txid() == Some(outpoint.txid) && (
                old(self).store.vaults@[i].status == VaultStatus::Spending || old(
                    self,
                ).store.vaults@[i].status == VaultStatus::Canceling)),
            r ==> final(self).unvaults.has(outpoint) && final(self).unvaults.confirmed(outpoint),
            !r ==> final(self).deposits == old(self).deposits && final(self).unvaults == old(
                self,
            ).unvaults,
            final(self).deposits == old(self).deposits,
    {
        if outpoint.vout != 0 {
            return false;
        }
        let i = match self.store.find_by_unvault(outpoint.txid) {
            Some(i) => i,
            None => {
                return false;
            },
        };
        if !matches!(self.store.vaults[i].status, VaultStatus::Spending | VaultStatus::Canceling) {
            return false;
        }
        self.store.confirm_unvault(outpoint.txid, now);
        self.unvaults.upsert(
            outpoint,
            UtxoInfo { value: utxo.value, script: utxo.script, is_confirmed: true },
        );
        proof {
            let w = i as int;
            assert forall|k: int| 0 <= k < self.store.vaults@.len() implies self.vault_cache_ok(
                #[trigger] self.store.vaults@[k],
            ) by {
                assert(old(self).vault_cache_ok(old(self).store.vaults@[k]));
                if k != w {
                    assert(self.store.vaults@[k] == old(self).store.vaults@[k]);
                }
            }
            assert forall|q: TxRef| #[trigger] self.deposits.has(q) implies exists|i2: int|
                0 <= i2 < self.store.vaults@.len() && (#[trigger] self.store.vaults@[i2]).deposit_outpoint
                    == q by {
                let k = choose|i2: int|
                    0 <= i2 < old(self).store.vaults@.len() && (
                    #[trigger] old(self).store.vaults@[i2]).deposit_outpoint == q;
                assert(self.store.vaults@[k].deposit_outpoint == q);
            }
            assert forall|q: TxRef| #[trigger] self.unvaults.has(q) implies q.vout == 0
                && exists|i2: int|
                0 <= i2 < self.store.vaults@.len() && (#[trigger] self.store.vaults@[i2]).unvault_txid()
                    == Some(q.txid) by {
                if q == outpoint {
                    assert(self.store.vaults@[w].unvault_txid() == Some(q.txid));
                } else {
                    assert(old(self).unvaults.has(q));
                    let k = choose|i2: int|
                        0 <= i2 < old(self).store.vaults@.len() && (
                        #[trigger] old(self).store.vaults@[i2]).unvault_txid() == Some(q.txid);
                    assert(self.store.vaults@[k].unvault_txid() == Some(q.txid));
                }
            }
        }
        true
    }
}

impl ChainState {
    /// A spent deposit whose unvault transaction the wallet already sees
    /// confirmed, with no known spender of the unvault output yet: skip
    /// the vault straight to `Unvaulted` and track the unvault output as
    /// confirmed.
    pub fn apply_unvault_found_confirmed(&mut self, outpoint: TxRef, utxo: UtxoInfo, now: u64) -> (
        r: bool)
        requires
            old(self).wf(),
            old(self).coherent(),
        ensures
            final(self).wf(),
            final(self).coherent(),
            forward_vaults(old(self).store.vaults@, final(self).store.vaults@),
            Store::frame_vault_by_unvault(old(self).store, final(self).store, outpoint.txid),
            forall|i: int|
                0 <= i < old(self).store.vaults@.len() && (
                #[trigger] old(self).store.vaults@[i]).unvault_txid() == Some(outpoint.txid)
                    ==> final(self).store.vaults@[i] == (if outpoint.vout == 0 && old(
                    self,
                ).store.vaults@[i].status == VaultStatus::Active {
                    with_status_no_spender(old(self).store.vaults@[i], VaultStatus::Unvaulted, now)
                } else {
                    old(self).store.vaults@[i]
                }),
            r == (outpoint.vout == 0 && exists|i: int|
                0 <= i < old(self).store.vaults@.len() && (
                #[trigger] old(self).store.vaults@[i]).unvault_txid() == Some(outpoint.txid)
                    && old(self).store.vaults@[i].status == VaultStatus::Active),
            r ==> final(self).unvaults.has(outpoint) && final(self).unvaults.confirmed(outpoint),
            !r ==> final(self).deposits == old(self).deposits && final(self).unvaults == old(
                self,
            ).unvaults,
    {
        if outpoint.vout != 0 {
            return false;
        }
        let i = match self.store.find_by_unvault(outpoint.txid) {
            Some(i) => i,
            None => {
                return false;
            },
        };
        if !matches!(self.store.vaults[i].status, VaultStatus::Active) {
            return false;
        }
        let dep_op = self.store.vaults[i].deposit_outpoint;
        self.store.confirm_unvault(outpoint.txid, now);
        self.deposits.remove(dep_op);
        self.unvaults.upsert(
            outpoint,
            UtxoInfo { value: utxo.value, script: utxo.script, is_confirmed: true },
        );
        proof {
            let w = i as int;
            assert forall|k: int| 0 <= k < self.store.vaults@.len() implies self.vault_cache_ok(
                #[trigger] self.store.vaults@[k],
            ) by {
                assert(old(self).vault_cache_ok(old(self).store.vaults@[k]));
                if k != w {
                    assert(self.store.vaults@[k] == old(self).store.vaults@[k]);
                    assert(old(self).store.vaults@[k].deposit_outpoint != dep_op);
                }
            }
            assert forall|q: TxRef| #[trigger] self.deposits.has(q) implies exists|i2: int|
                0 <= i2 < self.store.vaults@.len() && (#[trigger] self.store.vaults@[i2]).deposit_outpoint
                    == q by {
                assert(old(self).deposits.has(q));
                let k = choose|i2: int|
                    0 <= i2 < old(self).store.vaults@.len() && (
                    #[trigger] old(self).store.vaults@[i2]).deposit_outpoint == q;
                assert(self.store.vaults@[k].deposit_outpoint == q);
            }
            assert forall|q: TxRef| #[trigger] self.unvaults.has(q) implies q.vout == 0
                && exists|i2: int|
                0 <= i2 < self.store.vaults@.len() && (#[trigger] self.store.vaults@[i2]).unvault_txid()
                    == Some(q.txid) by {
                if q == outpoint {
                    assert(self.store.vaults@[w].unvault_txid() == Some(q.txid));
                } else {
                    assert(old(self).unvaults.has(q));
                    let k = choose|i2: int|
                        0 <= i2 < old(self).store.vaults@.len() && (
                        #[trigger] old(self).store.vaults@[i2]).unvault_txid() == Some(q.txid);
                    assert(self.store.vaults@[k].unvault_txid() == Some(q.txid));
                }
            }
        }
        true
    }

    /// A Spend draft was handed to the node: keep the book.
    pub fn record_spend_broadcast(&mut self, txid: u64) -> (r: bool)
        requires
            old(self).wf(),
            old(self).coherent(),
        ensures
            final(self).wf(),
            final(self).coherent(),
            final(self).store.vaults@ == old(self).store.vaults@,
            final(self).store.tip == old(self).store.tip,
            final(self).store.deposit_index == old(self).store.deposit_index,
            final(self).deposits == old(self).deposits,
            final(self).unvaults == old(self).unvaults,
            Store::frame_spend(old(self).store, final(self).store, txid),
            final(self).store.spends@ == crate::store::spec_mark_spend(
                old(self).store.spends@,
                txid,
                crate::store::SpendTxState::Broadcasted,
            ),
            r == old(self).store.has_spend(txid),
    {
        let r = self.store.mark_broadcasted_spend(txid);
        proof {
            assert(self.store.spends@ =~= crate::store::spec_mark_spend(
                old(self).store.spends@,
                txid,
                crate::store::SpendTxState::Broadcasted,
            ));
        }
        proof {
            assert forall|k: int| 0 <= k < self.store.vaults@.len() implies self.vault_cache_ok(
                #[trigger] self.store.vaults@[k],
            ) by {
                assert(old(self).vault_cache_ok(old(self).store.vaults@[k]));
            }
        }
        r
    }

    /// `tip_write` at the coordinator level.
    pub fn set_tip(&mut self, tip: crate::types::BlockchainTip)
        requires
            old(self).wf(),
            old(self).coherent(),
        ensures
            final(self).wf(),
            final(self).coherent(),
            final(self).store.tip == tip,
            final(self).store.vaults@ == old(self).store.vaults@,
            final(self).store.deposit_index == old(self).store.deposit_index,
            final(self).store.spends@ == old(self).store.spends@,
            final(self).deposits == old(self).deposits,
            final(self).unvaults == old(self).unvaults,
    {
        self.store.set_tip(tip);
        proof {
            assert forall|k: int| 0 <= k < self.store.vaults@.len() implies self.vault_cache_ok(
                #[trigger] self.store.vaults@[k],
            ) by {
                assert(old(self).vault_cache_ok(old(self).store.vaults@[k]));
            }
        }
    }

    /// Advance the next-unused derivation index; the caches are untouched.
    pub fn advance_deposit_index(&mut self, new_index: u32)
        requires
            old(self).wf(),
            old(self).coherent(),
            new_index >= old(self).store.deposit_index,
        ensures
            final(self).wf(),
            final(self).coherent(),
            final(self).store.deposit_index == new_index,
            final(self).store.vaults@ == old(self).store.vaults@,
            final(self).store.tip == old(self).store.tip,
            final(self).store.spends@ == old(self).store.spends@,
            final(self).deposits == old(self).deposits,
            final(self).unvaults == old(self).unvaults,
    {
        self.store.update_deposit_index(new_index);
        proof {
            assert forall|k: int| 0 <= k < self.store.vaults@.len() implies self.vault_cache_ok(
                #[trigger] self.store.vaults@[k],
            ) by {
                assert(old(self).vault_cache_ok(old(self).store.vaults@[k]));
            }
        }
    }
}

/// What the shell must rebroadcast after a rewind: best-effort kicks to
/// the node wallet.
#[derive(Clone, Copy, PartialEq, Eq, Debug)]
pub struct RewindHints {
    /// A rewind happened.
    pub applied: bool,
    /// Re-announce the deposit transaction.
    pub rebroadcast_deposit: Option<u64>,
    /// Re-announce the unvault transaction.
    pub rebroadcast_unvault: Option<u64>,
    /// Re-announce the cancel transaction.
    pub rebroadcast_cancel: Option<u64>,
}

impl RewindHints {
    /// No rewind, nothing to re-announce.
    pub fn none() -> (r: RewindHints)
        ensures
            !r.applied,
            r.rebroadcast_deposit is None,
            r.rebroadcast_unvault is None,
            r.rebroadcast_cancel is None,
    {
        RewindHints {
            applied: false,
            rebroadcast_deposit: None,
            rebroadcast_unvault: None,
            rebroadcast_cancel: None,
        }
    }
}

impl ChainState {
    /// The unvault transaction lost its confirmation in a reorg: rewind a
    /// vault past the unvault to `Unvaulting`, track its unvault output
    /// again unconfirmed, and flag any Spend drafts over it for
    /// rebroadcast.
    pub fn unconfirm_unvault_step(&mut self, op: TxRef, utxo: UtxoInfo, now: u64) -> (h:
        RewindHints)
        requires
            old(self).wf(),
            old(self).coherent(),
        ensures
            final(self).wf(),
            final(self).coherent(),
            final(self).store.tip == old(self).store.tip,
            final(self).store.deposit_index == old(self).store.deposit_index,
            final(self).deposits == old(self).deposits,
            final(self).store.vaults@.len() == old(self).store.vaults@.len(),
            forall|i: int|
                0 <= i < old(self).store.vaults@.len() && (
                #[trigger] old(self).store.vaults@[i]).deposit_outpoint != op
                    ==> final(self).store.vaults@[i] == old(self).store.vaults@[i],
            forall|i: int|
                0 <= i < old(self).store.vaults@.len() && (
                #[trigger] old(self).store.vaults@[i]).deposit_outpoint == op
                    ==> final(self).store.vaults@[i] == (if old(
                    self,
                ).store.vaults@[i].status.spec_past_unvault() {
                    with_status_no_spender(
                        old(self).store.vaults@[i],
                        VaultStatus::Unvaulting,
                        now,
                    )
                } else {
                    old(self).store.vaults@[i]
                }),
            h.applied == exists|i: int|
                0 <= i < old(self).store.vaults@.len() && (
                #[trigger] old(self).store.vaults@[i]).deposit_outpoint == op && old(
                    self,
                ).store.vaults@[i].status.spec_past_unvault(),
            h.applied ==> exists|i: int|
                0 <= i < old(self).store.vaults@.len() && (
                #[trigger] old(self).store.vaults@[i]).deposit_outpoint == op && old(
                    self,
                ).store.vaults@[i].status.spec_past_unvault() && {
                    let v = old(self).store.vaults@[i];
                    let u = v.unvault_txid()->Some_0;
                    &&& h.rebroadcast_unvault == Some(u)
                    &&& h.rebroadcast_cancel == (if v.status == VaultStatus::Canceling || v.status
                        == VaultStatus::Canceled {
                        v.cancel_txid()
                    } else {
                        None
                    })
                    &&& final(self).unvaults.has(spec_unvault_outpoint(u))
                    &&& !final(self).unvaults.confirmed(spec_unvault_outpoint(u))
                },
            !h.applied ==> final(self).store.spends@ == old(self).store.spends@
                && final(self).unvaults == old(self).unvaults,
            !h.applied ==> h.rebroadcast_unvault is None && h.rebroadcast_cancel is None,
            final(self).store.spends@ == (if old(self).store.has_vault(op) && (
            crate::store::vault_at(old(self).store, op).status == VaultStatus::Spending
                || crate::store::vault_at(old(self).store, op).status == VaultStatus::Spent) {
                crate::store::spec_flag_spends(
                    old(self).store.spends@,
                    crate::store::vault_at(old(self).store, op).unvault_txid()->Some_0,
                )
            } else {
                old(self).store.spends@
            }),
    {
        let i = match self.store.find_by_deposit(op) {
            Some(i) => i,
            None => {
                return RewindHints::none();
            },
        };
        proof {
            crate::store::lemma_vault_at(old(self).store, op, i as int);
        }
        let st = self.store.vaults[i].status;
        if !st.past_unvault() {
            return RewindHints::none();
        }
        let u: u64;
        let ctx: u64;
        match &self.store.vaults[i].presigned {
            Some(p) => {
                u = p.unvault.txid;
                ctx = p.cancel.txid;
            },
            None => {
                proof {
                    assert(old(self).store.vaults@[i as int].wf());
                    assert(false);
                }
                u = 0;
                ctx = 0;
            },
        }
        self.store.unconfirm_unvault(op, now);
        if matches!(st, VaultStatus::Spending | VaultStatus::Spent) {
            self.store.mark_rebroadcastable_spend(u);
            proof {
                assert(self.store.spends@ =~= crate::store::spec_flag_spends(
                    old(self).store.spends@,
                    u,
                ));
            }
        }
        let rc: Option<u64> = if matches!(st, VaultStatus::Canceling | VaultStatus::Canceled) {
            Some(ctx)
        } else {
            None
        };
        let uop = unvault_outpoint(u);
        if matches!(st, VaultStatus::Unvaulted) {
            self.unvaults.set_confirmed(uop, false);
        } else if matches!(st, VaultStatus::Unvaulting) {
            // already tracked, unconfirmed
        } else {
            self.unvaults.upsert(
                uop,
                UtxoInfo { value: utxo.value, script: utxo.script, is_confirmed: false },
            );
        }
        proof {
            let w = i as int;
            assert(old(self).vault_cache_ok(old(self).store.vaults@[w]));
            assert forall|k: int| 0 <= k < self.store.vaults@.len() implies self.vault_cache_ok(
                #[trigger] self.store.vaults@[k],
            ) by {
                assert(old(self).vault_cache_ok(old(self).store.vaults@[k]));
                if k != w {
                    assert(self.store.vaults@[k] == old(self).store.vaults@[k]);
                }
            }
            assert forall|q: TxRef| #[trigger] self.deposits.has(q) implies exists|i2: int|
                0 <= i2 < self.store.vaults@.len() && (#[trigger] self.store.vaults@[i2]).deposit_outpoint
                    == q by {
                let k = choose|i2: int|
                    0 <= i2 < old(self).store.vaults@.len() && (
                    #[trigger] old(self).store.vaults@[i2]).deposit_outpoint == q;
                assert(self.store.vaults@[k].deposit_outpoint == q);
            }
            assert forall|q: TxRef| #[trigger] self.unvaults.has(q) implies q.vout == 0
                && exists|i2: int|
                0 <= i2 < self.store.vaults@.len() && (#[trigger] self.store.vaults@[i2]).unvault_txid()
                    == Some(q.txid) by {
                if q == uop {
                    assert(self.store.vaults@[w].unvault_txid() == Some(q.txid));
                } else {
                    assert(old(self).unvaults.has(q));
                    let k = choose|i2: int|
                        0 <= i2 < old(self).store.vaults@.len() && (
                        #[trigger] old(self).store.vaults@[i2]).unvault_txid() == Some(q.txid);
                    assert(self.store.vaults@[k].unvault_txid() == Some(q.txid));
                }
            }
        }
        RewindHints {
            applied: true,
            rebroadcast_deposit: None,
            rebroadcast_unvault: Some(u),
            rebroadcast_cancel: rc,
        }
    }

    /// The deposit itself lost its confirmation (or fell under `min_conf`)
    /// in a reorg: a first-layer vault rewinds to `Unconfirmed`; one past
    /// the unvault rewinds through [`Self::unconfirm_unvault_step`]. The
    /// deposit transaction is re-announced either way.
    pub fn unconfirm_vault_step(&mut self, op: TxRef, utxo: UtxoInfo, now: u64) -> (h: RewindHints)
        requires
            old(self).wf(),
            old(self).coherent(),
        ensures
            final(self).wf(),
            final(self).coherent(),
            final(self).store.tip == old(self).store.tip,
            final(self).store.deposit_index == old(self).store.deposit_index,
            final(self).store.vaults@.len() == old(self).store.vaults@.len(),
            forall|i: int|
                0 <= i < old(self).store.vaults@.len() && (
                #[trigger] old(self).store.vaults@[i]).deposit_outpoint != op
                    ==> final(self).store.vaults@[i] == old(self).store.vaults@[i],
            forall|i: int|
                0 <= i < old(self).store.vaults@.len() && (
                #[trigger] old(self).store.vaults@[i]).deposit_outpoint == op
                    ==> final(self).store.vaults@[i] == (if old(
                    self,
                ).store.vaults@[i].status.spec_first_layer() {
                    crate::store::unconfirmed_vault(old(self).store.vaults@[i], now)
                } else if old(self).store.vaults@[i].status.spec_past_unvault() {
                    with_status_no_spender(
                        old(self).store.vaults@[i],
                        VaultStatus::Unvaulting,
                        now,
                    )
                } else {
                    old(self).store.vaults@[i]
                }),
            h.applied == exists|i: int|
                0 <= i < old(self).store.vaults@.len() && (
                #[trigger] old(self).store.vaults@[i]).deposit_outpoint == op && (old(
                    self,
                ).store.vaults@[i].status.spec_first_layer() || old(
                    self,
                ).store.vaults@[i].status.spec_past_unvault()),
            h.rebroadcast_deposit == (if old(self).store.has_vault(op) && crate::store::vault_at(
                old(self).store,
                op,
            ).status != VaultStatus::Unconfirmed {
                Some(op.txid)
            } else {
                None::<u64>
            }),
            final(self).store.spends@ == (if old(self).store.has_vault(op) && (
            crate::store::vault_at(old(self).store, op).status == VaultStatus::Spending
                || crate::store::vault_at(old(self).store, op).status == VaultStatus::Spent) {
                crate::store::spec_flag_spends(
                    old(self).store.spends@,
                    crate::store::vault_at(old(self).store, op).unvault_txid()->Some_0,
                )
            } else {
                old(self).store.spends@
            }),
    {
        let i = match self.store.find_by_deposit(op) {
            Some(i) => i,
            None => {
                return RewindHints::none();
            },
        };
        proof {
            crate::store::lemma_vault_at(old(self).store, op, i as int);
        }
        let st = self.store.vaults[i].status;
        if st.first_layer() {
            self.store.unconfirm_deposit(op, now);
            self.deposits.set_confirmed(op, false);
            proof {
                let w = i as int;
                assert(old(self).vault_cache_ok(old(self).store.vaults@[w]));
                assert forall|k: int| 0 <= k < self.store.vaults@.len() implies self.vault_cache_ok(
                    #[trigger] self.store.vaults@[k],
                ) by {
                    assert(old(self).vault_cache_ok(old(self).store.vaults@[k]));
                    if k != w {
                        assert(self.store.vaults@[k] == old(self).store.vaults@[k]);
                        assert(old(self).store.vaults@[k].deposit_outpoint != op);
                    }
                }
                assert forall|q: TxRef| #[trigger] self.deposits.has(q) implies exists|i2: int|
                    0 <= i2 < self.store.vaults@.len() && (#[trigger] self.store.vaults@[i2]).deposit_outpoint
                        == q by {
                    let k = choose|i2: int|
                        0 <= i2 < old(self).store.vaults@.len() && (
                        #[trigger] old(self).store.vaults@[i2]).deposit_outpoint == q;
                    assert(self.store.vaults@[k].deposit_outpoint == q);
                }
                assert forall|q: TxRef| #[trigger] self.unvaults.has(q) implies q.vout == 0
                    && exists|i2: int|
                    0 <= i2 < self.store.vaults@.len() && (#[trigger] self.store.vaults@[i2]).unvault_txid()
                        == Some(q.txid) by {
                    let k = choose|i2: int|
                        0 <= i2 < old(self).store.vaults@.len() && (
                        #[trigger] old(self).store.vaults@[i2]).unvault_txid() == Some(q.txid);
                    assert(self.store.vaults@[k].unvault_txid() == Some(q.txid));
                }
            }
            RewindHints {
                applied: true,
                rebroadcast_deposit: Some(op.txid),
                rebroadcast_unvault: None,
                rebroadcast_cancel: None,
            }
        } else if st.past_unvault() {
            let mut h = self.unconfirm_unvault_step(op, utxo, now);
            h.rebroadcast_deposit = Some(op.txid);
            h
        } else if !matches!(st, VaultStatus::Unconfirmed) {
            // An emergency-path vault is left as stored, but the deposit
            // transaction is still re-announced to the node wallet.
            RewindHints {
                applied: false,
                rebroadcast_deposit: Some(op.txid),
                rebroadcast_unvault: None,
                rebroadcast_cancel: None,
            }
        } else {
            RewindHints::none()
        }
    }

    /// Only the Spend lost its confirmation in a reorg: `Spent` rewinds to
    /// `Spending` and its draft is flagged for rebroadcast at the next tip
    /// event.
    pub fn unconfirm_spend_step(&mut self, op: TxRef, now: u64) -> (r: bool)
        requires
            old(self).wf(),
            old(self).coherent(),
        ensures
            final(self).wf(),
            final(self).coherent(),
            final(self).store.tip == old(self).store.tip,
            final(self).store.deposit_index == old(self).store.deposit_index,
            final(self).deposits == old(self).deposits,
            final(self).unvaults == old(self).unvaults,
            final(self).store.vaults@.len() == old(self).store.vaults@.len(),
            forall|i: int|
                0 <= i < old(self).store.vaults@.len() && (
                #[trigger] old(self).store.vaults@[i]).deposit_outpoint != op
                    ==> final(self).store.vaults@[i] == old(self).store.vaults@[i],
            forall|i: int|
                0 <= i < old(self).store.vaults@.len() && (
                #[trigger] old(self).store.vaults@[i]).deposit_outpoint == op
                    ==> final(self).store.vaults@[i] == (if old(self).store.vaults@[i].status
                    == VaultStatus::Spent {
                    with_status(old(self).store.vaults@[i], VaultStatus::Spending, now)
                } else {
                    old(self).store.vaults@[i]
                }),
            r == exists|i: int|
                0 <= i < old(self).store.vaults@.len() && (
                #[trigger] old(self).store.vaults@[i]).deposit_outpoint == op && old(
                    self,
                ).store.vaults@[i].status == VaultStatus::Spent,
            final(self).store.spends@ == (if old(self).store.has_vault(op)
                && crate::store::vault_at(old(self).store, op).status == VaultStatus::Spent {
                crate::store::spec_flag_spends(
                    old(self).store.spends@,
                    crate::store::vault_at(old(self).store, op).unvault_txid()->Some_0,
                )
            } else {
                old(self).store.spends@
            }),
    {
        let i = match self.store.find_by_deposit(op) {
            Some(i) => i,
            None => {
                return false;
            },
        };
        proof {
            crate::store::lemma_vault_at(old(self).store, op, i as int);
        }
        if !matches!(self.store.vaults[i].status, VaultStatus::Spent) {
            return false;
        }
        let u: u64 = match &self.store.vaults[i].presigned {
            Some(p) => p.unvault.txid,
            None => {
                proof {
                    assert(old(self).store.vaults@[i as int].wf());
                    assert(false);
                }
                0
            },
        };
        self.store.unconfirm_spend(op, now);
        self.store.mark_rebroadcastable_spend(u);
        proof {
            assert(self.store.spends@ =~= crate::store::spec_flag_spends(
                old(self).store.spends@,
                u,
            ));
            assert forall|k: int| 0 <= k < self.store.vaults@.len() implies self.vault_cache_ok(
                #[trigger] self.store.vaults@[k],
            ) by {
                assert(old(self).vault_cache_ok(old(self).store.vaults@[k]));
            }
            assert forall|q: TxRef| #[trigger] self.deposits.has(q) implies exists|i2: int|
                0 <= i2 < self.store.vaults@.len() && (#[trigger] self.store.vaults@[i2]).deposit_outpoint
                    == q by {
                let k = choose|i2: int|
                    0 <= i2 < old(self).store.vaults@.len() && (
                    #[trigger] old(self).store.vaults@[i2]).deposit_outpoint == q;
                assert(self.store.vaults@[k].deposit_outpoint == q);
            }
            assert forall|q: TxRef| #[trigger] self.unvaults.has(q) implies q.vout == 0
                && exists|i2: int|
                0 <= i2 < self.store.vaults@.len() && (#[trigger] self.store.vaults@[i2]).unvault_txid()
                    == Some(q.txid) by {
                let k = choose|i2: int|
                    0 <= i2 < old(self).store.vaults@.len() && (
                    #[trigger] old(self).store.vaults@[i2]).unvault_txid() == Some(q.txid);
                assert(self.store.vaults@[k].unvault_txid() == Some(q.txid));
            }
        }
        true
    }

    /// Only the Cancel lost its confirmation in a reorg: `Canceled`
    /// rewinds to `Canceling`; the shell re-announces the cancel.
    pub fn unconfirm_cancel_step(&mut self, op: TxRef, now: u64) -> (r: Option<u64>)
        requires
            old(self).wf(),
            old(self).coherent(),
        ensures
            final(self).wf(),
            final(self).coherent(),
            final(self).store.tip == old(self).store.tip,
            final(self).store.deposit_index == old(self).store.deposit_index,
            final(self).store.spends@ == old(self).store.spends@,
            final(self).deposits == old(self).deposits,
            final(self).unvaults == old(self).unvaults,
            final(self).store.vaults@.len() == old(self).store.vaults@.len(),
            forall|i: int|
                0 <= i < old(self).store.vaults@.len() && (
                #[trigger] old(self).store.vaults@[i]).deposit_outpoint != op
                    ==> final(self).store.vaults@[i] == old(self).store.vaults@[i],
            forall|i: int|
                0 <= i < old(self).store.vaults@.len() && (
                #[trigger] old(self).store.vaults@[i]).deposit_outpoint == op
                    ==> final(self).store.vaults@[i] == (if old(self).store.vaults@[i].status
                    == VaultStatus::Canceled {
                    with_status(old(self).store.vaults@[i], VaultStatus::Canceling, now)
                } else {
                    old(self).store.vaults@[i]
                }),
            (r is Some) == exists|i: int|
                0 <= i < old(self).store.vaults@.len() && (
                #[trigger] old(self).store.vaults@[i]).deposit_outpoint == op && old(
                    self,
                ).store.vaults@[i].status == VaultStatus::Canceled,
            r is Some ==> exists|i: int|
                0 <= i < old(self).store.vaults@.len() && (
                #[trigger] old(self).store.vaults@[i]).deposit_outpoint == op && r == old(
                    self,
                ).store.vaults@[i].cancel_txid(),
    {
        let i = match self.store.find_by_deposit(op) {
            Some(i) => i,
            None => {
                return None;
            },
        };
        if !matches!(self.store.vaults[i].status, VaultStatus::Canceled) {
            return None;
        }
        let ctx: u64 = match &self.store.vaults[i].presigned {
            Some(p) => p.cancel.txid,
            None => {
                proof {
                    assert(old(self).store.vaults@[i as int].wf());
                    assert(false);
                }
                0
            },
        };
        self.store.unconfirm_cancel(op, now);
        proof {
            assert forall|k: int| 0 <= k < self.store.vaults@.len() implies self.vault_cache_ok(
                #[trigger] self.store.vaults@[k],
            ) by {
                assert(old(self).vault_cache_ok(old(self).store.vaults@[k]));
            }
            assert forall|q: TxRef| #[trigger] self.deposits.has(q) implies exists|i2: int|
                0 <= i2 < self.store.vaults@.len() && (#[trigger] self.store.vaults@[i2]).deposit_outpoint
                    == q by {
                let k = choose|i2: int|
                    0 <= i2 < old(self).store.vaults@.len() && (
                    #[trigger] old(self).store.vaults@[i2]).deposit_outpoint == q;
                assert(self.store.vaults@[k].deposit_outpoint == q);
            }
            assert forall|q: TxRef| #[trigger] self.unvaults.has(q) implies q.vout == 0
                && exists|i2: int|
                0 <= i2 < self.store.vaults@.len() && (#[trigger] self.store.vaults@[i2]).unvault_txid()
                    == Some(q.txid) by {
                let k = choose|i2: int|
                    0 <= i2 < old(self).store.vaults@.len() && (
                    #[trigger] old(self).store.vaults@[i2]).unvault_txid() == Some(q.txid);
                assert(self.store.vaults@[k].unvault_txid() == Some(q.txid));
            }
        }
        Some(ctx)
    }
}

} // verus!
