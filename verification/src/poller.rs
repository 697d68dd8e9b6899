//! The chain poller's decisions: the sync gate, tip tracking, spender
//! classification, and the per-tick drivers that replay the node's
//! `listunspent` diffs against the coordinator.
//!
//! The shell queries the node and hands every answer in as a plain
//! observation; everything that is decided from those answers is decided
//! here.

use vstd::prelude::*;

use crate::state::{forward_vaults, spent_vault, ChainState, Spender};
use crate::status::VaultStatus;
use crate::store::{
    can_record_spender, funded_vault, new_unconfirmed_vault, seq_has_vault, spending_vault,
    with_status, with_status_no_spender,
};
use crate::types::{BlockchainTip, Network, TxObs, TxRef, UtxoInfo, DUST_LIMIT};
use crate::vault::{PresignedSet, Vault};

verus! {

/// What `update_tip` decided about the node's tip against the stored one.
#[derive(Clone, Copy, PartialEq, Eq, Structural, Debug)]
pub enum TipUpdate {
    /// Same tip: nothing to do.
    Unchanged,
    /// Strictly forward on the same chain: run the new-tip event.
    Forward,
    /// Anything else: a reorg; run the comprehensive rescan.
    Reorg,
}

/// The tip comparison of `update_tip`: forward only when the node's tip is
/// strictly higher and the stored tip's hash is still in the best chain
/// (or nothing was stored yet).
pub open spec fn spec_tip_decision(
    stored: BlockchainTip,
    node_tip: BlockchainTip,
    hash_at_stored_height: u64,
) -> TipUpdate {
    if node_tip == stored {
        TipUpdate::Unchanged
    } else if node_tip.height > stored.height && (hash_at_stored_height == stored.hash
        || stored.height == 0) {
        TipUpdate::Forward
    } else {
        TipUpdate::Reorg
    }
}

/// Executable twin of [`spec_tip_decision`].
#[verifier::when_used_as_spec(spec_tip_decision)]
pub fn tip_decision(stored: BlockchainTip, node_tip: BlockchainTip, hash_at_stored_height: u64) -> (
    r: TipUpdate)
    ensures
        r == spec_tip_decision(stored, node_tip, hash_at_stored_height),
{
    if node_tip == stored {
        TipUpdate::Unchanged
    } else if node_tip.height > stored.height && (hash_at_stored_height == stored.hash
        || stored.height == 0) {
        TipUpdate::Forward
    } else {
        TipUpdate::Reorg
    }
}

/// The BIP 70 chain name a node reports for each network; the startup
/// sanity check compares it with the configured network's.
pub fn bip70_name(n: Network) -> (r: &'static str)
    ensures
        n == Network::Bitcoin ==> r@ == "main"@,
        n == Network::Testnet ==> r@ == "test"@,
        n == Network::Regtest ==> r@ == "regtest"@,
        n == Network::Signet ==> r@ == "signet"@,
{
    match n {
        Network::Bitcoin => "main",
        Network::Testnet => "test",
        Network::Regtest => "regtest",
        Network::Signet => "signet",
    }
}

/// The startup sanity check: the node must sit on the configured
/// network; a mismatch is fatal.
pub fn check_network(configured: Network, node_chain: Network) -> (r: bool)
    ensures
        r == (configured == node_chain),
{
    configured == node_chain
}

/// The node is synced once its rounded verification progress reaches one:
/// `progress_e5` is the progress scaled by `10^5`, plus one.
pub fn progress_synced(progress_e5: u64) -> (r: bool)
    ensures
        r == (progress_e5 / 100000 >= 1),
{
    progress_e5 / 100000 >= 1
}

/// How long to sleep before polling the syncing node again: five minutes
/// while it gathers headers early in its initial block download (three
/// seconds on regtest), otherwise a second per forty missing blocks with a
/// five-second floor.
pub fn sync_wait_secs(
    first_poll: bool,
    ibd: bool,
    progress_e5: u64,
    regtest: bool,
    headers: u64,
    blocks: u64,
) -> (r: u64)
    ensures
        first_poll && ibd && progress_e5 < 1000 ==> r == (if regtest {
            3u64
        } else {
            300u64
        }),
        !(first_poll && ibd && progress_e5 < 1000) ==> {
            let delta: u64 = if headers > blocks {
                (headers - blocks) as u64
            } else {
                0u64
            };
            r == (if delta / 40 > 5 {
                delta / 40
            } else {
                5u64
            })
        },
{
    if first_poll && ibd && progress_e5 < 1000 {
        if regtest {
            3
        } else {
            300
        }
    } else {
        let delta: u64 = if headers > blocks {
            headers - blocks
        } else {
            0
        };
        let est: u64 = delta / 40;
        if est > 5 {
            est
        } else {
            5
        }
    }
}

/// What to do about the watchonly wallet file at boot.
#[derive(Clone, Copy, PartialEq, Eq, Structural, Debug)]
pub struct WalletBootPlan {
    /// The wallet file does not exist yet: create it and import the
    /// descriptors for the whole known derivation range.
    pub create: bool,
    /// The wallet was created moments ago: import with a fresh timestamp
    /// instead of the stored birth timestamp.
    pub fresh: bool,
}

/// Decide the wallet-creation step: a wallet is fresh when its recorded
/// birth lies less than thirty seconds in the past.
pub fn wallet_boot_plan(file_exists: bool, now: u64, wallet_timestamp: u64) -> (r: WalletBootPlan)
    requires
        wallet_timestamp <= now,
    ensures
        r.create == !file_exists,
        r.fresh == (now - wallet_timestamp < 30),
{
    WalletBootPlan { create: !file_exists, fresh: now - wallet_timestamp < 30 }
}

/// How to treat the wallet-load step, from how many times the watchonly
/// wallet is already loaded on the node.
#[derive(Clone, Copy, PartialEq, Eq, Structural, Debug)]
pub enum WalletLoad {
    /// Not loaded: load it.
    Load,
    /// Loaded exactly once: nothing to do.
    AlreadyLoaded,
    /// Loaded several times: refuse to run.
    Conflict,
}

/// Decide the wallet-load step.
pub fn wallet_load_action(n_loaded: usize) -> (r: WalletLoad)
    ensures
        n_loaded == 0 ==> r == WalletLoad::Load,
        n_loaded == 1 ==> r == WalletLoad::AlreadyLoaded,
        n_loaded > 1 ==> r == WalletLoad::Conflict,
{
    if n_loaded == 0 {
        WalletLoad::Load
    } else if n_loaded == 1 {
        WalletLoad::AlreadyLoaded
    } else {
        WalletLoad::Conflict
    }
}

/// The wallet's view of a possible spender of an unvault output.
#[derive(Clone, Copy, PartialEq, Eq, Debug)]
pub struct SpenderObs {
    /// The node wallet knows the expected Cancel transaction.
    pub cancel_in_wallet: bool,
    /// The wallet's view of the Cancel: height and mempool presence.
    pub cancel: TxObs,
    /// What `get_spender_txid` returned for the unvault outpoint.
    pub spender_txid: Option<u64>,
    /// The wallet's view of that spender transaction.
    pub spender: TxObs,
}

/// Spender classification: a Cancel the wallet sees confirmed or in the
/// mempool wins (the stakeholders' safety bias); otherwise a spender the
/// node names and sees is a Spend; otherwise the spender is unknown this
/// tick.
pub open spec fn spec_classify_spender(cancel_txid: u64, obs: SpenderObs) -> Option<Spender> {
    if obs.cancel_in_wallet && obs.cancel.spec_is_present() {
        Some(Spender::Cancel(cancel_txid))
    } else {
        match obs.spender_txid {
            Some(t) => if obs.spender.spec_is_present() {
                Some(Spender::Spend(t))
            } else {
                None
            },
            None => None,
        }
    }
}

/// Executable twin of [`spec_classify_spender`].
#[verifier::when_used_as_spec(spec_classify_spender)]
pub fn classify_spender(cancel_txid: u64, obs: SpenderObs) -> (r: Option<Spender>)
    ensures
        r == spec_classify_spender(cancel_txid, obs),
{
    if obs.cancel_in_wallet && obs.cancel.is_present() {
        return Some(Spender::Cancel(cancel_txid));
    }
    match obs.spender_txid {
        Some(t) => {
            if obs.spender.is_present() {
                Some(Spender::Spend(t))
            } else {
                None
            }
        },
        None => None,
    }
}

/// One output of a `listunspent` diff.
#[derive(Clone, Copy, PartialEq, Eq, Structural, Debug)]
pub struct DiffEntry {
    pub outpoint: TxRef,
    pub utxo: UtxoInfo,
}

/// A spent unvault output together with its classified spender.
#[derive(Clone, Copy, PartialEq, Eq, Debug)]
pub struct SpentUnvaultObs {
    pub outpoint: TxRef,
    /// Result of the spender classification (§ spender observation).
    pub spender: Option<Spender>,
    /// The classified spender already has a block height.
    pub spender_confirmed: bool,
}

/// One vault after the fresh unvault outputs of a tick: each matching
/// entry steps an `Active` vault to `Unvaulting`.
pub open spec fn replay_unvault_broadcasts(v: Vault, es: Seq<DiffEntry>, now: u64) -> Vault
    decreases es.len(),
{
    if es.len() == 0 {
        v
    } else {
        let v1 = replay_unvault_broadcasts(v, es.drop_last(), now);
        let e = es.last();
        if v1.unvault_txid() == Some(e.outpoint.txid) && e.outpoint.vout == 0 && v1.status
            == VaultStatus::Active {
            with_status(v1, VaultStatus::Unvaulting, now)
        } else {
            v1
        }
    }
}

/// One vault after the unvault confirmations of a tick: a tracked
/// (`Unvaulting`/`Unvaulted`) vault whose unvault output is listed
/// becomes `Unvaulted`.
pub open spec fn replay_unvault_confirms(v: Vault, os: Seq<TxRef>, now: u64) -> Vault
    decreases os.len(),
{
    if os.len() == 0 {
        v
    } else {
        let v1 = replay_unvault_confirms(v, os.drop_last(), now);
        let o = os.last();
        if v1.unvault_txid() == Some(o.txid) && o.vout == 0 && v1.status.spec_in_unvault_set() {
            with_status_no_spender(v1, VaultStatus::Unvaulted, now)
        } else {
            v1
        }
    }
}

/// One vault after the spent unvault outputs of a tick: a classified
/// spender records `Canceling`/`Spending`, promoted at once to
/// `Canceled`/`Spent` when it already sits in a block; an unclassified
/// one changes nothing.
pub open spec fn replay_spent_unvaults(v: Vault, es: Seq<SpentUnvaultObs>, now: u64) -> Vault
    decreases es.len(),
{
    if es.len() == 0 {
        v
    } else {
        let v1 = replay_spent_unvaults(v, es.drop_last(), now);
        let e = es.last();
        if v1.unvault_txid() == Some(e.outpoint.txid) && e.outpoint.vout == 0
            && can_record_spender(v1.status) && e.spender is Some {
            match e.spender->Some_0 {
                Spender::Cancel(_c) => with_status_no_spender(
                    v1,
                    if e.spender_confirmed {
                        VaultStatus::Canceled
                    } else {
                        VaultStatus::Canceling
                    },
                    now,
                ),
                Spender::Spend(t) => if e.spender_confirmed {
                    spent_vault(v1, t, now)
                } else {
                    spending_vault(v1, t, now)
                },
            }
        } else {
            v1
        }
    }
}

/// One vault after a whole `sync_unvaults` diff, in the poller's strict
/// order: fresh outputs, then confirmations, then spent outputs.
pub open spec fn replay_unvault_diff(
    v: Vault,
    new_unconf: Seq<DiffEntry>,
    new_conf: Seq<TxRef>,
    spent: Seq<SpentUnvaultObs>,
    now: u64,
) -> Vault {
    replay_spent_unvaults(
        replay_unvault_confirms(replay_unvault_broadcasts(v, new_unconf, now), new_conf, now),
        spent,
        now,
    )
}

/// Replay a `sync_unvaults` diff, in the poller's strict order: fresh
/// unvault outputs, then confirmations, then spent outputs with their
/// classified spenders. Every vault row ends exactly as
/// [`replay_unvault_diff`] says.
pub fn update_unvaults(
    state: &mut ChainState,
    new_unconf: &Vec<DiffEntry>,
    new_conf: &Vec<TxRef>,
    spent: &Vec<SpentUnvaultObs>,
    now: u64,
)
    requires
        old(state).wf(),
        old(state).coherent(),
    ensures
        final(state).wf(),
        final(state).coherent(),
        forward_vaults(old(state).store.vaults@, final(state).store.vaults@),
        final(state).store.tip == old(state).store.tip,
        final(state).store.deposit_index == old(state).store.deposit_index,
        final(state).store.spends@ == old(state).store.spends@,
        final(state).store.vaults@.len() == old(state).store.vaults@.len(),
        forall|i: int|
            0 <= i < old(state).store.vaults@.len() ==> #[trigger] final(state).store.vaults@[i]
                == replay_unvault_diff(
                old(state).store.vaults@[i],
                new_unconf@,
                new_conf@,
                spent@,
                now,
            ),
{
    let mut k: usize = 0;
    while k < new_unconf.len()
        invariant
            state.wf(),
            state.coherent(),
            forward_vaults(old(state).store.vaults@, state.store.vaults@),
            state.store.tip == old(state).store.tip,
            state.store.deposit_index == old(state).store.deposit_index,
            state.store.spends@ == old(state).store.spends@,
            state.store.vaults@.len() == old(state).store.vaults@.len(),
            k <= new_unconf@.len(),
            forall|i: int|
                0 <= i < old(state).store.vaults@.len() ==> #[trigger] state.store.vaults@[i]
                    == replay_unvault_broadcasts(
                    old(state).store.vaults@[i],
                    new_unconf@.take(k as int),
                    now,
                ),
        decreases new_unconf@.len() - k,
    {
        let ghost pre = *state;
        let e = new_unconf[k];
        state.apply_unvault_broadcast(e.outpoint, e.utxo, now);
        proof {
            assert(new_unconf@.take(k + 1).drop_last() =~= new_unconf@.take(k as int));
            assert(new_unconf@.take(k + 1).last() == new_unconf@[k as int]);
            assert forall|i: int|
                0 <= i < old(state).store.vaults@.len() implies #[trigger] state.store.vaults@[i]
                == replay_unvault_broadcasts(
                old(state).store.vaults@[i],
                new_unconf@.take(k + 1),
                now,
            ) by {
                if pre.store.vaults@[i].unvault_txid() != Some(e.outpoint.txid) {
                    assert(state.store.vaults@[i] == pre.store.vaults@[i]);
                }
            }
        }
        k = k + 1;
    }
    proof {
        assert(new_unconf@.take(new_unconf@.len() as int) =~= new_unconf@);
    }
    let ghost s_a = *state;
    let mut k: usize = 0;
    while k < new_conf.len()
        invariant
            state.wf(),
            state.coherent(),
            forward_vaults(s_a.store.vaults@, state.store.vaults@),
            forward_vaults(old(state).store.vaults@, s_a.store.vaults@),
            state.store.tip == s_a.store.tip,
            state.store.deposit_index == s_a.store.deposit_index,
            state.store.spends@ == s_a.store.spends@,
            state.store.vaults@.len() == s_a.store.vaults@.len(),
            k <= new_conf@.len(),
            forall|i: int|
                0 <= i < s_a.store.vaults@.len() ==> #[trigger] state.store.vaults@[i]
                    == replay_unvault_confirms(
                    s_a.store.vaults@[i],
                    new_conf@.take(k as int),
                    now,
                ),
        decreases new_conf@.len() - k,
    {
        let ghost pre = *state;
        let o = new_conf[k];
        state.apply_unvault_confirmed(o, now);
        proof {
            assert(new_conf@.take(k + 1).drop_last() =~= new_conf@.take(k as int));
            assert(new_conf@.take(k + 1).last() == new_conf@[k as int]);
            assert forall|i: int|
                0 <= i < s_a.store.vaults@.len() implies #[trigger] state.store.vaults@[i]
                == replay_unvault_confirms(s_a.store.vaults@[i], new_conf@.take(k + 1), now) by {
                if pre.store.vaults@[i].unvault_txid() != Some(o.txid) {
                    assert(state.store.vaults@[i] == pre.store.vaults@[i]);
                }
            }
        }
        k = k + 1;
    }
    proof {
        assert(new_conf@.take(new_conf@.len() as int) =~= new_conf@);
    }
    let ghost s_b = *state;
    let mut k: usize = 0;
    while k < spent.len()
        invariant
            state.wf(),
            state.coherent(),
            forward_vaults(s_b.store.vaults@, state.store.vaults@),
            forward_vaults(old(state).store.vaults@, s_b.store.vaults@),
            state.store.tip == s_b.store.tip,
            state.store.deposit_index == s_b.store.deposit_index,
            state.store.spends@ == s_b.store.spends@,
            state.store.vaults@.len() == s_b.store.vaults@.len(),
            k <= spent@.len(),
            forall|i: int|
                0 <= i < s_b.store.vaults@.len() ==> #[trigger] state.store.vaults@[i]
                    == replay_spent_unvaults(s_b.store.vaults@[i], spent@.take(k as int), now),
        decreases spent@.len() - k,
    {
        let ghost pre = *state;
        let e = spent[k];
        state.apply_spent_unvault(e.outpoint, e.spender, e.spender_confirmed, now);
        proof {
            assert(spent@.take(k + 1).drop_last() =~= spent@.take(k as int));
            assert(spent@.take(k + 1).last() == spent@[k as int]);
            assert forall|i: int|
                0 <= i < s_b.store.vaults@.len() implies #[trigger] state.store.vaults@[i]
                == replay_spent_unvaults(s_b.store.vaults@[i], spent@.take(k + 1), now) by {
                if pre.store.vaults@[i].unvault_txid() != Some(e.outpoint.txid) {
                    assert(state.store.vaults@[i] == pre.store.vaults@[i]);
                }
            }
        }
        k = k + 1;
    }
    proof {
        assert(spent@.take(spent@.len() as int) =~= spent@);
    }
}

/// A fresh deposit output with its resolved derivation index (`None` when
/// the script is unknown to the derivation map: a consistency error, the
/// entry is skipped).
#[derive(Clone, Copy, PartialEq, Eq, Debug)]
pub struct NewDepositObs {
    pub outpoint: TxRef,
    pub utxo: UtxoInfo,
    pub derivation_index: Option<u32>,
    pub received_at: u64,
}

/// A deposit reported confirmed: its block height (it may have vanished
/// again in between) and the freshly derived presigned chain (`None` when
/// the builder failed; retried next tick).
pub struct ConfirmDepositObs {
    pub outpoint: TxRef,
    pub height: Option<u32>,
    pub chain: Option<PresignedSet>,
}

/// A deposit output that disappeared from `listunspent`, with everything
/// the wallet could say about its expected unvault transaction.
#[derive(Clone, Copy, PartialEq, Eq, Debug)]
pub struct SpentDepositObs {
    pub outpoint: TxRef,
    /// The wallet knows the unvault transaction.
    pub unvault_in_wallet: bool,
    /// The wallet's view of the unvault transaction.
    pub unvault: TxObs,
    /// Spender classification of the unvault outpoint, when the unvault is
    /// known.
    pub spender: Option<Spender>,
    pub spender_confirmed: bool,
    /// The unvault output, for re-tracking.
    pub unvault_txo: UtxoInfo,
}

/// The largest unhardened derivation index.
pub const MAX_DERIVATION_INDEX: u32 = 0x7FFF_FFFF;

/// The vault rows and the derivation cursor after the fresh deposits of
/// a tick: each non-dust deposit at a known script and a fresh outpoint
/// adds one `Unconfirmed` row, and a deposit at an index at or past the
/// cursor advances the cursor just past that index.
pub open spec fn replay_new_deposits(
    vs: Seq<Vault>,
    index: u32,
    es: Seq<NewDepositObs>,
    now: u64,
) -> (Seq<Vault>, u32)
    decreases es.len(),
{
    if es.len() == 0 {
        (vs, index)
    } else {
        let r1 = replay_new_deposits(vs, index, es.drop_last(), now);
        let e = es.last();
        match e.derivation_index {
            None => r1,
            Some(d) => if e.utxo.value > DUST_LIMIT && !seq_has_vault(r1.0, e.outpoint) {
                (
                    r1.0.push(
                        new_unconfirmed_vault(e.outpoint, e.utxo.value, d, e.received_at, now),
                    ),
                    if d >= r1.1 && d < MAX_DERIVATION_INDEX {
                        (d + 1) as u32
                    } else {
                        r1.1
                    },
                )
            } else {
                r1
            },
        }
    }
}

/// A confirmation entry is applied only when its freshly derived chain's
/// unvault txid collides with no other vault's.
pub open spec fn confirm_entry_applies(vs: Seq<Vault>, e: ConfirmDepositObs) -> bool {
    forall|k: int|
        0 <= k < vs.len() && (#[trigger] vs[k]).unvault_txid() == Some(
            e.chain->Some_0.unvault.txid,
        ) ==> vs[k].deposit_outpoint == e.outpoint
}

/// The vault rows after the deposit confirmations of a tick: an entry
/// carrying a height and a derived chain promotes its `Unconfirmed` row
/// to `Funded`, storing the chain atomically; an entry whose height
/// vanished or whose builder failed changes nothing (retried next tick).
pub open spec fn replay_deposit_confirms(
    vs: Seq<Vault>,
    es: Seq<ConfirmDepositObs>,
    now: u64,
) -> Seq<Vault>
    decreases es.len(),
{
    if es.len() == 0 {
        vs
    } else {
        let vs1 = replay_deposit_confirms(vs, es.drop_last(), now);
        let e = es.last();
        match (e.height, e.chain) {
            (Some(h), Some(chain)) => if confirm_entry_applies(vs1, es.last()) {
                Seq::new(
                    vs1.len(),
                    |i: int|
                        if vs1[i].deposit_outpoint == e.outpoint && vs1[i].status
                            == VaultStatus::Unconfirmed {
                            funded_vault(vs1[i], h, chain, now)
                        } else {
                            vs1[i]
                        },
                )
            } else {
                vs1
            },
            _ => vs1,
        }
    }
}

/// One vault after one spent-deposit resolution: while the daemon runs a
/// deposit only disappears by being spent by its unvault, so a vault
/// whose unvault output is already tracked is left to the unvault diff;
/// otherwise the wallet's view of the unvault decides, possibly skipping
/// through `Unvaulted` into `Spending`/`Canceling`; a deposit that
/// vanished with no unvault in sight is kept for the next poll.
pub open spec fn spent_deposit_step(v: Vault, e: SpentDepositObs, now: u64) -> Vault {
    if v.deposit_outpoint != e.outpoint {
        v
    } else {
        match v.presigned {
            None => v,
            Some(_p) => if v.status.spec_in_unvault_set() {
                v
            } else if e.unvault_in_wallet {
                match e.spender {
                    Some(sp) => if can_record_spender(v.status) {
                        match sp {
                            Spender::Cancel(_c) => with_status_no_spender(
                                v,
                                if e.spender_confirmed {
                                    VaultStatus::Canceled
                                } else {
                                    VaultStatus::Canceling
                                },
                                now,
                            ),
                            Spender::Spend(t) => if e.spender_confirmed {
                                spent_vault(v, t, now)
                            } else {
                                spending_vault(v, t, now)
                            },
                        }
                    } else {
                        v
                    },
                    None => if v.status == VaultStatus::Active {
                        if e.unvault.height is Some {
                            with_status_no_spender(v, VaultStatus::Unvaulted, now)
                        } else {
                            with_status(v, VaultStatus::Unvaulting, now)
                        }
                    } else {
                        v
                    },
                }
            } else {
                v
            },
        }
    }
}

/// One vault after all the spent-deposit resolutions of a tick.
pub open spec fn replay_spent_deposits(v: Vault, es: Seq<SpentDepositObs>, now: u64) -> Vault
    decreases es.len(),
{
    if es.len() == 0 {
        v
    } else {
        spent_deposit_step(replay_spent_deposits(v, es.drop_last(), now), es.last(), now)
    }
}

/// The whole store after a `sync_deposits` diff: fresh deposits first,
/// then confirmations, then spent deposits, each phase over the previous
/// phase's rows.
pub open spec fn replay_deposit_diff(
    vs: Seq<Vault>,
    index: u32,
    new_unconf: Seq<NewDepositObs>,
    new_conf: Seq<ConfirmDepositObs>,
    spent: Seq<SpentDepositObs>,
    now: u64,
) -> (Seq<Vault>, u32) {
    let r1 = replay_new_deposits(vs, index, new_unconf, now);
    let vs2 = replay_deposit_confirms(r1.0, new_conf, now);
    (Seq::new(vs2.len(), |i: int| replay_spent_deposits(vs2[i], spent, now)), r1.1)
}

/// Replay a `sync_deposits` diff: fresh deposits (advancing the
/// derivation cursor past any index just used), confirmations with their
/// derived chains, and deposits whose output was spent. The store ends
/// exactly as [`replay_deposit_diff`] says, and `advanced` reports
/// whether the cursor moved.
pub fn update_deposits(
    state: &mut ChainState,
    new_unconf: &Vec<NewDepositObs>,
    new_conf: Vec<ConfirmDepositObs>,
    spent: &Vec<SpentDepositObs>,
    now: u64,
) -> (advanced: bool)
    requires
        old(state).wf(),
        old(state).coherent(),
    ensures
        final(state).wf(),
        final(state).coherent(),
        forward_vaults(old(state).store.vaults@, final(state).store.vaults@),
        final(state).store.tip == old(state).store.tip,
        final(state).store.spends@ == old(state).store.spends@,
        final(state).store.vaults@ == replay_deposit_diff(
            old(state).store.vaults@,
            old(state).store.deposit_index,
            new_unconf@,
            new_conf@,
            spent@,
            now,
        ).0,
        final(state).store.deposit_index == replay_deposit_diff(
            old(state).store.vaults@,
            old(state).store.deposit_index,
            new_unconf@,
            new_conf@,
            spent@,
            now,
        ).1,
        final(state).store.deposit_index >= old(state).store.deposit_index,
        advanced == (final(state).store.deposit_index != old(state).store.deposit_index),
{
    let ghost es_conf = new_conf@;
    let mut advanced = false;
    let mut k: usize = 0;
    while k < new_unconf.len()
        invariant
            state.wf(),
            state.coherent(),
            forward_vaults(old(state).store.vaults@, state.store.vaults@),
            state.store.tip == old(state).store.tip,
            state.store.spends@ == old(state).store.spends@,
            state.store.deposit_index >= old(state).store.deposit_index,
            k <= new_unconf@.len(),
            state.store.vaults@ == replay_new_deposits(
                old(state).store.vaults@,
                old(state).store.deposit_index,
                new_unconf@.take(k as int),
                now,
            ).0,
            state.store.deposit_index == replay_new_deposits(
                old(state).store.vaults@,
                old(state).store.deposit_index,
                new_unconf@.take(k as int),
                now,
            ).1,
            advanced == (state.store.deposit_index != old(state).store.deposit_index),
        decreases new_unconf@.len() - k,
    {
        let e = new_unconf[k];
        proof {
            assert(new_unconf@.take(k + 1).drop_last() =~= new_unconf@.take(k as int));
            assert(new_unconf@.take(k + 1).last() == new_unconf@[k as int]);
        }
        if let Some(idx) = e.derivation_index {
            let inserted = state.apply_new_deposit(
                e.outpoint,
                e.utxo,
                idx,
                e.received_at,
                now,
            );
            if inserted && idx >= state.store.deposit_index && idx < MAX_DERIVATION_INDEX {
                state.advance_deposit_index(idx + 1);
                advanced = true;
            }
        }
        k = k + 1;
    }
    proof {
        assert(new_unconf@.take(new_unconf@.len() as int) =~= new_unconf@);
    }
    let ghost s_a = *state;
    let mut new_conf = new_conf;
    let ghost mut k: int = 0;
    while new_conf.len() > 0
        invariant
            state.wf(),
            state.coherent(),
            forward_vaults(s_a.store.vaults@, state.store.vaults@),
            state.store.tip == s_a.store.tip,
            state.store.spends@ == s_a.store.spends@,
            state.store.deposit_index == s_a.store.deposit_index,
            0 <= k <= es_conf.len(),
            new_conf@ == es_conf.skip(k),
            state.store.vaults@ == replay_deposit_confirms(
                s_a.store.vaults@,
                es_conf.take(k),
                now,
            ),
        decreases new_conf@.len(),
    {
        let ghost pre = *state;
        let e = new_conf.remove(0);
        let ghost ge = es_conf[k];
        proof {
            assert(es_conf.take(k + 1).drop_last() =~= es_conf.take(k));
            assert(es_conf.take(k + 1).last() == es_conf[k]);
            assert(new_conf@ =~= es_conf.skip(k + 1));
        }
        if let Some(height) = e.height {
            if let Some(chain) = e.chain {
                let conflict: bool = match state.store.find_by_unvault(chain.unvault.txid) {
                    Some(j) => !(state.store.vaults[j].deposit_outpoint == e.outpoint),
                    None => false,
                };
                proof {
                    if !conflict {
                        assert(confirm_entry_applies(pre.store.vaults@, ge));
                    } else {
                        let j = choose|j: int|
                            0 <= j < pre.store.vaults@.len() && (
                            #[trigger] pre.store.vaults@[j]).unvault_txid() == Some(
                                chain.unvault.txid,
                            ) && pre.store.vaults@[j].deposit_outpoint != ge.outpoint;
                        assert(!confirm_entry_applies(pre.store.vaults@, ge));
                    }
                }
                if !conflict {
                    state.confirm_deposit_with_chain(e.outpoint, height, chain, now);
                    proof {
                        assert(state.store.vaults@ =~= Seq::new(
                            pre.store.vaults@.len(),
                            |i: int|
                                if pre.store.vaults@[i].deposit_outpoint == ge.outpoint
                                    && pre.store.vaults@[i].status == VaultStatus::Unconfirmed {
                                    funded_vault(
                                        pre.store.vaults@[i],
                                        ge.height->Some_0,
                                        ge.chain->Some_0,
                                        now,
                                    )
                                } else {
                                    pre.store.vaults@[i]
                                },
                        ));
                    }
                }
            }
        }
        proof {
            k = k + 1;
        }
    }
    proof {
        assert(k == es_conf.len());
        assert(es_conf.take(es_conf.len() as int) =~= es_conf);
    }
    let ghost s_b = *state;
    let mut k: usize = 0;
    while k < spent.len()
        invariant
            state.wf(),
            state.coherent(),
            forward_vaults(s_b.store.vaults@, state.store.vaults@),
            state.store.tip == s_b.store.tip,
            state.store.spends@ == s_b.store.spends@,
            state.store.deposit_index == s_b.store.deposit_index,
            state.store.vaults@.len() == s_b.store.vaults@.len(),
            k <= spent@.len(),
            forall|i: int|
                0 <= i < s_b.store.vaults@.len() ==> #[trigger] state.store.vaults@[i]
                    == replay_spent_deposits(s_b.store.vaults@[i], spent@.take(k as int), now),
        decreases spent@.len() - k,
    {
        let e = spent[k];
        process_spent_deposit(state, e, now);
        proof {
            assert(spent@.take(k + 1).drop_last() =~= spent@.take(k as int));
            assert(spent@.take(k + 1).last() == spent@[k as int]);
        }
        k = k + 1;
    }
    proof {
        assert(spent@.take(spent@.len() as int) =~= spent@);
        assert(state.store.vaults@ =~= replay_deposit_diff(
            old(state).store.vaults@,
            old(state).store.deposit_index,
            new_unconf@,
            es_conf,
            spent@,
            now,
        ).0);
    }
    advanced
}

/// Resolve one deposit output that vanished from `listunspent`: the
/// vault row ends exactly as [`spent_deposit_step`] says, and nothing
/// else moves.
pub fn process_spent_deposit(state: &mut ChainState, e: SpentDepositObs, now: u64)
    requires
        old(state).wf(),
        old(state).coherent(),
    ensures
        final(state).wf(),
        final(state).coherent(),
        forward_vaults(old(state).store.vaults@, final(state).store.vaults@),
        final(state).store.tip == old(state).store.tip,
        final(state).store.deposit_index == old(state).store.deposit_index,
        final(state).store.spends@ == old(state).store.spends@,
        final(state).store.vaults@.len() == old(state).store.vaults@.len(),
        forall|i: int|
            0 <= i < old(state).store.vaults@.len() ==> #[trigger] final(state).store.vaults@[i]
                == spent_deposit_step(old(state).store.vaults@[i], e, now),
{
    let i = match state.store.find_by_deposit(e.outpoint) {
        Some(i) => i,
        None => {
            return ;
        },
    };
    let u: u64 = match &state.store.vaults[i].presigned {
        Some(p) => p.unvault.txid,
        None => {
            return ;
        },
    };
    let uop = crate::state::unvault_outpoint(u);
    if state.unvaults.contains(uop) {
        // Already spent by its unvault and handled by the unvault diff.
        proof {
            assert(old(state).vault_cache_ok(old(state).store.vaults@[i as int]));
            let w = choose|k: int|
                0 <= k < old(state).store.vaults@.len() && (
                #[trigger] old(state).store.vaults@[k]).unvault_txid() == Some(uop.txid);
            assert(w == i as int);
        }
        return ;
    }
    proof {
        assert(old(state).vault_cache_ok(old(state).store.vaults@[i as int]));
        assert(!old(state).store.vaults@[i as int].status.spec_in_unvault_set());
    }
    if e.unvault_in_wallet {
        match e.spender {
            Some(_) => {
                state.apply_spent_unvault(uop, e.spender, e.spender_confirmed, now);
            },
            None => {
                if e.unvault.height.is_some() {
                    state.apply_unvault_found_confirmed(uop, e.unvault_txo, now);
                } else {
                    state.apply_unvault_broadcast(uop, e.unvault_txo, now);
                }
            },
        }
    }
    // Otherwise the deposit either still looks confirmed or in the
    // mempool (a consistency error worth logging) or vanished without a
    // spender; the row and its cache entry are kept either way and the
    // next poll re-examines it.
}

/// One full `listunspent` synchronization, in the poller's strict order:
/// the unvault diff first (a spent deposit may already have been
/// explained by its unvault there), then the deposit diff over the
/// unvault diff's rows.
pub fn update_utxos(
    state: &mut ChainState,
    unvault_new: &Vec<DiffEntry>,
    unvault_conf: &Vec<TxRef>,
    unvault_spent: &Vec<SpentUnvaultObs>,
    deposit_new: &Vec<NewDepositObs>,
    deposit_conf: Vec<ConfirmDepositObs>,
    deposit_spent: &Vec<SpentDepositObs>,
    now: u64,
) -> (advanced: bool)
    requires
        old(state).wf(),
        old(state).coherent(),
    ensures
        final(state).wf(),
        final(state).coherent(),
        forward_vaults(old(state).store.vaults@, final(state).store.vaults@),
        final(state).store.tip == old(state).store.tip,
        final(state).store.spends@ == old(state).store.spends@,
        ({
            let vs1 = Seq::new(
                old(state).store.vaults@.len(),
                |i: int|
                    replay_unvault_diff(
                        old(state).store.vaults@[i],
                        unvault_new@,
                        unvault_conf@,
                        unvault_spent@,
                        now,
                    ),
            );
            let r = replay_deposit_diff(
                vs1,
                old(state).store.deposit_index,
                deposit_new@,
                deposit_conf@,
                deposit_spent@,
                now,
            );
            &&& final(state).store.vaults@ == r.0
            &&& final(state).store.deposit_index == r.1
        }),
        final(state).store.deposit_index >= old(state).store.deposit_index,
        advanced == (final(state).store.deposit_index != old(state).store.deposit_index),
{
    update_unvaults(state, unvault_new, unvault_conf, unvault_spent, now);
    proof {
        assert(state.store.vaults@ =~= Seq::new(
            old(state).store.vaults@.len(),
            |i: int|
                replay_unvault_diff(
                    old(state).store.vaults@[i],
                    unvault_new@,
                    unvault_conf@,
                    unvault_spent@,
                    now,
                ),
        ));
    }
    update_deposits(state, deposit_new, deposit_conf, deposit_spent, now)
}

/// The wallet's view of a `Spending` vault's Spend transaction at a new
/// tip.
#[derive(Clone, Copy, PartialEq, Eq, Structural, Debug)]
pub struct SpendCheckObs {
    pub unvault_txid: u64,
    pub spend: TxObs,
    pub unvault_txo: UtxoInfo,
}

/// One vault after the wallet's Spend checks at a new tip: a `Spending`
/// vault whose Spend now sits in a block becomes `Spent`; one whose
/// spender is out of the mempool without confirming is downgraded to
/// `Unvaulted`, forgetting the spender.
pub open spec fn replay_spend_checks(v: Vault, cs: Seq<SpendCheckObs>, now: u64) -> Vault
    decreases cs.len(),
{
    if cs.len() == 0 {
        v
    } else {
        let v1 = replay_spend_checks(v, cs.drop_last(), now);
        let c = cs.last();
        if v1.unvault_txid() == Some(c.unvault_txid) {
            if c.spend.height is Some {
                if v1.status == VaultStatus::Spending {
                    with_status(v1, VaultStatus::Spent, now)
                } else {
                    v1
                }
            } else if !c.spend.in_mempool {
                if v1.status == VaultStatus::Spending || v1.status == VaultStatus::Canceling {
                    with_status_no_spender(v1, VaultStatus::Unvaulted, now)
                } else {
                    v1
                }
            } else {
                v1
            }
        } else {
            v1
        }
    }
}

/// At a new tip: promote `Spending` vaults whose Spend now has a height;
/// downgrade to `Unvaulted` those whose Spend fell out of the mempool
/// without confirming. Every vault row ends exactly as
/// [`replay_spend_checks`] says.
pub fn mark_confirmed_spends(state: &mut ChainState, checks: &Vec<SpendCheckObs>, now: u64)
    requires
        old(state).wf(),
        old(state).coherent(),
    ensures
        final(state).wf(),
        final(state).coherent(),
        final(state).store.tip == old(state).store.tip,
        final(state).store.deposit_index == old(state).store.deposit_index,
        final(state).store.spends@ == old(state).store.spends@,
        final(state).store.vaults@.len() == old(state).store.vaults@.len(),
        forall|i: int|
            0 <= i < old(state).store.vaults@.len() ==> #[trigger] final(state).store.vaults@[i]
                == replay_spend_checks(old(state).store.vaults@[i], checks@, now),
        (forall|j: int|
            0 <= j < checks@.len() ==> (#[trigger] checks@[j]).spend.spec_is_present())
            ==> forward_vaults(old(state).store.vaults@, final(state).store.vaults@),
{
    let mut k: usize = 0;
    while k < checks.len()
        invariant
            state.wf(),
            state.coherent(),
            state.store.tip == old(state).store.tip,
            state.store.deposit_index == old(state).store.deposit_index,
            state.store.spends@ == old(state).store.spends@,
            state.store.vaults@.len() == old(state).store.vaults@.len(),
            k <= checks@.len(),
            forall|i: int|
                0 <= i < old(state).store.vaults@.len() ==> #[trigger] state.store.vaults@[i]
                    == replay_spend_checks(
                    old(state).store.vaults@[i],
                    checks@.take(k as int),
                    now,
                ),
            (forall|j: int|
                0 <= j < checks@.len() ==> (#[trigger] checks@[j]).spend.spec_is_present())
                ==> forward_vaults(old(state).store.vaults@, state.store.vaults@),
        decreases checks@.len() - k,
    {
        let ghost pre = *state;
        let e = checks[k];
        if e.spend.height.is_some() {
            state.confirm_spend(e.unvault_txid, now);
        } else if !e.spend.in_mempool {
            state.evict_spender(
                crate::state::unvault_outpoint(e.unvault_txid),
                e.unvault_txo,
                now,
            );
        }
        proof {
            assert(checks@.take(k + 1).drop_last() =~= checks@.take(k as int));
            assert(checks@.take(k + 1).last() == checks@[k as int]);
            assert forall|i: int|
                0 <= i < old(state).store.vaults@.len() implies #[trigger] state.store.vaults@[i]
                == replay_spend_checks(
                old(state).store.vaults@[i],
                checks@.take(k + 1),
                now,
            ) by {
                if pre.store.vaults@[i].unvault_txid() != Some(e.unvault_txid) {
                    assert(state.store.vaults@[i] == pre.store.vaults@[i]);
                }
            }
        }
        k = k + 1;
    }
    proof {
        assert(checks@.take(checks@.len() as int) =~= checks@);
    }
}

/// The wallet's view of a `Canceling` vault's Cancel transaction at a new
/// tip.
#[derive(Clone, Copy, PartialEq, Eq, Structural, Debug)]
pub struct CancelCheckObs {
    pub unvault_txid: u64,
    pub cancel: TxObs,
    pub unvault_txo: UtxoInfo,
}

/// One vault after the wallet's Cancel checks at a new tip: a
/// `Canceling` vault whose Cancel now sits in a block becomes
/// `Canceled`; one whose spender is out of the mempool is downgraded to
/// `Unvaulted`.
pub open spec fn replay_cancel_checks(v: Vault, cs: Seq<CancelCheckObs>, now: u64) -> Vault
    decreases cs.len(),
{
    if cs.len() == 0 {
        v
    } else {
        let v1 = replay_cancel_checks(v, cs.drop_last(), now);
        let c = cs.last();
        if v1.unvault_txid() == Some(c.unvault_txid) {
            if c.cancel.height is Some {
                if v1.status == VaultStatus::Canceling {
                    with_status(v1, VaultStatus::Canceled, now)
                } else {
                    v1
                }
            } else if !c.cancel.in_mempool {
                if v1.status == VaultStatus::Spending || v1.status == VaultStatus::Canceling {
                    with_status_no_spender(v1, VaultStatus::Unvaulted, now)
                } else {
                    v1
                }
            } else {
                v1
            }
        } else {
            v1
        }
    }
}

/// At a new tip: promote `Canceling` vaults whose Cancel now has a
/// height; downgrade those whose Cancel fell out of the mempool. Every
/// vault row ends exactly as [`replay_cancel_checks`] says.
pub fn mark_confirmed_cancels(state: &mut ChainState, checks: &Vec<CancelCheckObs>, now: u64)
    requires
        old(state).wf(),
        old(state).coherent(),
    ensures
        final(state).wf(),
        final(state).coherent(),
        final(state).store.tip == old(state).store.tip,
        final(state).store.deposit_index == old(state).store.deposit_index,
        final(state).store.spends@ == old(state).store.spends@,
        final(state).store.vaults@.len() == old(state).store.vaults@.len(),
        forall|i: int|
            0 <= i < old(state).store.vaults@.len() ==> #[trigger] final(state).store.vaults@[i]
                == replay_cancel_checks(old(state).store.vaults@[i], checks@, now),
        (forall|j: int|
            0 <= j < checks@.len() ==> (#[trigger] checks@[j]).cancel.spec_is_present())
            ==> forward_vaults(old(state).store.vaults@, final(state).store.vaults@),
{
    let mut k: usize = 0;
    while k < checks.len()
        invariant
            state.wf(),
            state.coherent(),
            state.store.tip == old(state).store.tip,
            state.store.deposit_index == old(state).store.deposit_index,
            state.store.spends@ == old(state).store.spends@,
            state.store.vaults@.len() == old(state).store.vaults@.len(),
            k <= checks@.len(),
            forall|i: int|
                0 <= i < old(state).store.vaults@.len() ==> #[trigger] state.store.vaults@[i]
                    == replay_cancel_checks(
                    old(state).store.vaults@[i],
                    checks@.take(k as int),
                    now,
                ),
            (forall|j: int|
                0 <= j < checks@.len() ==> (#[trigger] checks@[j]).cancel.spec_is_present())
                ==> forward_vaults(old(state).store.vaults@, state.store.vaults@),
        decreases checks@.len() - k,
    {
        let ghost pre = *state;
        let e = checks[k];
        if e.cancel.height.is_some() {
            state.confirm_cancel(e.unvault_txid, now);
        } else if !e.cancel.in_mempool {
            state.evict_spender(
                crate::state::unvault_outpoint(e.unvault_txid),
                e.unvault_txo,
                now,
            );
        }
        proof {
            assert(checks@.take(k + 1).drop_last() =~= checks@.take(k as int));
            assert(checks@.take(k + 1).last() == checks@[k as int]);
            assert forall|i: int|
                0 <= i < old(state).store.vaults@.len() implies #[trigger] state.store.vaults@[i]
                == replay_cancel_checks(
                old(state).store.vaults@[i],
                checks@.take(k + 1),
                now,
            ) by {
                if pre.store.vaults@[i].unvault_txid() != Some(e.unvault_txid) {
                    assert(state.store.vaults@[i] == pre.store.vaults@[i]);
                }
            }
        }
        k = k + 1;
    }
    proof {
        assert(checks@.take(checks@.len() as int) =~= checks@);
    }
}

/// The outcome of trying to finalize and broadcast one broadcastable
/// Spend draft.
#[derive(Clone, Copy, PartialEq, Eq, Structural, Debug)]
pub struct SpendBroadcastResult {
    pub txid: u64,
    /// Finalization and the node's `sendrawtransaction` both succeeded.
    pub succeeded: bool,
}

/// The Spend drafts after the broadcast outcomes of a tip event: each
/// succeeded draft is marked `Broadcasted`; a failed one is untouched
/// and so stays `Broadcastable` for retry at the next tip event.
pub open spec fn replay_broadcast_results(
    ss: Seq<crate::store::SpendRow>,
    rs: Seq<SpendBroadcastResult>,
) -> Seq<crate::store::SpendRow>
    decreases rs.len(),
{
    if rs.len() == 0 {
        ss
    } else {
        let s1 = replay_broadcast_results(ss, rs.drop_last());
        let r = rs.last();
        if r.succeeded {
            crate::store::spec_mark_spend(s1, r.txid, crate::store::SpendTxState::Broadcasted)
        } else {
            s1
        }
    }
}

/// Record which broadcastable Spend drafts actually went out; the drafts
/// end exactly as [`replay_broadcast_results`] says.
pub fn record_spend_broadcasts(state: &mut ChainState, results: &Vec<SpendBroadcastResult>)
    requires
        old(state).wf(),
        old(state).coherent(),
    ensures
        final(state).wf(),
        final(state).coherent(),
        final(state).store.vaults@ == old(state).store.vaults@,
        final(state).store.tip == old(state).store.tip,
        final(state).store.deposit_index == old(state).store.deposit_index,
        final(state).deposits == old(state).deposits,
        final(state).unvaults == old(state).unvaults,
        final(state).store.spends@ == replay_broadcast_results(
            old(state).store.spends@,
            results@,
        ),
{
    let mut k: usize = 0;
    while k < results.len()
        invariant
            state.wf(),
            state.coherent(),
            state.store.vaults@ == old(state).store.vaults@,
            state.store.tip == old(state).store.tip,
            state.store.deposit_index == old(state).store.deposit_index,
            state.deposits == old(state).deposits,
            state.unvaults == old(state).unvaults,
            k <= results@.len(),
            state.store.spends@ == replay_broadcast_results(
                old(state).store.spends@,
                results@.take(k as int),
            ),
        decreases results@.len() - k,
    {
        let e = results[k];
        if e.succeeded {
            state.record_spend_broadcast(e.txid);
        }
        proof {
            assert(results@.take(k + 1).drop_last() =~= results@.take(k as int));
            assert(results@.take(k + 1).last() == results@[k as int]);
        }
        k = k + 1;
    }
    proof {
        assert(results@.take(results@.len() as int) =~= results@);
    }
}

/// Everything done when the chain moves strictly forward: persist the
/// new tip, record which mature Spends went out, then settle `Spending`
/// and `Canceling` vaults against the wallet's view — in that order,
/// each step over the previous step's record.
pub fn new_tip_event(
    state: &mut ChainState,
    new_tip: BlockchainTip,
    broadcast_results: &Vec<SpendBroadcastResult>,
    spend_checks: &Vec<SpendCheckObs>,
    cancel_checks: &Vec<CancelCheckObs>,
    now: u64,
)
    requires
        old(state).wf(),
        old(state).coherent(),
    ensures
        final(state).wf(),
        final(state).coherent(),
        final(state).store.tip == new_tip,
        final(state).store.deposit_index == old(state).store.deposit_index,
        final(state).store.spends@ == replay_broadcast_results(
            old(state).store.spends@,
            broadcast_results@,
        ),
        final(state).store.vaults@.len() == old(state).store.vaults@.len(),
        forall|i: int|
            0 <= i < old(state).store.vaults@.len() ==> #[trigger] final(state).store.vaults@[i]
                == replay_cancel_checks(
                replay_spend_checks(old(state).store.vaults@[i], spend_checks@, now),
                cancel_checks@,
                now,
            ),
        (forall|j: int|
            0 <= j < spend_checks@.len() ==> (#[trigger] spend_checks@[j]).spend.spec_is_present())
            && (forall|j: int|
            0 <= j < cancel_checks@.len() ==> (
            #[trigger] cancel_checks@[j]).cancel.spec_is_present()) ==> forward_vaults(
            old(state).store.vaults@,
            final(state).store.vaults@,
        ),
{
    state.set_tip(new_tip);
    record_spend_broadcasts(state, broadcast_results);
    let ghost s_r = *state;
    mark_confirmed_spends(state, spend_checks, now);
    let ghost s_s = *state;
    mark_confirmed_cancels(state, cancel_checks, now);
    proof {
        assert forall|i: int|
            0 <= i < old(state).store.vaults@.len() implies #[trigger] state.store.vaults@[i]
            == replay_cancel_checks(
            replay_spend_checks(old(state).store.vaults@[i], spend_checks@, now),
            cancel_checks@,
            now,
        ) by {
            assert(s_r.store.vaults@[i] == old(state).store.vaults@[i]);
            assert(s_s.store.vaults@[i] == replay_spend_checks(
                old(state).store.vaults@[i],
                spend_checks@,
                now,
            ));
        }
    }
}

} // verus!
