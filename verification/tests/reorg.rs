//! Reorganisations and mempool evictions: the rescan engine's rewinds,
//! their idempotence, and cache/store coherence after poll ticks.

use revaultd::poller::{
    mark_confirmed_spends, new_tip_event, update_deposits, update_unvaults, DiffEntry,
    NewDepositObs, SpendCheckObs, SpentUnvaultObs,
};
use revaultd::rescan::{comprehensive_rescan, VaultObs};
use revaultd::rpc::{Config, PsbtIn, RpcImpl};
use revaultd::state::{ChainState, Spender};
use revaultd::status::VaultStatus;
use revaultd::store::{SpendTxState, Store};
use revaultd::types::{BlockchainTip, TxObs, TxRef, UserRole, UtxoInfo};
use revaultd::vault::{PresignedSet, Psbt, Vault};

fn op(txid: u64, vout: u32) -> TxRef {
    TxRef { txid, vout }
}

fn utxo(value: u64) -> UtxoInfo {
    UtxoInfo { value, script: 1, is_confirmed: false }
}

fn psbt(txid: u64) -> Psbt {
    Psbt { wtxid: txid + 1000, txid, sigs: vec![] }
}

fn chain(unvault: u64, cancel: u64, emer: u64, unemer: u64) -> PresignedSet {
    PresignedSet {
        unvault: psbt(unvault),
        cancel: psbt(cancel),
        emergency: Some(psbt(emer)),
        unvault_emergency: Some(psbt(unemer)),
    }
}

fn cfg() -> Config {
    Config {
        role: UserRole::StakeholderManager,
        min_conf: 6,
        our_stk_key: 7,
        stakeholder_keys: vec![7, 8],
    }
}

fn sigs(keys: &[u64], wtxid: u64) -> PsbtIn {
    PsbtIn { wtxid, sigs: keys.to_vec() }
}

/// A vault at `Funded`, deposit confirmed at height 95, tip at 100.
fn funded_vault() -> ChainState {
    let mut st = ChainState::new(BlockchainTip { height: 100, hash: 0xAA });
    assert!(st.apply_new_deposit(op(1, 0), utxo(100_000_000), 0, 10, 10));
    assert!(st.confirm_deposit_with_chain(op(1, 0), 95, chain(10, 20, 30, 40), 11));
    st
}

/// Drive the funded vault to `Spent`.
fn spent_vault() -> ChainState {
    let rpc = RpcImpl;
    let c = cfg();
    let mut st = funded_vault();
    rpc.revocationtxs(
        &mut st.store,
        &c,
        op(1, 0),
        &sigs(&[7, 8], 1020),
        &sigs(&[7, 8], 1030),
        &sigs(&[7, 8], 1040),
        None,
        12,
    )
    .unwrap();
    rpc.unvaulttx(&mut st.store, &c, op(1, 0), &sigs(&[7, 8], 1010), false, 13).unwrap();
    rpc.updatespendtx(&mut st.store, &c, 50, 500, vec![10]).unwrap();
    update_unvaults(
        &mut st,
        &vec![DiffEntry { outpoint: op(10, 0), utxo: utxo(99_000_000) }],
        &vec![],
        &vec![],
        14,
    );
    update_unvaults(&mut st, &vec![], &vec![op(10, 0)], &vec![], 15);
    update_unvaults(
        &mut st,
        &vec![],
        &vec![],
        &vec![SpentUnvaultObs {
            outpoint: op(10, 0),
            spender: Some(Spender::Spend(50)),
            spender_confirmed: true,
        }],
        16,
    );
    assert_eq!(st.store.vaults[0].status, VaultStatus::Spent);
    st
}

fn obs(dep: Option<u32>, unv: Option<u32>, spend: Option<u32>, cancel: Option<u32>) -> VaultObs {
    VaultObs {
        outpoint: op(1, 0),
        deposit_height: dep,
        unvault_height: unv,
        spend_height: spend,
        cancel_height: cancel,
        unvault_txo: utxo(99_000_000),
    }
}

#[test]
fn s3_shallow_reorg_on_deposit() {
    let mut st = funded_vault();
    // min_conf = 6, deposit at 95, tip was 100: exactly six confirmations.
    // A two-block reorg leaves the tip at 99: five confirmations only.
    let (done, _hints) = comprehensive_rescan(
        &mut st,
        &vec![obs(Some(95), None, None, None)],
        BlockchainTip { height: 99, hash: 0xB9 },
        6,
        20,
    );
    assert!(done);
    assert_eq!(st.store.vaults[0].status, VaultStatus::Unconfirmed);
    assert_eq!(st.store.vaults[0].blockheight, None);
    assert_eq!(st.store.tip, BlockchainTip { height: 99, hash: 0xB9 });
    // The deposit cache entry is kept, unconfirmed.
    assert!(st.deposits.contains(op(1, 0)));
    assert!(!st.deposits.entries[0].info.is_confirmed);
    // New blocks arrive; the deterministic builder re-derives the same
    // chain, and the vault is Funded again with its PSBTs intact.
    let old_wtxids = (1010u64, 1020u64, 1030u64, 1040u64);
    assert!(st.confirm_deposit_with_chain(op(1, 0), 95, chain(10, 20, 30, 40), 21));
    assert_eq!(st.store.vaults[0].status, VaultStatus::Funded);
    let p = st.store.vaults[0].presigned.as_ref().unwrap();
    assert_eq!(
        (p.unvault.wtxid, p.cancel.wtxid, p.emergency.as_ref().unwrap().wtxid,
            p.unvault_emergency.as_ref().unwrap().wtxid),
        old_wtxids,
    );
}

#[test]
fn s4_deep_reorg_keeps_unvault_removes_spend() {
    let mut st = spent_vault();
    // The reorg removed the Spend's block but the unvault stayed buried.
    let (done, _hints) = comprehensive_rescan(
        &mut st,
        &vec![obs(Some(95), Some(101), None, None)],
        BlockchainTip { height: 120, hash: 0xD0 },
        6,
        30,
    );
    assert!(done);
    assert_eq!(st.store.vaults[0].status, VaultStatus::Spending);
    assert_eq!(st.store.vaults[0].spend_txid, Some(50));
    // The Spend draft is flagged for rebroadcast at the next tip event.
    assert_eq!(st.store.spends[0].state, SpendTxState::Broadcastable);
    assert_eq!(st.store.broadcastable_spend_txids(), vec![50]);
    // The next tip event rebroadcasts and the Spend reconfirms.
    new_tip_event(
        &mut st,
        BlockchainTip { height: 121, hash: 0xD1 },
        &vec![revaultd::poller::SpendBroadcastResult { txid: 50, succeeded: true }],
        &vec![SpendCheckObs {
            unvault_txid: 10,
            spend: TxObs { height: Some(121), in_mempool: false },
            unvault_txo: utxo(99_000_000),
        }],
        &vec![],
        31,
    );
    assert_eq!(st.store.vaults[0].status, VaultStatus::Spent);
}

#[test]
fn s5_mempool_eviction_of_spend() {
    let rpc = RpcImpl;
    let c = cfg();
    let mut st = funded_vault();
    rpc.revocationtxs(
        &mut st.store,
        &c,
        op(1, 0),
        &sigs(&[7, 8], 1020),
        &sigs(&[7, 8], 1030),
        &sigs(&[7, 8], 1040),
        None,
        12,
    )
    .unwrap();
    rpc.unvaulttx(&mut st.store, &c, op(1, 0), &sigs(&[7, 8], 1010), false, 13).unwrap();
    update_unvaults(
        &mut st,
        &vec![DiffEntry { outpoint: op(10, 0), utxo: utxo(99_000_000) }],
        &vec![],
        &vec![],
        14,
    );
    update_unvaults(&mut st, &vec![], &vec![op(10, 0)], &vec![], 15);
    update_unvaults(
        &mut st,
        &vec![],
        &vec![],
        &vec![SpentUnvaultObs {
            outpoint: op(10, 0),
            spender: Some(Spender::Spend(50)),
            spender_confirmed: false,
        }],
        16,
    );
    assert_eq!(st.store.vaults[0].status, VaultStatus::Spending);
    assert!(!st.unvaults.contains(op(10, 0)));
    // The Spend is evicted from the mempool without confirming.
    mark_confirmed_spends(
        &mut st,
        &vec![SpendCheckObs {
            unvault_txid: 10,
            spend: TxObs { height: None, in_mempool: false },
            unvault_txo: utxo(99_000_000),
        }],
        17,
    );
    assert_eq!(st.store.vaults[0].status, VaultStatus::Unvaulted);
    assert_eq!(st.store.vaults[0].spend_txid, None);
    // The unvault output is tracked again, confirmed, so the next poll
    // reclassifies its spender.
    assert!(st.unvaults.contains(op(10, 0)));
    let e = st.unvaults.entries.iter().find(|e| e.outpoint == op(10, 0)).unwrap();
    assert!(e.info.is_confirmed);
}

#[test]
fn reorg_rescan_is_idempotent() {
    let mut st1 = spent_vault();
    let observations = vec![obs(None, None, None, None)];
    let tip = BlockchainTip { height: 90, hash: 0xE0 };
    let (done, _) = comprehensive_rescan(&mut st1, &observations, tip, 6, 40);
    assert!(done);
    let status_once = st1.store.vaults[0].status;
    let spend_once = st1.store.vaults[0].spend_txid;
    let draft_once = st1.store.spends[0].state;
    let tip_once = st1.store.tip;
    // The rewind flagged the draft for rebroadcast.
    assert_eq!(draft_once, SpendTxState::Broadcastable);
    // The same reorg applied again: same stored state, vault rows, Spend
    // drafts and tip alike.
    let (done, _) = comprehensive_rescan(&mut st1, &observations, tip, 6, 40);
    assert!(done);
    assert_eq!(st1.store.vaults[0].status, status_once);
    assert_eq!(st1.store.vaults[0].spend_txid, spend_once);
    assert_eq!(st1.store.spends[0].state, draft_once);
    assert_eq!(st1.store.tip, tip_once);
    assert_eq!(status_once, VaultStatus::Unvaulting);
}

#[test]
fn stale_rescan_snapshot_changes_nothing() {
    let mut st = funded_vault();
    // The wallet reports the deposit above the observed tip: the snapshot
    // is stale and nothing moves.
    let (done, hints) = comprehensive_rescan(
        &mut st,
        &vec![obs(Some(95), None, None, None)],
        BlockchainTip { height: 90, hash: 0xE8 },
        6,
        50,
    );
    assert!(!done);
    assert!(hints.is_empty());
    assert_eq!(st.store.vaults[0].status, VaultStatus::Funded);
    assert_eq!(st.store.tip, BlockchainTip { height: 100, hash: 0xAA });
}

/// Cache/store coherence: after a poll tick, a vault has a deposit-cache
/// entry iff its deposit output is unspent, and an unvault-cache entry
/// iff its unvault output is on-chain and unspent.
fn assert_coherent(st: &ChainState) {
    for v in st.store.vaults.iter() {
        assert_eq!(
            st.deposits.contains(v.deposit_outpoint),
            v.status.in_deposit_set(),
            "deposit cache disagrees with status",
        );
        if let Some(p) = &v.presigned {
            assert_eq!(
                st.unvaults.contains(op(p.unvault.txid, 0)),
                v.status.in_unvault_set(),
                "unvault cache disagrees with status",
            );
        }
    }
}

#[test]
fn caches_stay_coherent_through_ticks_and_rescans() {
    let mut st = spent_vault();
    assert_coherent(&st);
    update_deposits(
        &mut st,
        &vec![NewDepositObs {
            outpoint: op(2, 0),
            utxo: utxo(5_000_000),
            derivation_index: Some(1),
            received_at: 20,
        }],
        vec![],
        &vec![],
        20,
    );
    assert_coherent(&st);
    let all_obs = vec![
        obs(Some(95), Some(101), None, None),
        VaultObs {
            outpoint: op(2, 0),
            deposit_height: None,
            unvault_height: None,
            spend_height: None,
            cancel_height: None,
            unvault_txo: utxo(5_000_000),
        },
    ];
    let (done, _) =
        comprehensive_rescan(&mut st, &all_obs, BlockchainTip { height: 118, hash: 0xF0 }, 6, 21);
    assert!(done);
    assert_coherent(&st);
}

#[test]
fn caches_hydrate_coherently_from_a_loaded_store() {
    let st = spent_vault();
    // Persisting and reloading the store rebuilds the caches exactly.
    let rebuilt = ChainState::from_store(st.store);
    assert_coherent(&rebuilt);
    assert!(rebuilt.unvaults.entries.is_empty());
    assert!(rebuilt.deposits.entries.is_empty());
    let st2 = funded_vault();
    let rebuilt2 = ChainState::from_store(st2.store);
    assert_coherent(&rebuilt2);
    assert!(rebuilt2.deposits.contains(op(1, 0)));
    assert!(rebuilt2.deposits.entries[0].info.is_confirmed);
}

#[test]
fn rescan_still_kicks_the_deposit_of_an_emergency_vault() {
    // An emergency-path vault exists only as stored state; build the
    // store record directly and hydrate the caches from it.
    let store = Store {
        tip: BlockchainTip { height: 100, hash: 0xAA },
        deposit_index: 1,
        vaults: vec![Vault {
            deposit_outpoint: op(1, 0),
            amount: 100_000_000,
            derivation_index: 0,
            status: VaultStatus::EmergencyVaulting,
            blockheight: Some(95),
            received_at: 10,
            updated_at: 10,
            spend_txid: None,
            presigned: Some(chain(10, 20, 30, 40)),
        }],
        spends: vec![],
    };
    let mut st = ChainState::from_store(store);
    let (done, hints) = comprehensive_rescan(
        &mut st,
        &vec![obs(None, None, None, None)],
        BlockchainTip { height: 90, hash: 0xE0 },
        6,
        40,
    );
    assert!(done);
    // The vault itself is left as stored, but the deposit transaction is
    // still re-announced to the node wallet.
    assert_eq!(st.store.vaults[0].status, VaultStatus::EmergencyVaulting);
    assert_eq!(hints.len(), 1);
    assert!(!hints[0].applied);
    assert_eq!(hints[0].rebroadcast_deposit, Some(1));
}
