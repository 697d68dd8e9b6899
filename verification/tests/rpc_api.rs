//! The request dispatcher's gates: roles, statuses, PSBT checks,
//! signature bookkeeping and the Spend draft lifecycle.

use revaultd::rpc::{Config, PsbtIn, RpcError, RpcImpl, JsonRpcMetaData};
use revaultd::state::ChainState;
use revaultd::status::VaultStatus;
use revaultd::store::SpendTxState;
use revaultd::types::{BlockchainTip, TxRef, UserRole, UtxoInfo};
use revaultd::vault::{PresignedSet, Psbt, TxKind};

fn op(txid: u64, vout: u32) -> TxRef {
    TxRef { txid, vout }
}

fn utxo(value: u64) -> UtxoInfo {
    UtxoInfo { value, script: 1, is_confirmed: false }
}

fn psbt(txid: u64) -> Psbt {
    Psbt { wtxid: txid + 1000, txid, sigs: vec![] }
}

fn chain(unvault: u64, cancel: u64, emer: u64, unemer: u64) -> PresignedSet {
    PresignedSet {
        unvault: psbt(unvault),
        cancel: psbt(cancel),
        emergency: Some(psbt(emer)),
        unvault_emergency: Some(psbt(unemer)),
    }
}

fn stakeholder_cfg() -> Config {
    Config {
        role: UserRole::Stakeholder,
        min_conf: 6,
        our_stk_key: 7,
        stakeholder_keys: vec![7, 8],
    }
}

fn manager_cfg() -> Config {
    Config { role: UserRole::Manager, min_conf: 6, our_stk_key: 7, stakeholder_keys: vec![7, 8] }
}

fn sigs(keys: &[u64], wtxid: u64) -> PsbtIn {
    PsbtIn { wtxid, sigs: keys.to_vec() }
}

fn funded_vault() -> ChainState {
    let mut st = ChainState::new(BlockchainTip { height: 100, hash: 0xAA });
    assert!(st.apply_new_deposit(op(1, 0), utxo(100_000_000), 3, 10, 10));
    assert!(st.confirm_deposit_with_chain(op(1, 0), 95, chain(10, 20, 30, 40), 11));
    st
}

#[test]
fn s6_manager_calling_a_stakeholder_command() {
    let rpc = RpcImpl;
    let mut st = funded_vault();
    let r = rpc.revocationtxs(
        &mut st.store,
        &manager_cfg(),
        op(1, 0),
        &sigs(&[7], 1020),
        &sigs(&[7], 1030),
        &sigs(&[7], 1040),
        None,
        12,
    );
    let e = r.unwrap_err();
    assert_eq!(e, RpcError::NotStakeholder);
    assert_eq!(e.text(), "This is a stakeholder command");
    // No state change.
    assert_eq!(st.store.vaults[0].status, VaultStatus::Funded);
    assert_eq!(st.store.vaults[0].presigned.as_ref().unwrap().cancel.sigs.len(), 0);
    // And the opposite gate for a manager command.
    let r = rpc.getspendtx_plan(&st.store, &stakeholder_cfg(), &vec![op(1, 0)], 20);
    let e = r.unwrap_err();
    assert_eq!(e, RpcError::NotManager);
    assert_eq!(e.text(), "This is a manager command");
}

#[test]
fn wrong_wtxid_is_rejected_and_store_untouched() {
    let rpc = RpcImpl;
    let mut st = funded_vault();
    // The Cancel PSBT's unsigned wtxid does not match the stored one.
    let r = rpc.revocationtxs(
        &mut st.store,
        &stakeholder_cfg(),
        op(1, 0),
        &sigs(&[7, 8], 9999),
        &sigs(&[7, 8], 1030),
        &sigs(&[7, 8], 1040),
        None,
        12,
    );
    assert_eq!(r.unwrap_err(), RpcError::InvalidPsbt(TxKind::Cancel));
    assert_eq!(st.store.vaults[0].status, VaultStatus::Funded);
    assert_eq!(st.store.vaults[0].presigned.as_ref().unwrap().cancel.sigs.len(), 0);
    // Same check on the unvault path.
    let r = rpc.unvaulttx(&mut st.store, &stakeholder_cfg(), op(1, 0), &sigs(&[7, 8], 42), false, 12);
    assert_eq!(r.unwrap_err(), RpcError::InvalidStatus(VaultStatus::Funded));
}

#[test]
fn missing_own_signature_and_invalid_signature() {
    let rpc = RpcImpl;
    let mut st = funded_vault();
    // Our key is 7; a chain signed only by 8 is refused.
    let r = rpc.revocationtxs(
        &mut st.store,
        &stakeholder_cfg(),
        op(1, 0),
        &sigs(&[8], 1020),
        &sigs(&[8], 1030),
        &sigs(&[8], 1040),
        None,
        12,
    );
    assert_eq!(r.unwrap_err(), RpcError::MissingOwnSignature(TxKind::Cancel));
    // A cryptographically invalid signature is refused after the checks.
    let r = rpc.revocationtxs(
        &mut st.store,
        &stakeholder_cfg(),
        op(1, 0),
        &sigs(&[7], 1020),
        &sigs(&[7], 1030),
        &sigs(&[7], 1040),
        Some(TxKind::Emergency),
        12,
    );
    assert_eq!(r.unwrap_err(), RpcError::InvalidSignature(TxKind::Emergency));
    assert_eq!(st.store.vaults[0].status, VaultStatus::Funded);
}

#[test]
fn revocation_promotion_steps() {
    let rpc = RpcImpl;
    let c = stakeholder_cfg();
    let mut st = funded_vault();
    // Only our signature first: stored, not yet fully signed.
    rpc.revocationtxs(
        &mut st.store,
        &c,
        op(1, 0),
        &sigs(&[7], 1020),
        &sigs(&[7], 1030),
        &sigs(&[7], 1040),
        None,
        12,
    )
    .unwrap();
    assert_eq!(st.store.vaults[0].status, VaultStatus::Funded);
    // Sharing succeeded: the vault is now Securing.
    rpc.revocationtxs_finish(&mut st.store, op(1, 0), true, 12).unwrap();
    assert_eq!(st.store.vaults[0].status, VaultStatus::Securing);
    // The missing stakeholder's signatures arrive: Secured.
    st.store
        .update_presigned_tx(op(1, 0), TxKind::Cancel, &vec![8], &c.stakeholder_keys, 13);
    st.store
        .update_presigned_tx(op(1, 0), TxKind::Emergency, &vec![8], &c.stakeholder_keys, 13);
    st.store.update_presigned_tx(
        op(1, 0),
        TxKind::UnvaultEmergency,
        &vec![8],
        &c.stakeholder_keys,
        13,
    );
    assert_eq!(st.store.vaults[0].status, VaultStatus::Secured);
    // The unvault signatures in two steps: Activating, then Active.
    rpc.unvaulttx(&mut st.store, &c, op(1, 0), &sigs(&[7], 1010), false, 14).unwrap();
    rpc.unvaulttx_finish(&mut st.store, op(1, 0), true, 14).unwrap();
    assert_eq!(st.store.vaults[0].status, VaultStatus::Activating);
    st.store.update_presigned_tx(op(1, 0), TxKind::Unvault, &vec![8], &c.stakeholder_keys, 15);
    assert_eq!(st.store.vaults[0].status, VaultStatus::Active);
}

#[test]
fn unknown_outpoint_errors() {
    let rpc = RpcImpl;
    let mut st = funded_vault();
    let missing = op(77, 3);
    assert_eq!(
        rpc.getrevocationtxs(&st.store, &stakeholder_cfg(), missing).unwrap_err(),
        RpcError::UnknownOutpoint(missing),
    );
    assert_eq!(
        rpc.getunvaulttx(&st.store, &stakeholder_cfg(), missing).unwrap_err(),
        RpcError::UnknownOutpoint(missing),
    );
    assert_eq!(rpc.revault(&st.store, missing).unwrap_err(), RpcError::UnknownOutpoint(missing));
    let r = rpc.unvaulttx(&mut st.store, &stakeholder_cfg(), missing, &sigs(&[7], 1), false, 1);
    assert_eq!(r.unwrap_err(), RpcError::UnknownOutpoint(missing));
}

#[test]
fn revault_status_gate() {
    let rpc = RpcImpl;
    let st = funded_vault();
    // Funded is not revaultable: nothing is on-chain past the deposit.
    assert_eq!(
        rpc.revault(&st.store, op(1, 0)).unwrap_err(),
        RpcError::InvalidStatus(VaultStatus::Funded),
    );
}

#[test]
fn getrevocationtxs_returns_the_stored_chain() {
    let rpc = RpcImpl;
    let st = funded_vault();
    let (cancel, emer, unemer) = rpc.getrevocationtxs(&st.store, &stakeholder_cfg(), op(1, 0)).unwrap();
    assert_eq!((cancel.wtxid, cancel.txid, cancel.n_sigs), (1020, 20, 0));
    assert_eq!((emer.wtxid, emer.txid), (1030, 30));
    assert_eq!((unemer.wtxid, unemer.txid), (1040, 40));
    let unvault = rpc.getunvaulttx(&st.store, &stakeholder_cfg(), op(1, 0)).unwrap();
    assert_eq!((unvault.wtxid, unvault.txid), (1010, 10));
}

#[test]
fn getspendtx_fee_checks() {
    let rpc = RpcImpl;
    // The requested feerate must be at least one.
    let st = funded_vault();
    assert_eq!(
        rpc.getspendtx_plan(&st.store, &manager_cfg(), &vec![op(1, 0)], 0).unwrap_err(),
        RpcError::FeerateTooLow,
    );
    // Only Active vaults can be spent.
    assert_eq!(
        rpc.getspendtx_plan(&st.store, &manager_cfg(), &vec![op(1, 0)], 20).unwrap_err(),
        RpcError::InvalidStatus(VaultStatus::Funded),
    );
    // The achievable feerate undershoots the requested one by over 10%.
    assert_eq!(
        rpc.getspendtx_change(20, 4, 1000, 10_000).unwrap_err(),
        RpcError::FeerateMismatch,
    );
    // Exact change computation: weight 828 grows to 1000 with the change
    // output; wanted fees at 20 sat/vb are 1000*23/4 = 5750; the change,
    // 500000-5750 = 494250, clears the dust limit plus the CPFP overhead
    // and loses that overhead: 494250-2752 = 491498.
    assert_eq!(rpc.getspendtx_change(20, 6, 828, 500_000).unwrap(), Some(491_498));
    // A surplus below dust plus overhead adds no change output.
    assert_eq!(rpc.getspendtx_change(20, 6, 828, 208_000).unwrap(), None);
}

#[test]
fn spend_draft_lifecycle() {
    let rpc = RpcImpl;
    let c = stakeholder_cfg();
    let m = manager_cfg();
    let mut st = funded_vault();
    rpc.revocationtxs(
        &mut st.store,
        &c,
        op(1, 0),
        &sigs(&[7, 8], 1020),
        &sigs(&[7, 8], 1030),
        &sigs(&[7, 8], 1040),
        None,
        12,
    )
    .unwrap();
    rpc.unvaulttx(&mut st.store, &c, op(1, 0), &sigs(&[7, 8], 1010), false, 13).unwrap();
    assert_eq!(st.store.vaults[0].status, VaultStatus::Active);
    // A draft over an unknown unvault is refused.
    assert_eq!(
        rpc.updatespendtx(&mut st.store, &m, 50, 500, vec![666]).unwrap_err(),
        RpcError::UnknownUnvault(666),
    );
    // Stored, listed, refreshed, deleted.
    rpc.updatespendtx(&mut st.store, &m, 50, 500, vec![10]).unwrap();
    let list = rpc.listspendtxs(&st.store, &m).unwrap();
    assert_eq!(list, vec![(50, 500, SpendTxState::Stored)]);
    rpc.updatespendtx(&mut st.store, &m, 50, 501, vec![10]).unwrap();
    assert_eq!(st.store.spends[0].blob, 501);
    assert_eq!(st.store.spends.len(), 1);
    // setspendtx over an unknown draft is refused.
    assert_eq!(
        rpc.setspendtx_check(&st.store, &m, 99).unwrap_err(),
        RpcError::UnknownSpend(99),
    );
    // A failed unvault broadcast leaves the draft inert.
    rpc.setspendtx_commit(&mut st.store, 50, 502).unwrap();
    assert_eq!(
        rpc.setspendtx_finalize(&mut st.store, 50, false).unwrap_err(),
        RpcError::BroadcastFailure,
    );
    assert_eq!(st.store.spends[0].state, SpendTxState::Stored);
    rpc.delspendtx(&mut st.store, &m, 50).unwrap();
    assert_eq!(st.store.spends.len(), 0);
    // Deleting again is not an error.
    rpc.delspendtx(&mut st.store, &m, 50).unwrap();
}

#[test]
fn getinfo_counts_watched_vaults() {
    let rpc = RpcImpl;
    let mut st = funded_vault();
    st.apply_new_deposit(op(2, 0), utxo(1_000_000), 4, 12, 12);
    let (height, count) = rpc.getinfo(&st.store);
    assert_eq!(height, 100);
    assert_eq!(count, 2);
}

#[test]
fn listvaults_filters() {
    let rpc = RpcImpl;
    let mut st = funded_vault();
    st.apply_new_deposit(op(2, 0), utxo(1_000_000), 4, 12, 12);
    // No filters: both vaults.
    let all = rpc.listvaults(&st.store, None, None);
    assert_eq!(all.len(), 2);
    assert_eq!(all[0].deposit_outpoint, op(1, 0));
    assert_eq!(all[0].amount, 100_000_000);
    assert_eq!(all[0].derivation_index, 3);
    // An empty status array is no filter.
    let all = rpc.listvaults(&st.store, Some(&vec![]), None);
    assert_eq!(all.len(), 2);
    // A status filter.
    let funded = rpc.listvaults(&st.store, Some(&vec![VaultStatus::Funded]), None);
    assert_eq!(funded.len(), 1);
    assert_eq!(funded[0].status, VaultStatus::Funded);
    // An outpoint filter.
    let one = rpc.listvaults(&st.store, None, Some(&vec![op(2, 0)]));
    assert_eq!(one.len(), 1);
    assert_eq!(one[0].deposit_outpoint, op(2, 0));
}

#[test]
fn listpresignedtransactions_listing() {
    let rpc = RpcImpl;
    let mut st = funded_vault();
    st.apply_new_deposit(op(2, 0), utxo(1_000_000), 4, 12, 12);
    let all = rpc.listpresignedtransactions(&st.store, None).unwrap();
    assert_eq!(all.len(), 2);
    assert_eq!(all[0].unvault.unwrap().txid, 10);
    assert_eq!(all[1].unvault, None);
    let missing = op(9, 9);
    assert_eq!(
        rpc.listpresignedtransactions(&st.store, Some(&vec![missing])).unwrap_err(),
        RpcError::UnknownOutpoint(missing),
    );
}

#[test]
fn a_managers_chain_has_no_emergencies_to_hand_out() {
    let rpc = RpcImpl;
    let mut st = ChainState::new(BlockchainTip { height: 100, hash: 0xAA });
    assert!(st.apply_new_deposit(op(1, 0), utxo(100_000_000), 3, 10, 10));
    // A chain derived by a manager's daemon: no emergency pair stored.
    let manager_chain = PresignedSet {
        unvault: psbt(10),
        cancel: psbt(20),
        emergency: None,
        unvault_emergency: None,
    };
    assert!(st.confirm_deposit_with_chain(op(1, 0), 95, manager_chain, 11));
    // Asking it for revocation transactions hits a store the invariants
    // do not promise anything about: an internal error, not a panic.
    assert_eq!(
        rpc.getrevocationtxs(&st.store, &stakeholder_cfg(), op(1, 0)).unwrap_err(),
        RpcError::InternalError,
    );
}

#[test]
fn metadata_shutdown_flag() {
    let rpc = RpcImpl;
    let mut meta = JsonRpcMetaData::new(UserRole::Manager);
    assert!(!meta.is_shutdown());
    rpc.stop(&mut meta);
    assert!(meta.is_shutdown());
    // Idempotent.
    rpc.stop(&mut meta);
    assert!(meta.is_shutdown());
}

#[test]
fn getdepositaddress_index_choice() {
    let rpc = RpcImpl;
    let mut st = funded_vault();
    st.store.update_deposit_index(9);
    assert_eq!(rpc.getdepositaddress(&st.store, None), 9);
    assert_eq!(rpc.getdepositaddress(&st.store, Some(4)), 4);
}

#[test]
fn read_queries_list_matching_vaults() {
    let rpc = RpcImpl;
    let c = stakeholder_cfg();
    let mut st = funded_vault();
    rpc.revocationtxs(
        &mut st.store,
        &c,
        op(1, 0),
        &sigs(&[7, 8], 1020),
        &sigs(&[7, 8], 1030),
        &sigs(&[7, 8], 1040),
        None,
        12,
    )
    .unwrap();
    rpc.unvaulttx(&mut st.store, &c, op(1, 0), &sigs(&[7, 8], 1010), false, 13).unwrap();
    assert!(st.store.spending_vaults().is_empty());
    st.store.unvault_deposit(10, 14);
    st.store.confirm_unvault(10, 15);
    assert_eq!(st.store.unvaulted_vaults(), vec![(op(1, 0), 10)]);
    st.store.spend_unvault(10, 50, 16);
    assert_eq!(st.store.spending_vaults(), vec![(op(1, 0), 10, 50)]);
    assert!(st.store.canceling_vaults().is_empty());
    st.store.confirm_unvault(10, 17);
    st.store.cancel_unvault(10, 18);
    assert_eq!(st.store.canceling_vaults(), vec![(op(1, 0), 10, 20)]);
}

#[test]
fn change_index_is_the_highest_spent_index() {
    let rpc = RpcImpl;
    let c = stakeholder_cfg();
    let m = manager_cfg();
    let mut st = funded_vault();
    // A second vault at a higher derivation index, driven to Active along
    // with the first.
    assert!(st.apply_new_deposit(op(2, 0), utxo(50_000_000), 5, 10, 10));
    assert!(st.confirm_deposit_with_chain(op(2, 0), 95, chain(11, 21, 31, 41), 11));
    for (outpoint, base) in [(op(1, 0), 1000u64), (op(2, 0), 1001u64)] {
        rpc.revocationtxs(
            &mut st.store,
            &c,
            outpoint,
            &sigs(&[7, 8], base + 20),
            &sigs(&[7, 8], base + 30),
            &sigs(&[7, 8], base + 40),
            None,
            12,
        )
        .unwrap();
        rpc.unvaulttx(&mut st.store, &c, outpoint, &sigs(&[7, 8], base + 10), false, 13).unwrap();
    }
    let plan = rpc.getspendtx_plan(&st.store, &m, &vec![op(1, 0), op(2, 0)], 20).unwrap();
    assert_eq!(plan.txins[0], (op(1, 0), 100_000_000, 3));
    assert_eq!(plan.txins[1], (op(2, 0), 50_000_000, 5));
    // The change goes to the highest index among the spent vaults, so no
    // fresh address leaks.
    assert_eq!(plan.change_index, 5);
}

#[test]
fn setspendtx_refuses_a_draft_over_a_gone_vault() {
    let rpc = RpcImpl;
    let m = manager_cfg();
    let mut st = funded_vault();
    // A draft referencing an unvault no vault of the store derives.
    assert!(st.store.insert_spend(60, 600, vec![666]));
    assert_eq!(
        rpc.setspendtx_check(&st.store, &m, 60).unwrap_err(),
        RpcError::AlreadySpentVault,
    );
}

#[test]
fn share_failure_reports_and_leaves_the_merge() {
    let rpc = RpcImpl;
    let c = stakeholder_cfg();
    let mut st = funded_vault();
    rpc.revocationtxs(
        &mut st.store,
        &c,
        op(1, 0),
        &sigs(&[7], 1020),
        &sigs(&[7], 1030),
        &sigs(&[7], 1040),
        None,
        12,
    )
    .unwrap();
    // The coordinator could not be reached: the error is surfaced, the
    // stored signatures stay, the status is not advanced.
    assert_eq!(
        rpc.revocationtxs_finish(&mut st.store, op(1, 0), false, 12).unwrap_err(),
        RpcError::ShareFailure,
    );
    assert_eq!(st.store.vaults[0].status, VaultStatus::Funded);
    assert_eq!(st.store.vaults[0].presigned.as_ref().unwrap().cancel.sigs, vec![7]);
}
