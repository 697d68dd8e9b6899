//! The vault lifecycle end to end: deposits, signature exchanges, spends
//! and cancels, driven through the coordinator exactly as the poller and
//! the dispatcher drive them.

use revaultd::poller::{
    bip70_name, check_network, classify_spender, new_tip_event, sync_wait_secs, tip_decision,
    update_deposits, update_unvaults, wallet_boot_plan, wallet_load_action, ConfirmDepositObs,
    DiffEntry, NewDepositObs, SpendCheckObs, SpenderObs, SpentDepositObs, SpentUnvaultObs,
    TipUpdate, WalletLoad,
};
use revaultd::poller::update_utxos;
use revaultd::rpc::{Config, PsbtIn, RpcImpl};
use revaultd::state::{ChainState, Spender};
use revaultd::status::VaultStatus;
use revaultd::store::SpendTxState;
use revaultd::types::{BlockchainTip, Network, TxObs, TxRef, UserRole, UtxoInfo, DUST_LIMIT};
use revaultd::vault::{PresignedSet, Psbt};

fn op(txid: u64, vout: u32) -> TxRef {
    TxRef { txid, vout }
}

fn utxo(value: u64) -> UtxoInfo {
    UtxoInfo { value, script: 1, is_confirmed: false }
}

fn psbt(txid: u64) -> Psbt {
    Psbt { wtxid: txid + 1000, txid, sigs: vec![] }
}

fn chain(unvault: u64, cancel: u64, emer: u64, unemer: u64) -> PresignedSet {
    PresignedSet {
        unvault: psbt(unvault),
        cancel: psbt(cancel),
        emergency: Some(psbt(emer)),
        unvault_emergency: Some(psbt(unemer)),
    }
}

fn cfg() -> Config {
    Config {
        role: UserRole::StakeholderManager,
        min_conf: 6,
        our_stk_key: 7,
        stakeholder_keys: vec![7, 8],
    }
}

fn sigs(keys: &[u64], wtxid: u64) -> PsbtIn {
    PsbtIn { wtxid, sigs: keys.to_vec() }
}

/// Drive a fresh deposit all the way to `Active` and return the state.
fn active_vault() -> ChainState {
    let rpc = RpcImpl;
    let c = cfg();
    let mut st = ChainState::new(BlockchainTip { height: 100, hash: 0xAA });
    // Deposit of 1 BTC observed.
    assert!(st.apply_new_deposit(op(1, 0), utxo(100_000_000), 0, 10, 10));
    assert_eq!(st.store.vaults[0].status, VaultStatus::Unconfirmed);
    // Confirmed at height 100, with min_conf reached at tip 106.
    assert!(st.confirm_deposit_with_chain(op(1, 0), 100, chain(10, 20, 30, 40), 11));
    assert_eq!(st.store.vaults[0].status, VaultStatus::Funded);
    // The three revocation PSBTs, fully signed by both stakeholders.
    let r = rpc.revocationtxs(
        &mut st.store,
        &c,
        op(1, 0),
        &sigs(&[7, 8], 1020),
        &sigs(&[7, 8], 1030),
        &sigs(&[7, 8], 1040),
        None,
        12,
    );
    assert!(r.is_ok());
    assert_eq!(st.store.vaults[0].status, VaultStatus::Secured);
    assert!(rpc.revocationtxs_finish(&mut st.store, op(1, 0), true, 12).is_ok());
    // Promotion to Secured already happened; Securing is skipped.
    assert_eq!(st.store.vaults[0].status, VaultStatus::Secured);
    // The unvault PSBT, fully signed.
    let r = rpc.unvaulttx(&mut st.store, &c, op(1, 0), &sigs(&[7, 8], 1010), false, 13);
    assert!(r.is_ok());
    assert_eq!(st.store.vaults[0].status, VaultStatus::Active);
    st
}

#[test]
fn s1_happy_path_to_spent() {
    let rpc = RpcImpl;
    let c = cfg();
    let mut st = active_vault();
    // The manager drafts a Spend over the unvault, stores and activates it.
    let plan = rpc.getspendtx_plan(&st.store, &c, &vec![op(1, 0)], 20).unwrap();
    assert_eq!(plan.txins.len(), 1);
    assert_eq!(plan.txins[0], (op(1, 0), 100_000_000, 0));
    assert!(rpc.updatespendtx(&mut st.store, &c, 50, 500, vec![10]).is_ok());
    let (blob, utxids, dep_ops) = rpc.setspendtx_check(&st.store, &c, 50).unwrap();
    assert_eq!(blob, 500);
    assert_eq!(utxids, vec![10]);
    assert_eq!(dep_ops, vec![op(1, 0)]);
    let to_broadcast = rpc.setspendtx_commit(&mut st.store, 50, 501).unwrap();
    assert_eq!(to_broadcast, vec![10]);
    assert!(rpc.setspendtx_finalize(&mut st.store, 50, true).is_ok());
    assert_eq!(st.store.spends[0].state, SpendTxState::Broadcastable);
    // The unvault output appears, confirms, then is spent by the Spend.
    update_unvaults(
        &mut st,
        &vec![DiffEntry { outpoint: op(10, 0), utxo: utxo(99_000_000) }],
        &vec![],
        &vec![],
        14,
    );
    assert_eq!(st.store.vaults[0].status, VaultStatus::Unvaulting);
    update_unvaults(&mut st, &vec![], &vec![op(10, 0)], &vec![], 15);
    assert_eq!(st.store.vaults[0].status, VaultStatus::Unvaulted);
    update_unvaults(
        &mut st,
        &vec![],
        &vec![],
        &vec![SpentUnvaultObs {
            outpoint: op(10, 0),
            spender: Some(Spender::Spend(50)),
            spender_confirmed: false,
        }],
        16,
    );
    assert_eq!(st.store.vaults[0].status, VaultStatus::Spending);
    assert_eq!(st.store.vaults[0].spend_txid, Some(50));
    // Broadcastable spends are tried at the next tip; this one confirms.
    let to_try = st.store.broadcastable_spend_txids();
    assert_eq!(to_try, vec![50]);
    new_tip_event(
        &mut st,
        BlockchainTip { height: 116, hash: 0xBB },
        &vec![revaultd::poller::SpendBroadcastResult { txid: 50, succeeded: true }],
        &vec![SpendCheckObs {
            unvault_txid: 10,
            spend: TxObs { height: Some(116), in_mempool: false },
            unvault_txo: utxo(99_000_000),
        }],
        &vec![],
        17,
    );
    assert_eq!(st.store.vaults[0].status, VaultStatus::Spent);
    assert_eq!(st.store.spends[0].state, SpendTxState::Broadcasted);
    assert_eq!(st.store.tip, BlockchainTip { height: 116, hash: 0xBB });
    // A spent vault no longer counts as funds under watch.
    let (_, count) = rpc.getinfo(&st.store);
    assert_eq!(count, 0);
}

#[test]
fn s2_cancel_before_csv() {
    let rpc = RpcImpl;
    let mut st = active_vault();
    // The Spend race starts: unvault broadcast and confirmed.
    update_unvaults(
        &mut st,
        &vec![DiffEntry { outpoint: op(10, 0), utxo: utxo(99_000_000) }],
        &vec![],
        &vec![],
        14,
    );
    // A stakeholder fires the revault command while the CSV runs.
    let cancel_txid = rpc.revault(&st.store, op(1, 0)).unwrap();
    assert_eq!(cancel_txid, 20);
    // The Cancel lands in the mempool; the poller classifies the spender.
    let spender = classify_spender(
        cancel_txid,
        SpenderObs {
            cancel_in_wallet: true,
            cancel: TxObs { height: None, in_mempool: true },
            spender_txid: None,
            spender: TxObs { height: None, in_mempool: false },
        },
    );
    assert_eq!(spender, Some(Spender::Cancel(20)));
    update_unvaults(
        &mut st,
        &vec![],
        &vec![],
        &vec![SpentUnvaultObs { outpoint: op(10, 0), spender, spender_confirmed: false }],
        15,
    );
    assert_eq!(st.store.vaults[0].status, VaultStatus::Canceling);
    assert_eq!(st.store.vaults[0].spend_txid, None);
    // The Cancel confirms at the next tip event.
    new_tip_event(
        &mut st,
        BlockchainTip { height: 112, hash: 0xCC },
        &vec![],
        &vec![],
        &vec![revaultd::poller::CancelCheckObs {
            unvault_txid: 10,
            cancel: TxObs { height: Some(112), in_mempool: false },
            unvault_txo: utxo(99_000_000),
        }],
        16,
    );
    assert_eq!(st.store.vaults[0].status, VaultStatus::Canceled);
    // The Cancel output is a fresh deposit: a new vault row appears.
    update_deposits(
        &mut st,
        &vec![NewDepositObs {
            outpoint: op(20, 0),
            utxo: utxo(98_000_000),
            derivation_index: Some(1),
            received_at: 17,
        }],
        vec![],
        &vec![],
        17,
    );
    assert_eq!(st.store.vaults.len(), 2);
    assert_eq!(st.store.vaults[1].deposit_outpoint, op(20, 0));
    assert_eq!(st.store.vaults[1].status, VaultStatus::Unconfirmed);
}

#[test]
fn dust_deposit_never_creates_a_vault() {
    let mut st = ChainState::new(BlockchainTip { height: 1, hash: 1 });
    // Exactly the dust limit: ignored.
    assert!(!st.apply_new_deposit(op(5, 0), utxo(DUST_LIMIT), 0, 1, 1));
    assert_eq!(st.store.vaults.len(), 0);
    assert!(!st.deposits.contains(op(5, 0)));
    // One satoshi more: accepted.
    assert!(st.apply_new_deposit(op(5, 0), utxo(DUST_LIMIT + 1), 0, 1, 1));
    assert_eq!(st.store.vaults.len(), 1);
}

#[test]
fn derivation_index_never_decreases() {
    let mut st = ChainState::new(BlockchainTip { height: 1, hash: 1 });
    assert_eq!(st.store.deposit_index, 0);
    update_deposits(
        &mut st,
        &vec![NewDepositObs {
            outpoint: op(2, 0),
            utxo: utxo(1_000_000),
            derivation_index: Some(0),
            received_at: 1,
        }],
        vec![],
        &vec![],
        1,
    );
    assert_eq!(st.store.deposit_index, 1);
    update_deposits(
        &mut st,
        &vec![NewDepositObs {
            outpoint: op(3, 0),
            utxo: utxo(1_000_000),
            derivation_index: Some(4),
            received_at: 2,
        }],
        vec![],
        &vec![],
        2,
    );
    assert_eq!(st.store.deposit_index, 5);
    // A deposit at an old index advances nothing.
    update_deposits(
        &mut st,
        &vec![NewDepositObs {
            outpoint: op(4, 0),
            utxo: utxo(1_000_000),
            derivation_index: Some(1),
            received_at: 3,
        }],
        vec![],
        &vec![],
        3,
    );
    assert_eq!(st.store.deposit_index, 5);
}

#[test]
fn statuses_only_move_forward_under_forward_observations() {
    let mut st = ChainState::new(BlockchainTip { height: 100, hash: 0xAA });
    let rank = |s: VaultStatus| match s {
        VaultStatus::Unconfirmed => 0,
        VaultStatus::Funded => 1,
        VaultStatus::Unvaulting => 6,
        VaultStatus::Unvaulted => 7,
        VaultStatus::Spending => 8,
        VaultStatus::Spent => 9,
        _ => 5,
    };
    let mut last = -1i32;
    assert!(st.apply_new_deposit(op(1, 0), utxo(100_000_000), 0, 10, 10));
    for step in 0..4 {
        match step {
            0 => {
                st.confirm_deposit_with_chain(op(1, 0), 100, chain(10, 20, 30, 40), 11);
            }
            1 => {
                update_deposits(&mut st, &vec![], vec![], &vec![], 12);
            }
            2 => {
                update_unvaults(&mut st, &vec![], &vec![op(10, 0)], &vec![], 13);
            }
            _ => {}
        }
        let r = rank(st.store.vaults[0].status);
        assert!(r >= last, "status rank moved backwards");
        last = r;
    }
}

#[test]
fn spender_classification_prefers_the_cancel() {
    // Both a Cancel and a Spend race for the unvault output: the Cancel
    // classification wins.
    let obs = SpenderObs {
        cancel_in_wallet: true,
        cancel: TxObs { height: None, in_mempool: true },
        spender_txid: Some(99),
        spender: TxObs { height: None, in_mempool: true },
    };
    assert_eq!(classify_spender(20, obs), Some(Spender::Cancel(20)));
    // No visible Cancel: the named spender is a Spend.
    let obs = SpenderObs {
        cancel_in_wallet: true,
        cancel: TxObs { height: None, in_mempool: false },
        spender_txid: Some(99),
        spender: TxObs { height: Some(5), in_mempool: false },
    };
    assert_eq!(classify_spender(20, obs), Some(Spender::Spend(99)));
    // Nothing recognisable: unknown this tick.
    let obs = SpenderObs {
        cancel_in_wallet: false,
        cancel: TxObs { height: None, in_mempool: false },
        spender_txid: None,
        spender: TxObs { height: None, in_mempool: false },
    };
    assert_eq!(classify_spender(20, obs), None);
}

#[test]
fn tip_decision_cases() {
    let stored = BlockchainTip { height: 10, hash: 5 };
    assert_eq!(tip_decision(stored, stored, 5), TipUpdate::Unchanged);
    assert_eq!(
        tip_decision(stored, BlockchainTip { height: 12, hash: 9 }, 5),
        TipUpdate::Forward
    );
    // Higher tip but our stored hash left the best chain: reorg.
    assert_eq!(
        tip_decision(stored, BlockchainTip { height: 12, hash: 9 }, 6),
        TipUpdate::Reorg
    );
    // Lower tip: reorg.
    assert_eq!(
        tip_decision(stored, BlockchainTip { height: 9, hash: 9 }, 5),
        TipUpdate::Reorg
    );
    // Nothing stored yet: any forward move is fine.
    let genesis = BlockchainTip { height: 0, hash: 0 };
    assert_eq!(
        tip_decision(genesis, BlockchainTip { height: 3, hash: 4 }, 77),
        TipUpdate::Forward
    );
}

#[test]
fn sync_gate_sleep_times() {
    // Early IBD on mainnet: five minutes.
    assert_eq!(sync_wait_secs(true, true, 500, false, 1000, 0), 300);
    // Early IBD on regtest: three seconds.
    assert_eq!(sync_wait_secs(true, true, 500, true, 1000, 0), 3);
    // Ten thousand blocks behind: a second per forty of them.
    assert_eq!(sync_wait_secs(false, false, 99999, false, 10_000, 0), 250);
    // Nearly synced: the five-second floor.
    assert_eq!(sync_wait_secs(false, false, 99999, false, 100, 0), 5);
}

#[test]
fn wallet_boot_decisions() {
    let plan = wallet_boot_plan(false, 100, 80);
    assert!(plan.create);
    assert!(plan.fresh);
    let plan = wallet_boot_plan(true, 100, 50);
    assert!(!plan.create);
    assert!(!plan.fresh);
    assert_eq!(wallet_load_action(0), WalletLoad::Load);
    assert_eq!(wallet_load_action(1), WalletLoad::AlreadyLoaded);
    assert_eq!(wallet_load_action(3), WalletLoad::Conflict);
}

#[test]
fn network_names_and_sanity_check() {
    assert_eq!(bip70_name(Network::Bitcoin), "main");
    assert_eq!(bip70_name(Network::Testnet), "test");
    assert_eq!(bip70_name(Network::Regtest), "regtest");
    assert_eq!(bip70_name(Network::Signet), "signet");
    assert!(check_network(Network::Bitcoin, Network::Bitcoin));
    assert!(!check_network(Network::Bitcoin, Network::Regtest));
}

#[test]
fn one_tick_handles_a_deposit_spent_by_its_unvault() {
    let mut st = active_vault();
    // In a single tick, the unvault output appears and the deposit
    // disappears: the unvault diff explains the spent deposit.
    update_utxos(
        &mut st,
        &vec![DiffEntry { outpoint: op(10, 0), utxo: utxo(99_000_000) }],
        &vec![],
        &vec![],
        &vec![],
        vec![],
        &vec![SpentDepositObs {
            outpoint: op(1, 0),
            unvault_in_wallet: true,
            unvault: TxObs { height: None, in_mempool: true },
            spender: None,
            spender_confirmed: false,
            unvault_txo: utxo(99_000_000),
        }],
        14,
    );
    assert_eq!(st.store.vaults[0].status, VaultStatus::Unvaulting);
    assert!(!st.deposits.contains(op(1, 0)));
    assert!(st.unvaults.contains(op(10, 0)));
}

#[test]
fn spent_deposit_with_confirmed_unseen_unvault_skips_ahead() {
    let mut st = active_vault();
    // The deposit vanished and the wallet already sees the unvault
    // confirmed, with no known spender of the unvault output: the vault
    // skips straight to Unvaulted.
    update_utxos(
        &mut st,
        &vec![],
        &vec![],
        &vec![],
        &vec![],
        vec![],
        &vec![SpentDepositObs {
            outpoint: op(1, 0),
            unvault_in_wallet: true,
            unvault: TxObs { height: Some(108), in_mempool: false },
            spender: None,
            spender_confirmed: false,
            unvault_txo: utxo(99_000_000),
        }],
        14,
    );
    assert_eq!(st.store.vaults[0].status, VaultStatus::Unvaulted);
    assert!(!st.deposits.contains(op(1, 0)));
    assert!(st.unvaults.contains(op(10, 0)));
    let e = st.unvaults.entries.iter().find(|e| e.outpoint == op(10, 0)).unwrap();
    assert!(e.info.is_confirmed);
}

#[test]
fn a_full_tick_ignores_dust_and_funds_the_rest() {
    let mut st = ChainState::new(BlockchainTip { height: 100, hash: 0xAA });
    // One dust deposit and one real one arrive in the same tick; the
    // real one confirms on a later tick with its derived chain.
    let advanced = update_utxos(
        &mut st,
        &vec![],
        &vec![],
        &vec![],
        &vec![
            NewDepositObs {
                outpoint: op(1, 0),
                utxo: utxo(200_000),
                derivation_index: Some(0),
                received_at: 10,
            },
            NewDepositObs {
                outpoint: op(2, 0),
                utxo: utxo(100_000_000),
                derivation_index: Some(0),
                received_at: 10,
            },
        ],
        vec![],
        &vec![],
        10,
    );
    assert!(advanced);
    assert_eq!(st.store.vaults.len(), 1);
    assert_eq!(st.store.vaults[0].deposit_outpoint, op(2, 0));
    assert_eq!(st.store.deposit_index, 1);
    let advanced = update_utxos(
        &mut st,
        &vec![],
        &vec![],
        &vec![],
        &vec![],
        vec![ConfirmDepositObs { outpoint: op(2, 0), height: Some(100), chain: Some(chain(10, 20, 30, 40)) }],
        &vec![],
        11,
    );
    assert!(!advanced);
    assert_eq!(st.store.vaults[0].status, VaultStatus::Funded);
    assert_eq!(st.store.vaults[0].blockheight, Some(100));
}
