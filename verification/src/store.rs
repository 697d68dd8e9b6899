//! The persistent store's logical operations: one record of vaults, spend
//! drafts and the chain tip, with the transitions the poller and the RPC
//! dispatcher drive.
//!
//! Every operation states exactly which row changes and how; the
//! surrounding shell persists the same record in SQLite and replays these
//! operations inside its transactions.

use vstd::prelude::*;

use crate::status::VaultStatus;
use crate::types::{BlockchainTip, TxRef};
use crate::vault::{PresignedSet, Psbt, TxKind, Vault};

verus! {

broadcast use vstd::seq_lib::group_seq_properties;

/// Broadcast bookkeeping of a Spend draft.
#[derive(Clone, Copy, PartialEq, Eq, Structural, Debug)]
pub enum SpendTxState {
    /// Stored by a manager, not yet cleared for broadcast.
    Stored,
    /// Cleared for broadcast; the next tip event tries to broadcast it.
    Broadcastable,
    /// Handed to the node once.
    Broadcasted,
}

/// A manager-authored Spend draft and which unvault outputs it consumes.
#[derive(Debug)]
pub struct SpendRow {
    /// Txid of the draft's unsigned transaction; the key.
    pub txid: u64,
    /// Identifier of the stored PSBT serialization.
    pub blob: u64,
    /// Txids of the unvault transactions whose outputs it spends.
    pub unvault_txids: Vec<u64>,
    pub state: SpendTxState,
}

/// The durable record: chain tip, derivation cursor, vaults and Spend
/// drafts.
#[derive(Debug)]
pub struct Store {
    pub tip: BlockchainTip,
    /// The next unused derivation index.
    pub deposit_index: u32,
    pub vaults: Vec<Vault>,
    pub spends: Vec<SpendRow>,
}

/// Some row of `vs` is keyed by deposit outpoint `op`.
pub open spec fn seq_has_vault(vs: Seq<Vault>, op: TxRef) -> bool {
    exists|i: int| 0 <= i < vs.len() && (#[trigger] vs[i]).deposit_outpoint == op
}

/// No two vaults share a deposit outpoint.
pub open spec fn deposit_keys_unique(vs: Seq<Vault>) -> bool {
    forall|i: int, j: int|
        0 <= i < vs.len() && 0 <= j < vs.len() && i != j ==> #[trigger] vs[i].deposit_outpoint
            != #[trigger] vs[j].deposit_outpoint
}

/// No two derived chains share an unvault txid.
pub open spec fn unvault_ids_unique(vs: Seq<Vault>) -> bool {
    forall|i: int, j: int|
        0 <= i < vs.len() && 0 <= j < vs.len() && i != j && #[trigger] vs[i].unvault_txid() is Some
            ==> vs[i].unvault_txid() != #[trigger] vs[j].unvault_txid()
}

/// No two Spend drafts share a txid.
pub open spec fn spend_keys_unique(ss: Seq<SpendRow>) -> bool {
    forall|i: int, j: int|
        0 <= i < ss.len() && 0 <= j < ss.len() && i != j ==> #[trigger] ss[i].txid
            != #[trigger] ss[j].txid
}

/// Uniqueness of unvault txids survives any rewrite that keeps each row's
/// unvault txid.
pub proof fn lemma_unvault_ids_preserved(pre: Seq<Vault>, post: Seq<Vault>)
    requires
        unvault_ids_unique(pre),
        post.len() == pre.len(),
        forall|i: int|
            0 <= i < pre.len() ==> (#[trigger] post[i]).unvault_txid() == pre[i].unvault_txid(),
    ensures
        unvault_ids_unique(post),
{
    assert forall|i: int, j: int|
        0 <= i < post.len() && 0 <= j < post.len() && i != j && (#[trigger] post[i]).unvault_txid() is Some implies post[i].unvault_txid()
        != (#[trigger] post[j]).unvault_txid() by {
        assert(post[i].unvault_txid() == pre[i].unvault_txid());
        assert(post[j].unvault_txid() == pre[j].unvault_txid());
    }
}

impl Store {
    /// Store invariant: unique keys, and every row well-formed.
    pub open spec fn wf(self) -> bool {
        &&& deposit_keys_unique(self.vaults@)
        &&& unvault_ids_unique(self.vaults@)
        &&& spend_keys_unique(self.spends@)
        &&& forall|i: int| 0 <= i < self.vaults@.len() ==> (#[trigger] self.vaults@[i]).wf()
    }

    /// Everything but the vault keyed by `op` is untouched, and no key
    /// moved.
    pub open spec fn frame_vault(pre: Store, post: Store, op: TxRef) -> bool {
        &&& post.tip == pre.tip
        &&& post.deposit_index == pre.deposit_index
        &&& post.spends@ == pre.spends@
        &&& post.vaults@.len() == pre.vaults@.len()
        &&& forall|i: int|
            0 <= i < pre.vaults@.len() ==> (#[trigger] post.vaults@[i]).deposit_outpoint
                == pre.vaults@[i].deposit_outpoint
        &&& forall|i: int|
            0 <= i < pre.vaults@.len() && pre.vaults@[i].deposit_outpoint != op
                ==> #[trigger] post.vaults@[i] == pre.vaults@[i]
    }

    /// As [`Self::frame_vault`], but the touched vault is named by the txid
    /// of its unvault transaction.
    pub open spec fn frame_vault_by_unvault(pre: Store, post: Store, utxid: u64) -> bool {
        &&& post.tip == pre.tip
        &&& post.deposit_index == pre.deposit_index
        &&& post.spends@ == pre.spends@
        &&& post.vaults@.len() == pre.vaults@.len()
        &&& forall|i: int|
            0 <= i < pre.vaults@.len() ==> (#[trigger] post.vaults@[i]).deposit_outpoint
                == pre.vaults@[i].deposit_outpoint
        &&& forall|i: int|
            0 <= i < pre.vaults@.len() && pre.vaults@[i].unvault_txid() != Some(utxid)
                ==> #[trigger] post.vaults@[i] == pre.vaults@[i]
    }

    /// There is a vault for deposit outpoint `op`.
    pub open spec fn has_vault(self, op: TxRef) -> bool {
        seq_has_vault(self.vaults@, op)
    }

    /// There is a vault whose unvault transaction is `utxid`.
    pub open spec fn has_vault_by_unvault(self, utxid: u64) -> bool {
        exists|i: int|
            0 <= i < self.vaults@.len() && (#[trigger] self.vaults@[i]).unvault_txid() == Some(
                utxid,
            )
    }

    /// Index of the vault for `op`, if any.
    pub fn find_by_deposit(&self, op: TxRef) -> (r: Option<usize>)
        ensures
            match r {
                Some(i) => i < self.vaults@.len() && self.vaults@[i as int].deposit_outpoint == op,
                None => !self.has_vault(op),
            },
    {
        let mut i: usize = 0;
        while i < self.vaults.len()
            invariant
                i <= self.vaults@.len(),
                forall|j: int|
                    0 <= j < i ==> (#[trigger] self.vaults@[j]).deposit_outpoint != op,
            decreases self.vaults@.len() - i,
        {
            if self.vaults[i].deposit_outpoint == op {
                return Some(i);
            }
            i = i + 1;
        }
        None
    }

    /// Index of the vault whose unvault txid is `utxid`, if any.
    pub fn find_by_unvault(&self, utxid: u64) -> (r: Option<usize>)
        ensures
            match r {
                Some(i) => i < self.vaults@.len() && self.vaults@[i as int].unvault_txid() == Some(
                    utxid,
                ),
                None => !self.has_vault_by_unvault(utxid),
            },
    {
        let mut i: usize = 0;
        while i < self.vaults.len()
            invariant
                i <= self.vaults@.len(),
                forall|j: int|
                    0 <= j < i ==> (#[trigger] self.vaults@[j]).unvault_txid() != Some(utxid),
            decreases self.vaults@.len() - i,
        {
            let found: bool = match &self.vaults[i].presigned {
                Some(p) => p.unvault.txid == utxid,
                None => false,
            };
            if found {
                return Some(i);
            }
            i = i + 1;
        }
        None
    }

    /// `tip_write`: record the tip the poller just processed.
    pub fn set_tip(&mut self, tip: BlockchainTip)
        ensures
            final(self).tip == tip,
            final(self).deposit_index == old(self).deposit_index,
            final(self).vaults@ == old(self).vaults@,
            final(self).spends@ == old(self).spends@,
    {
        self.tip = tip;
    }

    /// `update_deposit_index`: advance the next-unused derivation cursor.
    pub fn update_deposit_index(&mut self, new_index: u32)
        requires
            new_index >= old(self).deposit_index,
        ensures
            final(self).deposit_index == new_index,
            final(self).tip == old(self).tip,
            final(self).vaults@ == old(self).vaults@,
            final(self).spends@ == old(self).spends@,
    {
        self.deposit_index = new_index;
    }

    /// `vault_upsert_unconfirmed`: record a fresh deposit as an
    /// `Unconfirmed` vault. Refused (returning `false`) when a vault for
    /// the outpoint already exists.
    pub fn insert_unconfirmed_vault(
        &mut self,
        op: TxRef,
        amount: u64,
        derivation_index: u32,
        received_at: u64,
        now: u64,
    ) -> (r: bool)
        requires
            old(self).wf(),
        ensures
            final(self).wf(),
            r == !old(self).has_vault(op),
            r ==> final(self).vaults@ == old(self).vaults@.push(
                new_unconfirmed_vault(op, amount, derivation_index, received_at, now),
            ),
            !r ==> final(self).vaults@ == old(self).vaults@,
            final(self).tip == old(self).tip,
            final(self).deposit_index == old(self).deposit_index,
            final(self).spends@ == old(self).spends@,
    {
        if self.find_by_deposit(op).is_some() {
            return false;
        }
        self.vaults.push(
            Vault {
                deposit_outpoint: op,
                amount,
                derivation_index,
                status: VaultStatus::Unconfirmed,
                blockheight: None,
                received_at,
                updated_at: now,
                spend_txid: None,
                presigned: None,
            },
        );
        true
    }

    /// `confirm_deposit`: promote an `Unconfirmed` vault to `Funded`,
    /// recording the deposit's confirmation height and the freshly derived
    /// presigned chain. Returns whether a transition happened.
    pub fn confirm_deposit(&mut self, op: TxRef, height: u32, chain: PresignedSet, now: u64) -> (r:
        bool)
        requires
            old(self).wf(),
            forall|i: int|
                0 <= i < old(self).vaults@.len() && (#[trigger] old(self).vaults@[i]).unvault_txid()
                    == Some(chain.unvault.txid) ==> old(self).vaults@[i].deposit_outpoint == op,
        ensures
            final(self).wf(),
            Store::frame_vault(*old(self), *final(self), op),
            forall|i: int|
                0 <= i < old(self).vaults@.len() && (#[trigger] old(self).vaults@[i]).deposit_outpoint
                    == op ==> final(self).vaults@[i] == (if old(self).vaults@[i].status
                    == VaultStatus::Unconfirmed {
                    funded_vault(old(self).vaults@[i], height, chain, now)
                } else {
                    old(self).vaults@[i]
                }),
            r == exists|i: int|
                0 <= i < old(self).vaults@.len() && (#[trigger] old(self).vaults@[i]).deposit_outpoint
                    == op && old(self).vaults@[i].status == VaultStatus::Unconfirmed,
    {
        match self.find_by_deposit(op) {
            Some(i) => {
                if matches!(self.vaults[i].status, VaultStatus::Unconfirmed) {
                    let v = &mut self.vaults[i];
                    v.status = VaultStatus::Funded;
                    v.blockheight = Some(height);
                    v.presigned = Some(chain);
                    v.updated_at = now;
                    true
                } else {
                    false
                }
            },
            None => false,
        }
    }
}

impl Store {
    /// `unvault_deposit`: an unvault output appeared on-chain; its `Active`
    /// vault becomes `Unvaulting`.
    pub fn unvault_deposit(&mut self, utxid: u64, now: u64) -> (r: bool)
        requires
            old(self).wf(),
        ensures
            final(self).wf(),
            Store::frame_vault_by_unvault(*old(self), *final(self), utxid),
            forall|i: int|
                0 <= i < old(self).vaults@.len() && (#[trigger] old(self).vaults@[i]).unvault_txid()
                    == Some(utxid) ==> final(self).vaults@[i] == (if old(self).vaults@[i].status
                    == VaultStatus::Active {
                    with_status(old(self).vaults@[i], VaultStatus::Unvaulting, now)
                } else {
                    old(self).vaults@[i]
                }),
            r == exists|i: int|
                0 <= i < old(self).vaults@.len() && (#[trigger] old(self).vaults@[i]).unvault_txid()
                    == Some(utxid) && old(self).vaults@[i].status == VaultStatus::Active,
    {
        match self.find_by_unvault(utxid) {
            Some(i) => {
                if matches!(self.vaults[i].status, VaultStatus::Active) {
                    let v = &mut self.vaults[i];
                    v.status = VaultStatus::Unvaulting;
                                        v.updated_at = now;
                    proof {
                        lemma_unvault_ids_preserved(old(self).vaults@, self.vaults@);
                    }
                    true
                } else {
                    false
                }
            },
            None => false,
        }
    }

    /// `confirm_unvault`: record the unvault transaction as confirmed. Also
    /// the downgrade target when a Spend or Cancel was evicted from the
    /// mempool: any recorded spender is cleared.
    pub fn confirm_unvault(&mut self, utxid: u64, now: u64) -> (r: bool)
        requires
            old(self).wf(),
        ensures
            final(self).wf(),
            Store::frame_vault_by_unvault(*old(self), *final(self), utxid),
            forall|i: int|
                0 <= i < old(self).vaults@.len() && (#[trigger] old(self).vaults@[i]).unvault_txid()
                    == Some(utxid) ==> final(self).vaults@[i] == (if can_confirm_unvault(
                    old(self).vaults@[i].status,
                ) {
                    with_status_no_spender(old(self).vaults@[i], VaultStatus::Unvaulted, now)
                } else {
                    old(self).vaults@[i]
                }),
            r == exists|i: int|
                0 <= i < old(self).vaults@.len() && (#[trigger] old(self).vaults@[i]).unvault_txid()
                    == Some(utxid) && can_confirm_unvault(old(self).vaults@[i].status),
    {
        match self.find_by_unvault(utxid) {
            Some(i) => {
                if matches!(
                    self.vaults[i].status,
                    VaultStatus::Active
                        | VaultStatus::Unvaulting
                        | VaultStatus::Unvaulted
                        | VaultStatus::Spending
                        | VaultStatus::Canceling
                ) {
                    let v = &mut self.vaults[i];
                    v.status = VaultStatus::Unvaulted;
                    v.spend_txid = None;
                                        v.updated_at = now;
                    proof {
                        lemma_unvault_ids_preserved(old(self).vaults@, self.vaults@);
                    }
                    true
                } else {
                    false
                }
            },
            None => false,
        }
    }

    /// `spend_unvault`: a Spend consuming the unvault output was observed;
    /// record its txid and mark the vault `Spending`.
    pub fn spend_unvault(&mut self, utxid: u64, spend_txid: u64, now: u64) -> (r: bool)
        requires
            old(self).wf(),
        ensures
            final(self).wf(),
            Store::frame_vault_by_unvault(*old(self), *final(self), utxid),
            forall|i: int|
                0 <= i < old(self).vaults@.len() && (#[trigger] old(self).vaults@[i]).unvault_txid()
                    == Some(utxid) ==> final(self).vaults@[i] == (if can_record_spender(
                    old(self).vaults@[i].status,
                ) {
                    spending_vault(old(self).vaults@[i], spend_txid, now)
                } else {
                    old(self).vaults@[i]
                }),
            r == exists|i: int|
                0 <= i < old(self).vaults@.len() && (#[trigger] old(self).vaults@[i]).unvault_txid()
                    == Some(utxid) && can_record_spender(old(self).vaults@[i].status),
    {
        match self.find_by_unvault(utxid) {
            Some(i) => {
                if matches!(
                    self.vaults[i].status,
                    VaultStatus::Active | VaultStatus::Unvaulting | VaultStatus::Unvaulted
                ) {
                    let v = &mut self.vaults[i];
                    v.status = VaultStatus::Spending;
                    v.spend_txid = Some(spend_txid);
                                        v.updated_at = now;
                    proof {
                        lemma_unvault_ids_preserved(old(self).vaults@, self.vaults@);
                    }
                    true
                } else {
                    false
                }
            },
            None => false,
        }
    }

    /// `cancel_unvault`: a Cancel consuming the unvault output was
    /// observed; mark the vault `Canceling`.
    pub fn cancel_unvault(&mut self, utxid: u64, now: u64) -> (r: bool)
        requires
            old(self).wf(),
        ensures
            final(self).wf(),
            Store::frame_vault_by_unvault(*old(self), *final(self), utxid),
            forall|i: int|
                0 <= i < old(self).vaults@.len() && (#[trigger] old(self).vaults@[i]).unvault_txid()
                    == Some(utxid) ==> final(self).vaults@[i] == (if can_record_spender(
                    old(self).vaults@[i].status,
                ) {
                    with_status_no_spender(old(self).vaults@[i], VaultStatus::Canceling, now)
                } else {
                    old(self).vaults@[i]
                }),
            r == exists|i: int|
                0 <= i < old(self).vaults@.len() && (#[trigger] old(self).vaults@[i]).unvault_txid()
                    == Some(utxid) && can_record_spender(old(self).vaults@[i].status),
    {
        match self.find_by_unvault(utxid) {
            Some(i) => {
                if matches!(
                    self.vaults[i].status,
                    VaultStatus::Active | VaultStatus::Unvaulting | VaultStatus::Unvaulted
                ) {
                    let v = &mut self.vaults[i];
                    v.status = VaultStatus::Canceling;
                    v.spend_txid = None;
                                        v.updated_at = now;
                    proof {
                        lemma_unvault_ids_preserved(old(self).vaults@, self.vaults@);
                    }
                    true
                } else {
                    false
                }
            },
            None => false,
        }
    }

    /// `mark_spent`: the recorded Spend confirmed; `Spending` becomes
    /// `Spent`.
    pub fn mark_spent(&mut self, utxid: u64, now: u64) -> (r: bool)
        requires
            old(self).wf(),
        ensures
            final(self).wf(),
            Store::frame_vault_by_unvault(*old(self), *final(self), utxid),
            forall|i: int|
                0 <= i < old(self).vaults@.len() && (#[trigger] old(self).vaults@[i]).unvault_txid()
                    == Some(utxid) ==> final(self).vaults@[i] == (if old(self).vaults@[i].status
                    == VaultStatus::Spending {
                    with_status(old(self).vaults@[i], VaultStatus::Spent, now)
                } else {
                    old(self).vaults@[i]
                }),
            r == exists|i: int|
                0 <= i < old(self).vaults@.len() && (#[trigger] old(self).vaults@[i]).unvault_txid()
                    == Some(utxid) && old(self).vaults@[i].status == VaultStatus::Spending,
    {
        match self.find_by_unvault(utxid) {
            Some(i) => {
                if matches!(self.vaults[i].status, VaultStatus::Spending) {
                    let v = &mut self.vaults[i];
                    v.status = VaultStatus::Spent;
                                        v.updated_at = now;
                    proof {
                        lemma_unvault_ids_preserved(old(self).vaults@, self.vaults@);
                    }
                    true
                } else {
                    false
                }
            },
            None => false,
        }
    }

    /// `mark_canceled`: the Cancel confirmed; `Canceling` becomes
    /// `Canceled`.
    pub fn mark_canceled(&mut self, utxid: u64, now: u64) -> (r: bool)
        requires
            old(self).wf(),
        ensures
            final(self).wf(),
            Store::frame_vault_by_unvault(*old(self), *final(self), utxid),
            forall|i: int|
                0 <= i < old(self).vaults@.len() && (#[trigger] old(self).vaults@[i]).unvault_txid()
                    == Some(utxid) ==> final(self).vaults@[i] == (if old(self).vaults@[i].status
                    == VaultStatus::Canceling {
                    with_status(old(self).vaults@[i], VaultStatus::Canceled, now)
                } else {
                    old(self).vaults@[i]
                }),
            r == exists|i: int|
                0 <= i < old(self).vaults@.len() && (#[trigger] old(self).vaults@[i]).unvault_txid()
                    == Some(utxid) && old(self).vaults@[i].status == VaultStatus::Canceling,
    {
        match self.find_by_unvault(utxid) {
            Some(i) => {
                if matches!(self.vaults[i].status, VaultStatus::Canceling) {
                    let v = &mut self.vaults[i];
                    v.status = VaultStatus::Canceled;
                                        v.updated_at = now;
                    proof {
                        lemma_unvault_ids_preserved(old(self).vaults@, self.vaults@);
                    }
                    true
                } else {
                    false
                }
            },
            None => false,
        }
    }

    /// `unconfirm_deposit`: the deposit lost its confirmation; a
    /// first-layer vault rewinds to `Unconfirmed`.
    pub fn unconfirm_deposit(&mut self, op: TxRef, now: u64) -> (r: bool)
        requires
            old(self).wf(),
        ensures
            final(self).wf(),
            Store::frame_vault(*old(self), *final(self), op),
            forall|i: int|
                0 <= i < old(self).vaults@.len() && (#[trigger] old(self).vaults@[i]).deposit_outpoint
                    == op ==> final(self).vaults@[i] == (if old(self).vaults@[i].status.spec_first_layer() {
                    unconfirmed_vault(old(self).vaults@[i], now)
                } else {
                    old(self).vaults@[i]
                }),
            r == exists|i: int|
                0 <= i < old(self).vaults@.len() && (#[trigger] old(self).vaults@[i]).deposit_outpoint
                    == op && old(self).vaults@[i].status.spec_first_layer(),
    {
        match self.find_by_deposit(op) {
            Some(i) => {
                if self.vaults[i].status.first_layer() {
                    let v = &mut self.vaults[i];
                    v.status = VaultStatus::Unconfirmed;
                    v.blockheight = None;
                    v.spend_txid = None;
                                        v.updated_at = now;
                    proof {
                        lemma_unvault_ids_preserved(old(self).vaults@, self.vaults@);
                    }
                    true
                } else {
                    false
                }
            },
            None => false,
        }
    }

    /// `unconfirm_unvault`: the unvault transaction lost its confirmation;
    /// a vault past the unvault rewinds to `Unvaulting` and forgets its
    /// spender.
    pub fn unconfirm_unvault(&mut self, op: TxRef, now: u64) -> (r: bool)
        requires
            old(self).wf(),
        ensures
            final(self).wf(),
            Store::frame_vault(*old(self), *final(self), op),
            forall|i: int|
                0 <= i < old(self).vaults@.len() && (#[trigger] old(self).vaults@[i]).deposit_outpoint
                    == op ==> final(self).vaults@[i] == (if old(self).vaults@[i].status.spec_past_unvault() {
                    with_status_no_spender(old(self).vaults@[i], VaultStatus::Unvaulting, now)
                } else {
                    old(self).vaults@[i]
                }),
            r == exists|i: int|
                0 <= i < old(self).vaults@.len() && (#[trigger] old(self).vaults@[i]).deposit_outpoint
                    == op && old(self).vaults@[i].status.spec_past_unvault(),
    {
        match self.find_by_deposit(op) {
            Some(i) => {
                if self.vaults[i].status.past_unvault() {
                    let v = &mut self.vaults[i];
                    v.status = VaultStatus::Unvaulting;
                    v.spend_txid = None;
                                        v.updated_at = now;
                    proof {
                        lemma_unvault_ids_preserved(old(self).vaults@, self.vaults@);
                    }
                    true
                } else {
                    false
                }
            },
            None => false,
        }
    }

    /// `unconfirm_spend`: only the Spend lost its confirmation; `Spent`
    /// rewinds to `Spending`, keeping the Spend txid.
    pub fn unconfirm_spend(&mut self, op: TxRef, now: u64) -> (r: bool)
        requires
            old(self).wf(),
        ensures
            final(self).wf(),
            Store::frame_vault(*old(self), *final(self), op),
            forall|i: int|
                0 <= i < old(self).vaults@.len() && (#[trigger] old(self).vaults@[i]).deposit_outpoint
                    == op ==> final(self).vaults@[i] == (if old(self).vaults@[i].status
                    == VaultStatus::Spent {
                    with_status(old(self).vaults@[i], VaultStatus::Spending, now)
                } else {
                    old(self).vaults@[i]
                }),
            r == exists|i: int|
                0 <= i < old(self).vaults@.len() && (#[trigger] old(self).vaults@[i]).deposit_outpoint
                    == op && old(self).vaults@[i].status == VaultStatus::Spent,
    {
        match self.find_by_deposit(op) {
            Some(i) => {
                if matches!(self.vaults[i].status, VaultStatus::Spent) {
                    let v = &mut self.vaults[i];
                    v.status = VaultStatus::Spending;
                                        v.updated_at = now;
                    proof {
                        lemma_unvault_ids_preserved(old(self).vaults@, self.vaults@);
                    }
                    true
                } else {
                    false
                }
            },
            None => false,
        }
    }

    /// `unconfirm_cancel`: only the Cancel lost its confirmation;
    /// `Canceled` rewinds to `Canceling`.
    pub fn unconfirm_cancel(&mut self, op: TxRef, now: u64) -> (r: bool)
        requires
            old(self).wf(),
        ensures
            final(self).wf(),
            Store::frame_vault(*old(self), *final(self), op),
            forall|i: int|
                0 <= i < old(self).vaults@.len() && (#[trigger] old(self).vaults@[i]).deposit_outpoint
                    == op ==> final(self).vaults@[i] == (if old(self).vaults@[i].status
                    == VaultStatus::Canceled {
                    with_status(old(self).vaults@[i], VaultStatus::Canceling, now)
                } else {
                    old(self).vaults@[i]
                }),
            r == exists|i: int|
                0 <= i < old(self).vaults@.len() && (#[trigger] old(self).vaults@[i]).deposit_outpoint
                    == op && old(self).vaults@[i].status == VaultStatus::Canceled,
    {
        match self.find_by_deposit(op) {
            Some(i) => {
                if matches!(self.vaults[i].status, VaultStatus::Canceled) {
                    let v = &mut self.vaults[i];
                    v.status = VaultStatus::Canceling;
                                        v.updated_at = now;
                    proof {
                        lemma_unvault_ids_preserved(old(self).vaults@, self.vaults@);
                    }
                    true
                } else {
                    false
                }
            },
            None => false,
        }
    }
}

/// `v@` holds `x`.
pub fn vec_contains_u64(v: &Vec<u64>, x: u64) -> (r: bool)
    ensures
        r == v@.contains(x),
{
    let mut i: usize = 0;
    while i < v.len()
        invariant
            i <= v@.len(),
            forall|j: int| 0 <= j < i ==> v@[j] != x,
        decreases v@.len() - i,
    {
        if v[i] == x {
            return true;
        }
        i = i + 1;
    }
    false
}

/// Add to `dst` every signer of `src` it does not hold yet.
fn merge_sigs_into(dst: &mut Vec<u64>, src: &Vec<u64>)
    ensures
        forall|k: u64| #![trigger final(dst)@.contains(k)] #![trigger old(dst)@.contains(k)] #![trigger src@.contains(k)]
            final(dst)@.contains(k) <==> old(dst)@.contains(k) || src@.contains(k),
{
    let mut j: usize = 0;
    while j < src.len()
        invariant
            j <= src@.len(),
            forall|k: u64| #![trigger dst@.contains(k)] #![trigger old(dst)@.contains(k)]
                dst@.contains(k) <==> old(dst)@.contains(k) || src@.take(j as int).contains(k),
        decreases src@.len() - j,
    {
        let s = src[j];
        if !vec_contains_u64(dst, s) {
            dst.push(s);
        }
        proof {
            assert(src@.take(j + 1) =~= src@.take(j as int).push(src@[j as int]));
        }
        j = j + 1;
    }
    proof {
        assert(src@.take(src@.len() as int) =~= src@);
    }
}

/// Every key of `keys` has a signature in `sigs`.
pub fn all_keys_signed(sigs: &Vec<u64>, keys: &Vec<u64>) -> (r: bool)
    ensures
        r == forall|i: int| 0 <= i < keys@.len() ==> sigs@.contains(#[trigger] keys@[i]),
{
    let mut i: usize = 0;
    while i < keys.len()
        invariant
            i <= keys@.len(),
            forall|j: int| 0 <= j < i ==> sigs@.contains(#[trigger] keys@[j]),
        decreases keys@.len() - i,
    {
        if !vec_contains_u64(sigs, keys[i]) {
            return false;
        }
        i = i + 1;
    }
    true
}

/// The stored PSBT of `kind`, if the chain holds one.
pub open spec fn psbt_kind(p: PresignedSet, kind: TxKind) -> Option<Psbt> {
    match kind {
        TxKind::Unvault => Some(p.unvault),
        TxKind::Cancel => Some(p.cancel),
        TxKind::Emergency => p.emergency,
        TxKind::UnvaultEmergency => p.unvault_emergency,
    }
}

/// The vault's chain holds a PSBT of `kind`.
pub open spec fn vault_has_kind(v: Vault, kind: TxKind) -> bool {
    match v.presigned {
        Some(p) => psbt_kind(p, kind) is Some,
        None => false,
    }
}

/// `post` is `pre` with the signatures of `given` merged in, identifiers
/// untouched.
pub open spec fn psbt_merged(pre: Psbt, post: Psbt, given: Seq<u64>) -> bool {
    &&& post.wtxid == pre.wtxid
    &&& post.txid == pre.txid
    &&& forall|k: u64|
        #![trigger post.sigs@.contains(k)]
        #![trigger pre.sigs@.contains(k)]
        #![trigger given.contains(k)]
        post.sigs@.contains(k) <==> pre.sigs@.contains(k) || given.contains(k)
}

/// Every stored revocation transaction carries a signature of every
/// stakeholder.
pub open spec fn revs_fully_signed(p: PresignedSet, keys: Seq<u64>) -> bool {
    &&& p.cancel.fully_signed(keys)
    &&& match p.emergency {
        Some(e) => e.fully_signed(keys),
        None => true,
    }
    &&& match p.unvault_emergency {
        Some(e) => e.fully_signed(keys),
        None => true,
    }
}

/// The status after a signature merge: receipt of the last missing
/// revocation signature promotes to `Secured`, of the last unvault
/// signature to `Active`, in the same transaction.
pub open spec fn promoted_status(
    st: VaultStatus,
    p: PresignedSet,
    kind: TxKind,
    keys: Seq<u64>,
) -> VaultStatus {
    if kind != TxKind::Unvault && (st == VaultStatus::Funded || st == VaultStatus::Securing)
        && revs_fully_signed(p, keys) {
        VaultStatus::Secured
    } else if kind == TxKind::Unvault && (st == VaultStatus::Secured || st
        == VaultStatus::Activating) && p.unvault.fully_signed(keys) {
        VaultStatus::Active
    } else {
        st
    }
}

/// How `presigned_update` rewrites the one vault it touches.
pub open spec fn presigned_updated(
    pre: Vault,
    post: Vault,
    kind: TxKind,
    given: Seq<u64>,
    keys: Seq<u64>,
    now: u64,
) -> bool {
    if vault_has_kind(pre, kind) {
        &&& pre.presigned is Some
        &&& post.presigned is Some
        &&& psbt_kind(post.presigned->Some_0, kind) is Some
        &&& psbt_merged(
            psbt_kind(pre.presigned->Some_0, kind)->Some_0,
            psbt_kind(post.presigned->Some_0, kind)->Some_0,
            given,
        )
        &&& forall|k2: TxKind|
            k2 != kind ==> #[trigger] psbt_kind(post.presigned->Some_0, k2) == psbt_kind(
                pre.presigned->Some_0,
                k2,
            )
        &&& post.status == promoted_status(pre.status, post.presigned->Some_0, kind, keys)
        &&& post.deposit_outpoint == pre.deposit_outpoint
        &&& post.amount == pre.amount
        &&& post.derivation_index == pre.derivation_index
        &&& post.blockheight == pre.blockheight
        &&& post.received_at == pre.received_at
        &&& post.spend_txid == pre.spend_txid
        &&& post.updated_at == now
    } else {
        post == pre
    }
}

impl Store {
    /// `presigned_update`: merge freshly received partial signatures into
    /// the stored PSBT of `kind` and, when the quorum is now complete,
    /// advance the status in the same transaction. Returns whether the
    /// vault exists and its chain holds a PSBT of `kind`.
    pub fn update_presigned_tx(
        &mut self,
        op: TxRef,
        kind: TxKind,
        sigs: &Vec<u64>,
        stakeholder_keys: &Vec<u64>,
        now: u64,
    ) -> (r: bool)
        requires
            old(self).wf(),
        ensures
            final(self).wf(),
            Store::frame_vault(*old(self), *final(self), op),
            forall|i: int|
                0 <= i < old(self).vaults@.len() && (#[trigger] old(self).vaults@[i]).deposit_outpoint
                    == op ==> presigned_updated(
                    old(self).vaults@[i],
                    final(self).vaults@[i],
                    kind,
                    sigs@,
                    stakeholder_keys@,
                    now,
                ),
            r == exists|i: int|
                0 <= i < old(self).vaults@.len() && (#[trigger] old(self).vaults@[i]).deposit_outpoint
                    == op && vault_has_kind(old(self).vaults@[i], kind),
    {
        let i = match self.find_by_deposit(op) {
            Some(i) => i,
            None => {
                return false;
            },
        };
        let has_kind: bool = match &self.vaults[i].presigned {
            Some(p) => match kind {
                TxKind::Unvault => true,
                TxKind::Cancel => true,
                TxKind::Emergency => p.emergency.is_some(),
                TxKind::UnvaultEmergency => p.unvault_emergency.is_some(),
            },
            None => false,
        };
        if !has_kind {
            return false;
        }
        match &mut self.vaults[i].presigned {
            Some(p) => match kind {
                TxKind::Unvault => merge_sigs_into(&mut p.unvault.sigs, sigs),
                TxKind::Cancel => merge_sigs_into(&mut p.cancel.sigs, sigs),
                TxKind::Emergency => match &mut p.emergency {
                    Some(e) => merge_sigs_into(&mut e.sigs, sigs),
                    None => {
                        proof {
                            assert(false);
                        }
                    },
                },
                TxKind::UnvaultEmergency => match &mut p.unvault_emergency {
                    Some(e) => merge_sigs_into(&mut e.sigs, sigs),
                    None => {
                        proof {
                            assert(false);
                        }
                    },
                },
            },
            None => {
                proof {
                    assert(false);
                }
            },
        }
        let promote_secured: bool;
        let promote_active: bool;
        match &self.vaults[i].presigned {
            Some(p) => {
                let revs_ok = all_keys_signed(&p.cancel.sigs, stakeholder_keys) && (match &p.emergency {
                    Some(e) => all_keys_signed(&e.sigs, stakeholder_keys),
                    None => true,
                }) && (match &p.unvault_emergency {
                    Some(e) => all_keys_signed(&e.sigs, stakeholder_keys),
                    None => true,
                });
                let unv_ok = all_keys_signed(&p.unvault.sigs, stakeholder_keys);
                let is_rev_kind = !matches!(kind, TxKind::Unvault);
                promote_secured = is_rev_kind && matches!(
                    self.vaults[i].status,
                    VaultStatus::Funded | VaultStatus::Securing
                ) && revs_ok;
                promote_active = !is_rev_kind && matches!(
                    self.vaults[i].status,
                    VaultStatus::Secured | VaultStatus::Activating
                ) && unv_ok;
            },
            None => {
                promote_secured = false;
                promote_active = false;
            },
        }
        {
            let v = &mut self.vaults[i];
            if promote_secured {
                v.status = VaultStatus::Secured;
            } else if promote_active {
                v.status = VaultStatus::Active;
            }
            v.updated_at = now;
        }
        proof {
            lemma_unvault_ids_preserved(old(self).vaults@, self.vaults@);
        }
        true
    }

    /// Mark a `Funded` vault `Securing` after its first revocation
    /// signatures were stored and shared (unless the merge already promoted
    /// it further).
    pub fn mark_securing(&mut self, op: TxRef, now: u64) -> (r: bool)
        requires
            old(self).wf(),
        ensures
            final(self).wf(),
            Store::frame_vault(*old(self), *final(self), op),
            forall|i: int|
                0 <= i < old(self).vaults@.len() && (#[trigger] old(self).vaults@[i]).deposit_outpoint
                    == op ==> final(self).vaults@[i] == (if old(self).vaults@[i].status
                    == VaultStatus::Funded {
                    with_status(old(self).vaults@[i], VaultStatus::Securing, now)
                } else {
                    old(self).vaults@[i]
                }),
            r == exists|i: int|
                0 <= i < old(self).vaults@.len() && (#[trigger] old(self).vaults@[i]).deposit_outpoint
                    == op && old(self).vaults@[i].status == VaultStatus::Funded,
    {
        match self.find_by_deposit(op) {
            Some(i) => {
                if matches!(self.vaults[i].status, VaultStatus::Funded) {
                    let v = &mut self.vaults[i];
                    v.status = VaultStatus::Securing;
                    v.updated_at = now;
                    proof {
                        lemma_unvault_ids_preserved(old(self).vaults@, self.vaults@);
                    }
                    true
                } else {
                    false
                }
            },
            None => false,
        }
    }

    /// Mark a `Secured` vault `Activating` after its unvault signature was
    /// stored and shared (unless the merge already promoted it further).
    pub fn mark_activating(&mut self, op: TxRef, now: u64) -> (r: bool)
        requires
            old(self).wf(),
        ensures
            final(self).wf(),
            Store::frame_vault(*old(self), *final(self), op),
            forall|i: int|
                0 <= i < old(self).vaults@.len() && (#[trigger] old(self).vaults@[i]).deposit_outpoint
                    == op ==> final(self).vaults@[i] == (if old(self).vaults@[i].status
                    == VaultStatus::Secured {
                    with_status(old(self).vaults@[i], VaultStatus::Activating, now)
                } else {
                    old(self).vaults@[i]
                }),
            r == exists|i: int|
                0 <= i < old(self).vaults@.len() && (#[trigger] old(self).vaults@[i]).deposit_outpoint
                    == op && old(self).vaults@[i].status == VaultStatus::Secured,
    {
        match self.find_by_deposit(op) {
            Some(i) => {
                if matches!(self.vaults[i].status, VaultStatus::Secured) {
                    let v = &mut self.vaults[i];
                    v.status = VaultStatus::Activating;
                    v.updated_at = now;
                    proof {
                        lemma_unvault_ids_preserved(old(self).vaults@, self.vaults@);
                    }
                    true
                } else {
                    false
                }
            },
            None => false,
        }
    }
}

/// The draft with only its broadcast state stepped.
pub open spec fn spend_with_state(s: SpendRow, st: SpendTxState) -> SpendRow {
    SpendRow { state: st, ..s }
}

/// The draft with a fresh PSBT stored.
pub open spec fn spend_with_blob(s: SpendRow, blob: u64) -> SpendRow {
    SpendRow { blob, ..s }
}

/// Every draft spending the unvault `u`, cleared for broadcast again;
/// the others untouched.
pub open spec fn spec_flag_spends(ss: Seq<SpendRow>, u: u64) -> Seq<SpendRow> {
    Seq::new(
        ss.len(),
        |j: int|
            if ss[j].unvault_txids@.contains(u) {
                spend_with_state(ss[j], SpendTxState::Broadcastable)
            } else {
                ss[j]
            },
    )
}

/// The draft keyed by `txid` stepped to `st`; the others untouched.
pub open spec fn spec_mark_spend(ss: Seq<SpendRow>, txid: u64, st: SpendTxState) -> Seq<SpendRow> {
    Seq::new(
        ss.len(),
        |j: int|
            if ss[j].txid == txid {
                spend_with_state(ss[j], st)
            } else {
                ss[j]
            },
    )
}

/// The vault the store's rows hold for `op` (meaningful when one
/// exists).
pub open spec fn vault_at(s: Store, op: TxRef) -> Vault {
    s.vaults@[choose|i: int|
        0 <= i < s.vaults@.len() && (#[trigger] s.vaults@[i]).deposit_outpoint == op]
}

/// With unique keys, [`vault_at`] is the vault at any matching index.
pub proof fn lemma_vault_at(s: Store, op: TxRef, i: int)
    requires
        s.wf(),
        0 <= i < s.vaults@.len(),
        s.vaults@[i].deposit_outpoint == op,
    ensures
        vault_at(s, op) == s.vaults@[i],
{
    assert(0 <= i < s.vaults@.len() && (#[trigger] s.vaults@[i]).deposit_outpoint == op);
    let j = choose|j: int|
        0 <= j < s.vaults@.len() && (#[trigger] s.vaults@[j]).deposit_outpoint == op;
    assert(s.vaults@[j].deposit_outpoint == op);
}

impl Store {
    /// Everything but the Spend draft keyed by `txid` is untouched, and no
    /// key moved.
    pub open spec fn frame_spend(pre: Store, post: Store, txid: u64) -> bool {
        &&& post.tip == pre.tip
        &&& post.deposit_index == pre.deposit_index
        &&& post.vaults@ == pre.vaults@
        &&& post.spends@.len() == pre.spends@.len()
        &&& forall|i: int|
            0 <= i < pre.spends@.len() ==> (#[trigger] post.spends@[i]).txid == pre.spends@[i].txid
        &&& forall|i: int|
            0 <= i < pre.spends@.len() && pre.spends@[i].txid != txid
                ==> #[trigger] post.spends@[i] == pre.spends@[i]
    }

    /// There is a Spend draft for `txid`.
    pub open spec fn has_spend(self, txid: u64) -> bool {
        exists|i: int| 0 <= i < self.spends@.len() && (#[trigger] self.spends@[i]).txid == txid
    }

    /// Index of the Spend draft for `txid`, if any.
    pub fn find_spend(&self, txid: u64) -> (r: Option<usize>)
        ensures
            match r {
                Some(i) => i < self.spends@.len() && self.spends@[i as int].txid == txid,
                None => !self.has_spend(txid),
            },
    {
        let mut i: usize = 0;
        while i < self.spends.len()
            invariant
                i <= self.spends@.len(),
                forall|j: int| 0 <= j < i ==> (#[trigger] self.spends@[j]).txid != txid,
            decreases self.spends@.len() - i,
        {
            if self.spends[i].txid == txid {
                return Some(i);
            }
            i = i + 1;
        }
        None
    }

    /// `spend_insert`: store a fresh Spend draft, not yet broadcastable.
    /// Refused when a draft with the txid exists.
    pub fn insert_spend(&mut self, txid: u64, blob: u64, unvault_txids: Vec<u64>) -> (r: bool)
        requires
            old(self).wf(),
        ensures
            final(self).wf(),
            r == !old(self).has_spend(txid),
            r ==> final(self).spends@ == old(self).spends@.push(
                SpendRow { txid, blob, unvault_txids, state: SpendTxState::Stored },
            ),
            !r ==> final(self).spends@ == old(self).spends@,
            final(self).tip == old(self).tip,
            final(self).deposit_index == old(self).deposit_index,
            final(self).vaults@ == old(self).vaults@,
    {
        if self.find_spend(txid).is_some() {
            return false;
        }
        self.spends.push(SpendRow { txid, blob, unvault_txids, state: SpendTxState::Stored });
        true
    }

    /// `spend_update`: replace the stored PSBT of an existing draft.
    pub fn update_spend(&mut self, txid: u64, blob: u64) -> (r: bool)
        requires
            old(self).wf(),
        ensures
            final(self).wf(),
            Store::frame_spend(*old(self), *final(self), txid),
            forall|i: int|
                0 <= i < old(self).spends@.len() && (#[trigger] old(self).spends@[i]).txid == txid
                    ==> final(self).spends@[i] == spend_with_blob(old(self).spends@[i], blob),
            r == old(self).has_spend(txid),
    {
        match self.find_spend(txid) {
            Some(i) => {
                let s = &mut self.spends[i];
                s.blob = blob;
                true
            },
            None => false,
        }
    }

    /// `spend_delete`: drop a draft.
    pub fn delete_spend(&mut self, txid: u64) -> (r: bool)
        requires
            old(self).wf(),
        ensures
            final(self).wf(),
            final(self).tip == old(self).tip,
            final(self).deposit_index == old(self).deposit_index,
            final(self).vaults@ == old(self).vaults@,
            r == old(self).has_spend(txid),
            r ==> exists|i: int|
                0 <= i < old(self).spends@.len() && (#[trigger] old(self).spends@[i]).txid == txid
                    && final(self).spends@ == old(self).spends@.remove(i),
            !r ==> final(self).spends@ == old(self).spends@,
            !final(self).has_spend(txid),
    {
        match self.find_spend(txid) {
            Some(i) => {
                self.spends.remove(i);
                proof {
                    assert forall|j: int|
                        0 <= j < self.spends@.len() implies (#[trigger] self.spends@[j]).txid
                        != txid by {
                        if j < i {
                            assert(self.spends@[j] == old(self).spends@[j]);
                        } else {
                            assert(self.spends@[j] == old(self).spends@[j + 1]);
                        }
                    }
                }
                true
            },
            None => false,
        }
    }

    /// `mark_broadcastable_spend`: clear a draft for broadcast at the next
    /// tip event.
    pub fn mark_broadcastable_spend(&mut self, txid: u64) -> (r: bool)
        requires
            old(self).wf(),
        ensures
            final(self).wf(),
            Store::frame_spend(*old(self), *final(self), txid),
            forall|i: int|
                0 <= i < old(self).spends@.len() && (#[trigger] old(self).spends@[i]).txid == txid
                    ==> final(self).spends@[i] == spend_with_state(
                    old(self).spends@[i],
                    SpendTxState::Broadcastable,
                ),
            r == old(self).has_spend(txid),
    {
        match self.find_spend(txid) {
            Some(i) => {
                let s = &mut self.spends[i];
                s.state = SpendTxState::Broadcastable;
                true
            },
            None => false,
        }
    }

    /// `mark_broadcasted_spend`: the draft was handed to the node.
    pub fn mark_broadcasted_spend(&mut self, txid: u64) -> (r: bool)
        requires
            old(self).wf(),
        ensures
            final(self).wf(),
            Store::frame_spend(*old(self), *final(self), txid),
            forall|i: int|
                0 <= i < old(self).spends@.len() && (#[trigger] old(self).spends@[i]).txid == txid
                    ==> final(self).spends@[i] == spend_with_state(
                    old(self).spends@[i],
                    SpendTxState::Broadcasted,
                ),
            r == old(self).has_spend(txid),
    {
        match self.find_spend(txid) {
            Some(i) => {
                let s = &mut self.spends[i];
                s.state = SpendTxState::Broadcasted;
                true
            },
            None => false,
        }
    }

    /// `mark_rebroadcastable_spend`: after a reorg rewound an unvault,
    /// every draft spending it must be broadcast again.
    pub fn mark_rebroadcastable_spend(&mut self, utxid: u64)
        requires
            old(self).wf(),
        ensures
            final(self).wf(),
            final(self).tip == old(self).tip,
            final(self).deposit_index == old(self).deposit_index,
            final(self).vaults@ == old(self).vaults@,
            final(self).spends@.len() == old(self).spends@.len(),
            forall|i: int|
                0 <= i < old(self).spends@.len() ==> final(self).spends@[i] == (if (
                #[trigger] old(self).spends@[i]).unvault_txids@.contains(utxid) {
                    spend_with_state(old(self).spends@[i], SpendTxState::Broadcastable)
                } else {
                    old(self).spends@[i]
                }),
            final(self).spends@ == spec_flag_spends(old(self).spends@, utxid),
    {
        let mut i: usize = 0;
        while i < self.spends.len()
            invariant
                i <= self.spends@.len(),
                self.spends@.len() == old(self).spends@.len(),
                self.tip == old(self).tip,
                self.deposit_index == old(self).deposit_index,
                self.vaults@ == old(self).vaults@,
                self.wf(),
                forall|j: int|
                    0 <= j < i ==> self.spends@[j] == (if (
                    #[trigger] old(self).spends@[j]).unvault_txids@.contains(utxid) {
                        spend_with_state(old(self).spends@[j], SpendTxState::Broadcastable)
                    } else {
                        old(self).spends@[j]
                    }),
                forall|j: int|
                    i <= j < old(self).spends@.len() ==> #[trigger] self.spends@[j] == old(
                        self,
                    ).spends@[j],
            decreases self.spends@.len() - i,
        {
            if vec_contains_u64(&self.spends[i].unvault_txids, utxid) {
                let s = &mut self.spends[i];
                s.state = SpendTxState::Broadcastable;
            }
            i = i + 1;
        }
    }

    /// `spending_vaults`: every vault whose recorded Spend awaits
    /// confirmation, as (deposit outpoint, unvault txid, Spend txid), in
    /// store order.
    pub fn spending_vaults(&self) -> (r: Vec<(TxRef, u64, u64)>)
        requires
            self.wf(),
        ensures
            r@ == spec_spending_vaults(self.vaults@),
    {
        let mut r: Vec<(TxRef, u64, u64)> = Vec::new();
        let mut i: usize = 0;
        while i < self.vaults.len()
            invariant
                self.wf(),
                i <= self.vaults@.len(),
                r@ == spec_spending_vaults(self.vaults@.take(i as int)),
            decreases self.vaults@.len() - i,
        {
            proof {
                assert(self.vaults@.take(i + 1).drop_last() =~= self.vaults@.take(i as int));
                assert(self.vaults@.take(i + 1).last() == self.vaults@[i as int]);
            }
            if matches!(self.vaults[i].status, VaultStatus::Spending) {
                let u: u64 = match &self.vaults[i].presigned {
                    Some(p) => p.unvault.txid,
                    None => {
                        proof {
                            assert(self.vaults@[i as int].wf());
                            assert(false);
                        }
                        0
                    },
                };
                let t: u64 = match self.vaults[i].spend_txid {
                    Some(t) => t,
                    None => {
                        proof {
                            assert(self.vaults@[i as int].wf());
                            assert(false);
                        }
                        0
                    },
                };
                r.push((self.vaults[i].deposit_outpoint, u, t));
            }
            i = i + 1;
        }
        proof {
            assert(self.vaults@.take(self.vaults@.len() as int) =~= self.vaults@);
        }
        r
    }

    /// `canceling_vaults`: every vault whose Cancel awaits confirmation,
    /// as (deposit outpoint, unvault txid, Cancel txid), in store order.
    pub fn canceling_vaults(&self) -> (r: Vec<(TxRef, u64, u64)>)
        requires
            self.wf(),
        ensures
            r@ == spec_canceling_vaults(self.vaults@),
    {
        let mut r: Vec<(TxRef, u64, u64)> = Vec::new();
        let mut i: usize = 0;
        while i < self.vaults.len()
            invariant
                self.wf(),
                i <= self.vaults@.len(),
                r@ == spec_canceling_vaults(self.vaults@.take(i as int)),
            decreases self.vaults@.len() - i,
        {
            proof {
                assert(self.vaults@.take(i + 1).drop_last() =~= self.vaults@.take(i as int));
                assert(self.vaults@.take(i + 1).last() == self.vaults@[i as int]);
            }
            if matches!(self.vaults[i].status, VaultStatus::Canceling) {
                let (u, c): (u64, u64) = match &self.vaults[i].presigned {
                    Some(p) => (p.unvault.txid, p.cancel.txid),
                    None => {
                        proof {
                            assert(self.vaults@[i as int].wf());
                            assert(false);
                        }
                        (0, 0)
                    },
                };
                r.push((self.vaults[i].deposit_outpoint, u, c));
            }
            i = i + 1;
        }
        proof {
            assert(self.vaults@.take(self.vaults@.len() as int) =~= self.vaults@);
        }
        r
    }

    /// `unvaulted_vaults`: every vault whose unvault output is confirmed
    /// and not yet spent, as (deposit outpoint, unvault txid), in store
    /// order.
    pub fn unvaulted_vaults(&self) -> (r: Vec<(TxRef, u64)>)
        requires
            self.wf(),
        ensures
            r@ == spec_unvaulted_vaults(self.vaults@),
    {
        let mut r: Vec<(TxRef, u64)> = Vec::new();
        let mut i: usize = 0;
        while i < self.vaults.len()
            invariant
                self.wf(),
                i <= self.vaults@.len(),
                r@ == spec_unvaulted_vaults(self.vaults@.take(i as int)),
            decreases self.vaults@.len() - i,
        {
            proof {
                assert(self.vaults@.take(i + 1).drop_last() =~= self.vaults@.take(i as int));
                assert(self.vaults@.take(i + 1).last() == self.vaults@[i as int]);
            }
            if matches!(self.vaults[i].status, VaultStatus::Unvaulted) {
                let u: u64 = match &self.vaults[i].presigned {
                    Some(p) => p.unvault.txid,
                    None => {
                        proof {
                            assert(self.vaults@[i as int].wf());
                            assert(false);
                        }
                        0
                    },
                };
                r.push((self.vaults[i].deposit_outpoint, u));
            }
            i = i + 1;
        }
        proof {
            assert(self.vaults@.take(self.vaults@.len() as int) =~= self.vaults@);
        }
        r
    }

    /// `broadcastable_spends`: the txids the next tip event should try to
    /// broadcast.
    pub fn broadcastable_spend_txids(&self) -> (r: Vec<u64>)
        ensures
            forall|t: u64|
                r@.contains(t) <==> exists|i: int|
                    0 <= i < self.spends@.len() && (#[trigger] self.spends@[i]).txid == t
                        && self.spends@[i].state == SpendTxState::Broadcastable,
    {
        let mut r: Vec<u64> = Vec::new();
        let mut i: usize = 0;
        while i < self.spends.len()
            invariant
                i <= self.spends@.len(),
                forall|t: u64|
                    r@.contains(t) <==> exists|j: int|
                        0 <= j < i && (#[trigger] self.spends@[j]).txid == t && self.spends@[j].state
                            == SpendTxState::Broadcastable,
            decreases self.spends@.len() - i,
        {
            if matches!(self.spends[i].state, SpendTxState::Broadcastable) {
                r.push(self.spends[i].txid);
            }
            i = i + 1;
        }
        r
    }
}

/// What `spending_vaults` lists for a vault sequence.
pub open spec fn spec_spending_vaults(s: Seq<Vault>) -> Seq<(TxRef, u64, u64)>
    decreases s.len(),
{
    if s.len() == 0 {
        Seq::empty()
    } else {
        let rest = spec_spending_vaults(s.drop_last());
        let v = s.last();
        if v.status == VaultStatus::Spending {
            rest.push((v.deposit_outpoint, v.unvault_txid()->Some_0, v.spend_txid->Some_0))
        } else {
            rest
        }
    }
}

/// What `canceling_vaults` lists for a vault sequence.
pub open spec fn spec_canceling_vaults(s: Seq<Vault>) -> Seq<(TxRef, u64, u64)>
    decreases s.len(),
{
    if s.len() == 0 {
        Seq::empty()
    } else {
        let rest = spec_canceling_vaults(s.drop_last());
        let v = s.last();
        if v.status == VaultStatus::Canceling {
            rest.push((v.deposit_outpoint, v.unvault_txid()->Some_0, v.cancel_txid()->Some_0))
        } else {
            rest
        }
    }
}

/// What `unvaulted_vaults` lists for a vault sequence.
pub open spec fn spec_unvaulted_vaults(s: Seq<Vault>) -> Seq<(TxRef, u64)>
    decreases s.len(),
{
    if s.len() == 0 {
        Seq::empty()
    } else {
        let rest = spec_unvaulted_vaults(s.drop_last());
        let v = s.last();
        if v.status == VaultStatus::Unvaulted {
            rest.push((v.deposit_outpoint, v.unvault_txid()->Some_0))
        } else {
            rest
        }
    }
}

/// Statuses from which `confirm_unvault` may record (or rewind to) a
/// confirmed, unspent unvault output.
pub open spec fn can_confirm_unvault(st: VaultStatus) -> bool {
    match st {
        VaultStatus::Active
        | VaultStatus::Unvaulting
        | VaultStatus::Unvaulted
        | VaultStatus::Spending
        | VaultStatus::Canceling => true,
        _ => false,
    }
}

/// Statuses from which an observed spender of the unvault output may be
/// recorded.
pub open spec fn can_record_spender(st: VaultStatus) -> bool {
    match st {
        VaultStatus::Active | VaultStatus::Unvaulting | VaultStatus::Unvaulted => true,
        _ => false,
    }
}

/// The row after a Spend spending the unvault output was recorded.
pub open spec fn spending_vault(v: Vault, spend_txid: u64, now: u64) -> Vault {
    Vault {
        status: VaultStatus::Spending,
        spend_txid: Some(spend_txid),
        updated_at: now,
        ..v
    }
}

/// The row with only its status stepped.
pub open spec fn with_status(v: Vault, st: VaultStatus, now: u64) -> Vault {
    Vault { status: st, updated_at: now, ..v }
}

/// The row with its status stepped and any recorded spender cleared.
pub open spec fn with_status_no_spender(v: Vault, st: VaultStatus, now: u64) -> Vault {
    Vault { status: st, spend_txid: None, updated_at: now, ..v }
}

/// The row after a reorg rewound the deposit itself.
pub open spec fn unconfirmed_vault(v: Vault, now: u64) -> Vault {
    Vault {
        status: VaultStatus::Unconfirmed,
        blockheight: None,
        spend_txid: None,
        updated_at: now,
        ..v
    }
}

/// The row a fresh deposit creates.
pub open spec fn new_unconfirmed_vault(
    op: TxRef,
    amount: u64,
    derivation_index: u32,
    received_at: u64,
    now: u64,
) -> Vault {
    Vault {
        deposit_outpoint: op,
        amount,
        derivation_index,
        status: VaultStatus::Unconfirmed,
        blockheight: None,
        received_at,
        updated_at: now,
        spend_txid: None,
        presigned: None,
    }
}

/// The row after a deposit confirmation.
pub open spec fn funded_vault(v: Vault, height: u32, chain: PresignedSet, now: u64) -> Vault {
    Vault {
        status: VaultStatus::Funded,
        blockheight: Some(height),
        presigned: Some(chain),
        updated_at: now,
        ..v
    }
}

} // verus!
