//! The vault record, its presigned-transaction chain and their
//! well-formedness invariants.

use vstd::prelude::*;

use crate::status::VaultStatus;
use crate::types::TxRef;

verus! {

/// A presigned transaction as the store records it: the identifiers of its
/// unsigned form and the set of signer keys whose partial signature has been
/// gathered so far.
#[derive(Debug)]
pub struct Psbt {
    /// Identifier of the unsigned transaction's wtxid.
    pub wtxid: u64,
    /// Identifier of the unsigned transaction's txid.
    pub txid: u64,
    /// Keys for which a partial signature is stored, without duplicates.
    pub sigs: Vec<u64>,
}

impl Psbt {
    /// A signature of every one of `keys` has been gathered.
    pub open spec fn fully_signed(self, keys: Seq<u64>) -> bool {
        forall|i: int| 0 <= i < keys.len() ==> self.sigs@.contains(keys[i])
    }
}

/// The presigned chain derived when a deposit confirms. The emergency pair
/// exists only when the daemon runs for a stakeholder.
#[derive(Debug)]
pub struct PresignedSet {
    pub unvault: Psbt,
    pub cancel: Psbt,
    pub emergency: Option<Psbt>,
    pub unvault_emergency: Option<Psbt>,
}

/// One of the four presigned transaction kinds.
#[derive(Clone, Copy, PartialEq, Eq, Structural, Debug)]
pub enum TxKind {
    Unvault,
    Cancel,
    Emergency,
    UnvaultEmergency,
}

/// The central entity: one deposit output and its tracked lifecycle.
#[derive(Debug)]
pub struct Vault {
    /// The deposit output funding the vault; the store's key.
    pub deposit_outpoint: TxRef,
    /// Deposit value in satoshi.
    pub amount: u64,
    /// Unhardened derivation index of the deposit script.
    pub derivation_index: u32,
    pub status: VaultStatus,
    /// Height of the deposit's confirmation, while it is considered
    /// confirmed.
    pub blockheight: Option<u32>,
    /// When the wallet first saw the deposit.
    pub received_at: u64,
    /// When the store last wrote the row.
    pub updated_at: u64,
    /// The Spend consuming the unvault output, while one is recorded.
    pub spend_txid: Option<u64>,
    /// The presigned chain, present from `Funded` onward.
    pub presigned: Option<PresignedSet>,
}

impl Vault {
    /// Txid of the vault's unvault transaction, once the chain is derived.
    pub open spec fn unvault_txid(self) -> Option<u64> {
        match self.presigned {
            Some(p) => Some(p.unvault.txid),
            None => None,
        }
    }

    /// Txid of the vault's cancel transaction, once the chain is derived.
    pub open spec fn cancel_txid(self) -> Option<u64> {
        match self.presigned {
            Some(p) => Some(p.cancel.txid),
            None => None,
        }
    }

    /// Record invariant, enforced by every store operation:
    /// - a Spend txid is recorded exactly while the vault is `Spending` or
    ///   `Spent`;
    /// - the deposit's confirmation height is recorded exactly while the
    ///   vault is past `Unconfirmed`;
    /// - the presigned chain exists from `Funded` onward.
    pub open spec fn wf(self) -> bool {
        &&& (self.spend_txid is Some <==> (self.status == VaultStatus::Spending
            || self.status == VaultStatus::Spent))
        &&& (self.blockheight is Some <==> self.status != VaultStatus::Unconfirmed)
        &&& (self.status != VaultStatus::Unconfirmed ==> self.presigned is Some)
    }
}

/// No vault ever records both a Spend txid and a confirmed Cancel: the
/// statuses carrying a Spend txid and the status of a confirmed Cancel are
/// distinct points of the lattice.
pub proof fn lemma_at_most_one_spender(v: Vault)
    requires
        v.wf(),
    ensures
        !(v.spend_txid is Some && v.status == VaultStatus::Canceled),
{
}

} // verus!
