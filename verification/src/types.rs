//! Plain-value model of the on-chain objects the daemon's logic reads.
//!
//! The daemon never inspects the bytes of a transaction: it compares
//! identifiers, amounts and confirmation heights. Transactions, scripts and
//! keys are therefore carried as plain integer identifiers; the surrounding
//! (unverified) shell converts between these identifiers and the wire
//! objects of the Bitcoin libraries it talks to.

use vstd::prelude::*;

verus! {

/// A transaction output reference: the funding transaction and output index.
#[derive(Clone, Copy, PartialEq, Eq, Structural, Debug, Hash)]
pub struct TxRef {
    pub txid: u64,
    pub vout: u32,
}

/// The chain tip the poller last processed: height and block hash.
#[derive(Clone, Copy, PartialEq, Eq, Structural, Debug)]
pub struct BlockchainTip {
    pub height: u32,
    pub hash: u64,
}

/// A deposit output must exceed this amount (in satoshi) for a vault to be
/// created for it.
pub const DUST_LIMIT: u64 = 200_000;

/// Weight of one additional P2WSH output, in weight units.
pub const P2WSH_TXO_WEIGHT: u64 = 172;

/// Extra value the change output imposes on the CPFP output of a Spend.
pub const CPFP_OVERHEAD: u64 = 16 * 172;

/// The Bitcoin network the daemon is configured for.
#[derive(Clone, Copy, PartialEq, Eq, Structural, Debug)]
pub enum Network {
    Bitcoin,
    Testnet,
    Regtest,
    Signet,
}

/// The two roles co-controlling the custody.
#[derive(Clone, Copy, PartialEq, Eq, Structural, Debug)]
pub enum UserRole {
    Stakeholder,
    Manager,
    StakeholderManager,
}

/// An entry of the in-memory UTXO caches: the output's value, its script
/// (as an identifier) and whether the poller saw it confirmed.
#[derive(Clone, Copy, PartialEq, Eq, Structural, Debug)]
pub struct UtxoInfo {
    pub value: u64,
    pub script: u64,
    pub is_confirmed: bool,
}

/// What the node wallet knows of a transaction: its confirmation height, if
/// any, and whether it currently sits in the mempool.
#[derive(Clone, Copy, PartialEq, Eq, Structural, Debug)]
pub struct TxObs {
    pub height: Option<u32>,
    pub in_mempool: bool,
}

impl TxObs {
    /// The wallet sees the transaction either in a block or in the mempool.
    pub open spec fn spec_is_present(self) -> bool {
        self.height is Some || self.in_mempool
    }

    /// Executable twin of [`Self::spec_is_present`].
    #[verifier::when_used_as_spec(spec_is_present)]
    pub fn is_present(self) -> (r: bool)
        ensures
            r == self.spec_is_present(),
    {
        self.height.is_some() || self.in_mempool
    }
}

} // verus!
