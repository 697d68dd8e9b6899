//! The vault status lattice and the predicates the poller and the RPC
//! dispatcher gate on.

use vstd::prelude::*;

verus! {

/// Statuses a vault moves through, driven by on-chain observations and by
/// signature exchanges.
#[derive(Clone, Copy, PartialEq, Eq, Structural, Debug)]
pub enum VaultStatus {
    /// Deposit seen, not yet buried under `min_conf` blocks.
    Unconfirmed,
    /// Deposit confirmed and the presigned chain derived and stored.
    Funded,
    /// First revocation signature received.
    Securing,
    /// All three revocation transactions fully signed.
    Secured,
    /// Our unvault signature received.
    Activating,
    /// Unvault transaction fully signed.
    Active,
    /// Unvault transaction broadcast, unconfirmed.
    Unvaulting,
    /// Unvault transaction confirmed.
    Unvaulted,
    /// A Spend transaction spends the unvault output, unconfirmed.
    Spending,
    /// The Spend transaction confirmed.
    Spent,
    /// A Cancel transaction spends the unvault output, unconfirmed.
    Canceling,
    /// The Cancel transaction confirmed.
    Canceled,
    /// An Emergency transaction spends the deposit, unconfirmed.
    EmergencyVaulting,
    /// The Emergency transaction confirmed.
    EmergencyVaulted,
    /// An Unvault-Emergency transaction spends the unvault, unconfirmed.
    UnvaultEmergencyVaulting,
    /// The Unvault-Emergency transaction confirmed.
    UnvaultEmergencyVaulted,
}

impl VaultStatus {
    /// Position in the lattice: forward chain motion never decreases it.
    /// The mutually exclusive terminal branches share ranks.
    pub open spec fn rank(self) -> int {
        match self {
            VaultStatus::Unconfirmed => 0,
            VaultStatus::Funded => 1,
            VaultStatus::Securing => 2,
            VaultStatus::Secured => 3,
            VaultStatus::Activating => 4,
            VaultStatus::Active => 5,
            VaultStatus::Unvaulting => 6,
            VaultStatus::Unvaulted => 7,
            VaultStatus::Spending => 8,
            VaultStatus::Spent => 9,
            VaultStatus::Canceling => 8,
            VaultStatus::Canceled => 9,
            VaultStatus::EmergencyVaulting => 2,
            VaultStatus::EmergencyVaulted => 3,
            VaultStatus::UnvaultEmergencyVaulting => 8,
            VaultStatus::UnvaultEmergencyVaulted => 9,
        }
    }

    /// Statuses whose deposit output is still unspent: the vault belongs to
    /// the deposits cache.
    pub open spec fn spec_in_deposit_set(self) -> bool {
        match self {
            VaultStatus::Unconfirmed
            | VaultStatus::Funded
            | VaultStatus::Securing
            | VaultStatus::Secured
            | VaultStatus::Activating
            | VaultStatus::Active => true,
            _ => false,
        }
    }

    /// Executable twin of [`Self::spec_in_deposit_set`].
    #[verifier::when_used_as_spec(spec_in_deposit_set)]
    pub fn in_deposit_set(self) -> (r: bool)
        ensures
            r == self.spec_in_deposit_set(),
    {
        matches!(
            self,
            VaultStatus::Unconfirmed
                | VaultStatus::Funded
                | VaultStatus::Securing
                | VaultStatus::Secured
                | VaultStatus::Activating
                | VaultStatus::Active
        )
    }

    /// Statuses whose unvault output is tracked unspent by the poller: the
    /// vault belongs to the unvaults cache.
    pub open spec fn spec_in_unvault_set(self) -> bool {
        self == VaultStatus::Unvaulting || self == VaultStatus::Unvaulted
    }

    /// Executable twin of [`Self::spec_in_unvault_set`].
    #[verifier::when_used_as_spec(spec_in_unvault_set)]
    pub fn in_unvault_set(self) -> (r: bool)
        ensures
            r == self.spec_in_unvault_set(),
    {
        matches!(self, VaultStatus::Unvaulting | VaultStatus::Unvaulted)
    }

    /// The unvault transaction has been broadcast at some point: the rescan
    /// engine rewinds these through the unvault, not the deposit.
    pub open spec fn spec_past_unvault(self) -> bool {
        match self {
            VaultStatus::Unvaulting
            | VaultStatus::Unvaulted
            | VaultStatus::Spending
            | VaultStatus::Spent
            | VaultStatus::Canceling
            | VaultStatus::Canceled
            | VaultStatus::UnvaultEmergencyVaulting
            | VaultStatus::UnvaultEmergencyVaulted => true,
            _ => false,
        }
    }

    /// Executable twin of [`Self::spec_past_unvault`].
    #[verifier::when_used_as_spec(spec_past_unvault)]
    pub fn past_unvault(self) -> (r: bool)
        ensures
            r == self.spec_past_unvault(),
    {
        matches!(
            self,
            VaultStatus::Unvaulting
                | VaultStatus::Unvaulted
                | VaultStatus::Spending
                | VaultStatus::Spent
                | VaultStatus::Canceling
                | VaultStatus::Canceled
                | VaultStatus::UnvaultEmergencyVaulting
                | VaultStatus::UnvaultEmergencyVaulted
        )
    }

    /// The unvault was never broadcast but the deposit is confirmed: the
    /// rescan engine rewinds these straight to `Unconfirmed`.
    pub open spec fn spec_first_layer(self) -> bool {
        match self {
            VaultStatus::Funded
            | VaultStatus::Securing
            | VaultStatus::Secured
            | VaultStatus::Activating
            | VaultStatus::Active => true,
            _ => false,
        }
    }

    /// Executable twin of [`Self::spec_first_layer`].
    #[verifier::when_used_as_spec(spec_first_layer)]
    pub fn first_layer(self) -> (r: bool)
        ensures
            r == self.spec_first_layer(),
    {
        matches!(
            self,
            VaultStatus::Funded
                | VaultStatus::Securing
                | VaultStatus::Secured
                | VaultStatus::Activating
                | VaultStatus::Active
        )
    }

    /// Statuses past the unvault whose own spender (Spend, Cancel or
    /// Unvault-Emergency) was confirmed and must be re-checked on rescan.
    pub open spec fn spec_second_layer(self) -> bool {
        match self {
            VaultStatus::Unvaulted
            | VaultStatus::Spending
            | VaultStatus::Spent
            | VaultStatus::Canceling
            | VaultStatus::Canceled
            | VaultStatus::UnvaultEmergencyVaulting
            | VaultStatus::UnvaultEmergencyVaulted => true,
            _ => false,
        }
    }

    /// Executable twin of [`Self::spec_second_layer`].
    #[verifier::when_used_as_spec(spec_second_layer)]
    pub fn second_layer(self) -> (r: bool)
        ensures
            r == self.spec_second_layer(),
    {
        matches!(
            self,
            VaultStatus::Unvaulted
                | VaultStatus::Spending
                | VaultStatus::Spent
                | VaultStatus::Canceling
                | VaultStatus::Canceled
                | VaultStatus::UnvaultEmergencyVaulting
                | VaultStatus::UnvaultEmergencyVaulted
        )
    }

    /// Statuses counted by `getinfo` as live funds under custody.
    pub open spec fn spec_counted_by_getinfo(self) -> bool {
        self != VaultStatus::Spent && self != VaultStatus::Canceled
            && self != VaultStatus::Unvaulted && self != VaultStatus::EmergencyVaulted
    }

    /// Executable twin of [`Self::spec_counted_by_getinfo`].
    #[verifier::when_used_as_spec(spec_counted_by_getinfo)]
    pub fn counted_by_getinfo(self) -> (r: bool)
        ensures
            r == self.spec_counted_by_getinfo(),
    {
        !matches!(
            self,
            VaultStatus::Spent
                | VaultStatus::Canceled
                | VaultStatus::Unvaulted
                | VaultStatus::EmergencyVaulted
        )
    }
}

} // verus!
