//! Library-wide laws, proved from the contracts of the operations alone.

use vstd::prelude::*;

use crate::state::forward_vaults;
use crate::status::VaultStatus;
use crate::store::Store;
use crate::vault::Vault;

verus! {

/// Forward motion composes: two forward steps make a forward step.
pub proof fn lemma_forward_vaults_trans(a: Seq<Vault>, b: Seq<Vault>, c: Seq<Vault>)
    requires
        forward_vaults(a, b),
        forward_vaults(b, c),
    ensures
        forward_vaults(a, c),
{
}

/// Forward-only under no-reorg: along any run of states in which every
/// step is forward (as every tick driver ensures while the chain only
/// advances), each vault's status never moves down the lattice between
/// any two points of the run.
pub proof fn lemma_forward_run(run: Seq<Seq<Vault>>, i: int, j: int)
    requires
        forall|k: int|
            0 <= k < run.len() - 1 ==> forward_vaults(#[trigger] run[k], run[k + 1]),
        0 <= i <= j < run.len(),
    ensures
        forward_vaults(run[i], run[j]),
    decreases j - i,
{
    if i == j {
    } else {
        lemma_forward_run(run, i, j - 1);
        assert(forward_vaults(run[j - 1], run[j]));
        lemma_forward_vaults_trans(run[i], run[j - 1], run[j]);
    }
}

/// Derivation monotonicity: along any run in which each step keeps the
/// next-unused derivation index from decreasing (as every operation
/// ensures), the index never decreases between any two points of the
/// run.
pub proof fn lemma_index_monotone_run(indexes: Seq<u32>, i: int, j: int)
    requires
        forall|k: int| 0 <= k < indexes.len() - 1 ==> #[trigger] indexes[k] <= indexes[k + 1],
        0 <= i <= j < indexes.len(),
    ensures
        indexes[i] <= indexes[j],
    decreases j - i,
{
    if i < j {
        lemma_index_monotone_run(indexes, i, j - 1);
        assert(indexes[j - 1] <= indexes[j]);
    }
}

/// At most one spender, store-wide: in a well-formed store no vault
/// records both a Spend txid and a confirmed Cancel.
pub proof fn lemma_store_at_most_one_spender(s: Store)
    requires
        s.wf(),
    ensures
        forall|i: int|
            0 <= i < s.vaults@.len() ==> !((#[trigger] s.vaults@[i]).spend_txid is Some
                && s.vaults@[i].status == VaultStatus::Canceled),
{
    assert forall|i: int|
        0 <= i < s.vaults@.len() implies !((#[trigger] s.vaults@[i]).spend_txid is Some
        && s.vaults@[i].status == VaultStatus::Canceled) by {
        crate::vault::lemma_at_most_one_spender(s.vaults@[i]);
    }
}

} // verus!
