//! The reorg-rescan engine: when the tip comparison detects a
//! divergence, every vault is re-examined against the wallet's current
//! view and rewound exactly as far as the reorganisation requires. The
//! whole rewind is one store transaction in the shell: it either commits
//! entirely or not at all.

use vstd::prelude::*;

use crate::state::{ChainState, RewindHints};
use crate::status::VaultStatus;
use crate::store::{
    spec_flag_spends, unconfirmed_vault, with_status, with_status_no_spender, SpendRow,
};
use crate::types::{BlockchainTip, TxRef, UtxoInfo};
use crate::vault::Vault;

verus! {

/// The wallet's view of one vault's transactions during a rescan.
#[derive(Clone, Copy, PartialEq, Eq, Debug)]
pub struct VaultObs {
    pub outpoint: TxRef,
    /// Current confirmation height of the deposit transaction.
    pub deposit_height: Option<u32>,
    /// Current confirmation height of the unvault transaction.
    pub unvault_height: Option<u32>,
    /// Current confirmation height of the recorded Spend.
    pub spend_height: Option<u32>,
    /// Current confirmation height of the Cancel.
    pub cancel_height: Option<u32>,
    /// The unvault output, for re-tracking on rewinds.
    pub unvault_txo: UtxoInfo,
}

/// Where a vault lands when its deposit is no longer buried deeply
/// enough: first-layer vaults to `Unconfirmed`, vaults past the unvault
/// broadcast to `Unvaulting`, emergency states untouched.
pub open spec fn rewound_status(st: VaultStatus) -> VaultStatus {
    if st.spec_first_layer() {
        VaultStatus::Unconfirmed
    } else if st.spec_past_unvault() {
        VaultStatus::Unvaulting
    } else {
        st
    }
}

/// The status a rescan leaves one vault in, layer by layer: an
/// unconfirmed (or insufficiently buried) deposit rewinds the vault
/// whole; otherwise a vanished unvault confirmation rewinds to
/// `Unvaulting`; otherwise only a vanished Spend or Cancel confirmation
/// steps `Spent` or `Canceled` back to its unconfirmed form.
pub open spec fn rescan_status(
    st: VaultStatus,
    o: VaultObs,
    tip_height: u32,
    min_conf: u32,
) -> VaultStatus {
    if st == VaultStatus::Unconfirmed {
        st
    } else {
        match o.deposit_height {
            None => rewound_status(st),
            Some(h) => if h > tip_height {
                st
            } else if tip_height - h + 1 < min_conf {
                rewound_status(st)
            } else if st.spec_second_layer() {
                if o.unvault_height is None {
                    VaultStatus::Unvaulting
                } else if st == VaultStatus::Spent && o.spend_height is None {
                    VaultStatus::Spending
                } else if st == VaultStatus::Canceled && o.cancel_height is None {
                    VaultStatus::Canceling
                } else {
                    st
                }
            } else {
                st
            },
        }
    }
}

/// The whole row a rewind leaves behind when the deposit itself is no
/// longer buried deeply enough.
pub open spec fn rewound_vault(v: Vault, now: u64) -> Vault {
    if v.status.spec_first_layer() {
        unconfirmed_vault(v, now)
    } else if v.status.spec_past_unvault() {
        with_status_no_spender(v, VaultStatus::Unvaulting, now)
    } else {
        v
    }
}

/// The whole row a rescan leaves behind for one vault; its status is
/// [`rescan_status`] of the old one.
pub open spec fn rescan_vault(
    v: Vault,
    o: VaultObs,
    tip_height: u32,
    min_conf: u32,
    now: u64,
) -> Vault {
    if v.status == VaultStatus::Unconfirmed {
        v
    } else {
        match o.deposit_height {
            None => rewound_vault(v, now),
            Some(h) => if h > tip_height {
                v
            } else if tip_height - h + 1 < min_conf {
                rewound_vault(v, now)
            } else if v.status.spec_second_layer() {
                if o.unvault_height is None {
                    with_status_no_spender(v, VaultStatus::Unvaulting, now)
                } else if v.status == VaultStatus::Spent && o.spend_height is None {
                    with_status(v, VaultStatus::Spending, now)
                } else if v.status == VaultStatus::Canceled && o.cancel_height is None {
                    with_status(v, VaultStatus::Canceling, now)
                } else {
                    v
                }
            } else {
                v
            },
        }
    }
}

/// The status a rescan leaves is exactly [`rescan_status`] of the old
/// one.
pub proof fn lemma_rescan_vault_status(
    v: Vault,
    o: VaultObs,
    tip_height: u32,
    min_conf: u32,
    now: u64,
)
    ensures
        rescan_vault(v, o, tip_height, min_conf, now).status == rescan_status(
            v.status,
            o,
            tip_height,
            min_conf,
        ),
{
}

/// Reorg idempotence: rescanning a vault twice against the same
/// post-reorg wallet view and tip leaves exactly the state of the first
/// rescan.
pub proof fn lemma_rescan_idempotent(
    v: Vault,
    o: VaultObs,
    tip_height: u32,
    min_conf: u32,
    now: u64,
)
    requires
        v.wf(),
    ensures
        rescan_vault(rescan_vault(v, o, tip_height, min_conf, now), o, tip_height, min_conf, now)
            == rescan_vault(v, o, tip_height, min_conf, now),
{
}

/// A rescan flags a vault's Spend drafts for rebroadcast exactly when
/// the vault carried a Spend (`Spending`/`Spent`) and is rewound.
pub open spec fn rescan_flags_spends(
    v: Vault,
    o: VaultObs,
    tip_height: u32,
    min_conf: u32,
) -> bool {
    &&& (v.status == VaultStatus::Spending || v.status == VaultStatus::Spent)
    &&& rescan_status(v.status, o, tip_height, min_conf) != v.status
}

/// The Spend drafts after a rescan: for every rewound vault that carried
/// a Spend, the drafts over its unvault output are cleared for
/// rebroadcast at the next tip event.
pub open spec fn replay_rescan_spends(
    vs: Seq<Vault>,
    obs: Seq<VaultObs>,
    ss: Seq<SpendRow>,
    tip_height: u32,
    min_conf: u32,
) -> Seq<SpendRow>
    decreases vs.len(),
{
    if vs.len() == 0 || obs.len() == 0 {
        ss
    } else {
        let s1 = replay_rescan_spends(vs.drop_last(), obs.drop_last(), ss, tip_height, min_conf);
        if rescan_flags_spends(vs.last(), obs.last(), tip_height, min_conf) {
            spec_flag_spends(s1, vs.last().unvault_txid()->Some_0)
        } else {
            s1
        }
    }
}

/// A vault a rescan already rewound is never rewound off a Spend again
/// by the same observations: the second pass flags no drafts.
pub proof fn lemma_rescan_no_second_flag(
    v: Vault,
    o: VaultObs,
    tip_height: u32,
    min_conf: u32,
    now: u64,
)
    requires
        v.wf(),
    ensures
        !rescan_flags_spends(rescan_vault(v, o, tip_height, min_conf, now), o, tip_height, min_conf),
{
}

/// A rescan that flags no vault leaves the drafts untouched.
pub proof fn lemma_replay_rescan_spends_identity(
    vs: Seq<Vault>,
    obs: Seq<VaultObs>,
    ss: Seq<SpendRow>,
    tip_height: u32,
    min_conf: u32,
)
    requires
        vs.len() == obs.len(),
        forall|k: int|
            0 <= k < vs.len() ==> !rescan_flags_spends(
                #[trigger] vs[k],
                obs[k],
                tip_height,
                min_conf,
            ),
    ensures
        replay_rescan_spends(vs, obs, ss, tip_height, min_conf) == ss,
    decreases vs.len(),
{
    if vs.len() > 0 {
        lemma_replay_rescan_spends_identity(
            vs.drop_last(),
            obs.drop_last(),
            ss,
            tip_height,
            min_conf,
        );
        assert(vs[vs.len() - 1] == vs.last());
    }
}

/// Reorg idempotence for the whole stored record: applying the same
/// reorg (the same stable tip and the same wallet view) twice yields the
/// same vault rows, the same Spend drafts and the same tip as applying
/// it once.
pub proof fn lemma_rescan_fixpoint(
    vs: Seq<Vault>,
    obs: Seq<VaultObs>,
    ss: Seq<SpendRow>,
    tip_height: u32,
    min_conf: u32,
    now: u64,
)
    requires
        vs.len() == obs.len(),
        forall|i: int| 0 <= i < vs.len() ==> (#[trigger] vs[i]).wf(),
    ensures
        forall|i: int|
            0 <= i < vs.len() ==> rescan_vault(
                rescan_vault(#[trigger] vs[i], obs[i], tip_height, min_conf, now),
                obs[i],
                tip_height,
                min_conf,
                now,
            ) == rescan_vault(vs[i], obs[i], tip_height, min_conf, now),
        replay_rescan_spends(
            Seq::new(vs.len(), |i: int| rescan_vault(vs[i], obs[i], tip_height, min_conf, now)),
            obs,
            replay_rescan_spends(vs, obs, ss, tip_height, min_conf),
            tip_height,
            min_conf,
        ) == replay_rescan_spends(vs, obs, ss, tip_height, min_conf),
{
    assert forall|i: int| 0 <= i < vs.len() implies rescan_vault(
        rescan_vault(#[trigger] vs[i], obs[i], tip_height, min_conf, now),
        obs[i],
        tip_height,
        min_conf,
        now,
    ) == rescan_vault(vs[i], obs[i], tip_height, min_conf, now) by {
        lemma_rescan_idempotent(vs[i], obs[i], tip_height, min_conf, now);
    }
    let vs1 = Seq::new(vs.len(), |i: int| rescan_vault(vs[i], obs[i], tip_height, min_conf, now));
    assert forall|k: int| 0 <= k < vs1.len() implies !rescan_flags_spends(
        #[trigger] vs1[k],
        obs[k],
        tip_height,
        min_conf,
    ) by {
        lemma_rescan_no_second_flag(vs[k], obs[k], tip_height, min_conf, now);
    }
    lemma_replay_rescan_spends_identity(
        vs1,
        obs,
        replay_rescan_spends(vs, obs, ss, tip_height, min_conf),
        tip_height,
        min_conf,
    );
}

/// Rescan every vault against the wallet's view, then record the
/// observed tip. `obs` lists one observation per vault, in store order.
/// Returns `false`, changing nothing, when the snapshot turned out stale
/// (a deposit is reported above the observed tip): the caller re-reads
/// the node and starts over.
pub fn comprehensive_rescan(
    state: &mut ChainState,
    obs: &Vec<VaultObs>,
    observed_tip: BlockchainTip,
    min_conf: u32,
    now: u64,
) -> (r: (bool, Vec<RewindHints>))
    requires
        old(state).wf(),
        old(state).coherent(),
        obs@.len() == old(state).store.vaults@.len(),
        forall|i: int|
            0 <= i < obs@.len() ==> (#[trigger] obs@[i]).outpoint == old(
                state,
            ).store.vaults@[i].deposit_outpoint,
    ensures
        final(state).wf(),
        final(state).coherent(),
        final(state).store.deposit_index == old(state).store.deposit_index,
        !r.0 ==> final(state).store.vaults@ == old(state).store.vaults@ && final(state).store.tip
            == old(state).store.tip && final(state).store.spends@ == old(state).store.spends@,
        r.0 ==> final(state).store.spends@ == replay_rescan_spends(
            old(state).store.vaults@,
            obs@,
            old(state).store.spends@,
            observed_tip.height,
            min_conf,
        ),
        !r.0 == exists|j: int|
            0 <= j < obs@.len() && (#[trigger] obs@[j]).deposit_height is Some
                && obs@[j].deposit_height->Some_0 > observed_tip.height,
        r.0 ==> final(state).store.tip == observed_tip,
        r.0 ==> final(state).store.vaults@.len() == old(state).store.vaults@.len(),
        r.0 ==> forall|i: int|
            0 <= i < old(state).store.vaults@.len() ==> #[trigger] final(state).store.vaults@[i]
                == rescan_vault(
                old(state).store.vaults@[i],
                obs@[i],
                observed_tip.height,
                min_conf,
                now,
            ),
{
    let mut i: usize = 0;
    while i < obs.len()
        invariant
            *state == *old(state),
            state.wf(),
            state.coherent(),
            obs@.len() == state.store.vaults@.len(),
            i <= obs@.len(),
            forall|j: int|
                0 <= j < i ==> !((#[trigger] obs@[j]).deposit_height is Some
                    && obs@[j].deposit_height->Some_0 > observed_tip.height),
        decreases obs@.len() - i,
    {
        if let Some(h) = obs[i].deposit_height {
            if h > observed_tip.height {
                return (false, Vec::new());
            }
        }
        i = i + 1;
    }
    let mut hints: Vec<RewindHints> = Vec::new();
    let mut i: usize = 0;
    while i < obs.len()
        invariant
            state.wf(),
            state.coherent(),
            obs@.len() == old(state).store.vaults@.len(),
            state.store.vaults@.len() == old(state).store.vaults@.len(),
            i <= obs@.len(),
            state.store.tip == old(state).store.tip,
            state.store.deposit_index == old(state).store.deposit_index,
            forall|j: int|
                0 <= j < obs@.len() ==> (#[trigger] obs@[j]).outpoint == old(
                    state,
                ).store.vaults@[j].deposit_outpoint,
            forall|j: int|
                0 <= j < obs@.len() ==> !((#[trigger] obs@[j]).deposit_height is Some
                    && obs@[j].deposit_height->Some_0 > observed_tip.height),
            forall|j: int|
                0 <= j < i ==> #[trigger] state.store.vaults@[j] == rescan_vault(
                    old(state).store.vaults@[j],
                    obs@[j],
                    observed_tip.height,
                    min_conf,
                    now,
                ),
            forall|j: int|
                i <= j < obs@.len() ==> #[trigger] state.store.vaults@[j] == old(
                    state,
                ).store.vaults@[j],
            state.store.spends@ == replay_rescan_spends(
                old(state).store.vaults@.take(i as int),
                obs@.take(i as int),
                old(state).store.spends@,
                observed_tip.height,
                min_conf,
            ),
        decreases obs@.len() - i,
    {
        let ghost pre = *state;
        let o = obs[i];
        let st = state.store.vaults[i].status;
        if !matches!(st, VaultStatus::Unconfirmed) {
            match o.deposit_height {
                None => {
                    let h = state.unconfirm_vault_step(o.outpoint, o.unvault_txo, now);
                    if h.applied || h.rebroadcast_deposit.is_some() {
                        hints.push(h);
                    }
                },
                Some(dep_h) => {
                    let conf: u64 = (observed_tip.height - dep_h) as u64 + 1;
                    if conf < min_conf as u64 {
                        let h = state.unconfirm_vault_step(o.outpoint, o.unvault_txo, now);
                        if h.applied {
                            hints.push(h);
                        }
                    } else if st.second_layer() {
                        if o.unvault_height.is_none() {
                            let h = state.unconfirm_unvault_step(o.outpoint, o.unvault_txo, now);
                            if h.applied {
                                hints.push(h);
                            }
                        } else if matches!(st, VaultStatus::Spent) && o.spend_height.is_none() {
                            state.unconfirm_spend_step(o.outpoint, now);
                        } else if matches!(st, VaultStatus::Canceled) && o.cancel_height.is_none()
                        {
                            let c = state.unconfirm_cancel_step(o.outpoint, now);
                            if let Some(ctx) = c {
                                hints.push(
                                    RewindHints {
                                        applied: true,
                                        rebroadcast_deposit: None,
                                        rebroadcast_unvault: None,
                                        rebroadcast_cancel: Some(ctx),
                                    },
                                );
                            }
                        }
                    }
                },
            }
        }
        proof {
            assert forall|j: int| 0 <= j < obs@.len() && j != i as int implies #[trigger] state.store.vaults@[j] == pre.store.vaults@[j] by {
                assert(pre.store.vaults@[j].deposit_outpoint != o.outpoint);
            }
            assert(state.store.vaults@[i as int] == rescan_vault(
                old(state).store.vaults@[i as int],
                obs@[i as int],
                observed_tip.height,
                min_conf,
                now,
            ));
            assert(old(state).store.vaults@.take(i + 1).drop_last() =~= old(
                state,
            ).store.vaults@.take(i as int));
            assert(old(state).store.vaults@.take(i + 1).last() == old(state).store.vaults@[i as int]);
            assert(obs@.take(i + 1).drop_last() =~= obs@.take(i as int));
            assert(obs@.take(i + 1).last() == obs@[i as int]);
            assert(state.store.spends@ == replay_rescan_spends(
                old(state).store.vaults@.take(i + 1),
                obs@.take(i + 1),
                old(state).store.spends@,
                observed_tip.height,
                min_conf,
            ));
        }
        i = i + 1;
    }
    proof {
        assert(old(state).store.vaults@.take(old(state).store.vaults@.len() as int) =~= old(
            state,
        ).store.vaults@);
        assert(obs@.take(obs@.len() as int) =~= obs@);
    }
    state.set_tip(observed_tip);
    (true, hints)
}

} // verus!
