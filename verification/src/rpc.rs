//! The request dispatcher: the RPC-triggered operations that cross into
//! the chain layer, with their role and status gates.
//!
//! The wire transport, the signature cryptography and the peer exchanges
//! live in the shell; each handler takes their outcomes as plain values
//! and decides everything else.

use vstd::prelude::*;

use crate::status::VaultStatus;
use crate::store::{lemma_vault_at, spend_keys_unique, vault_at, SpendRow, SpendTxState, Store};
use crate::types::{TxRef, UserRole};
use crate::vault::{TxKind, Vault};

verus! {

broadcast use vstd::seq_lib::group_seq_properties;

/// The daemon's fixed configuration, as the dispatcher reads it.
pub struct Config {
    pub role: UserRole,
    pub min_conf: u32,
    /// Our own stakeholder key for the current vault's derivation.
    pub our_stk_key: u64,
    /// The stakeholder quorum: every one of these keys must sign.
    pub stakeholder_keys: Vec<u64>,
}

/// Per-connection metadata of the JSON-RPC server.
pub struct JsonRpcMetaData {
    pub shutdown: bool,
    pub role: UserRole,
}

impl JsonRpcMetaData {
    pub fn new(role: UserRole) -> (r: JsonRpcMetaData)
        ensures
            !r.shutdown,
            r.role == role,
    {
        JsonRpcMetaData { shutdown: false, role }
    }

    pub fn is_shutdown(&self) -> (r: bool)
        ensures
            r == self.shutdown,
    {
        self.shutdown
    }

    pub fn shutdown(&mut self)
        ensures
            final(self).shutdown,
            final(self).role == old(self).role,
    {
        self.shutdown = true;
    }
}

/// The errors a handler reports to the RPC caller; every one maps to a
/// JSON-RPC invalid-params or internal error at the boundary.
#[derive(Clone, Copy, PartialEq, Eq, Structural, Debug)]
pub enum RpcError {
    /// A manager called a stakeholder-only command.
    NotStakeholder,
    /// A stakeholder called a manager-only command.
    NotManager,
    /// No vault for the given deposit outpoint.
    UnknownOutpoint(TxRef),
    /// The vault is not in the status the command requires.
    InvalidStatus(VaultStatus),
    /// A store row the invariants promise is missing.
    InternalError,
    /// A handed-in PSBT's unsigned wtxid does not match the stored one.
    InvalidPsbt(TxKind),
    /// The caller did not sign the PSBT with their own key.
    MissingOwnSignature(TxKind),
    /// A handed-in signature failed cryptographic validation.
    InvalidSignature(TxKind),
    /// Signatures could not be shared with the other participants.
    ShareFailure,
    /// The requested feerate is below one satoshi per virtual byte.
    FeerateTooLow,
    /// The achievable feerate falls short of the requested one.
    FeerateMismatch,
    /// A Spend input refers to an unvault transaction of no known vault.
    UnknownUnvault(u64),
    /// No Spend draft under this txid.
    UnknownSpend(u64),
    /// A Spend input's vault is gone already.
    AlreadySpentVault,
    /// The node refused a broadcast.
    BroadcastFailure,
}

impl RpcError {
    /// The fixed part of the message reported to the caller.
    pub fn text(&self) -> (r: &'static str)
        ensures
            *self == RpcError::NotStakeholder ==> r@ == "This is a stakeholder command"@,
            *self == RpcError::NotManager ==> r@ == "This is a manager command"@,
    {
        match self {
            RpcError::NotStakeholder => "This is a stakeholder command",
            RpcError::NotManager => "This is a manager command",
            RpcError::UnknownOutpoint(_) => "No vault at this outpoint",
            RpcError::InvalidStatus(_) => "Invalid vault status",
            RpcError::InternalError => "Internal error",
            RpcError::InvalidPsbt(_) => "PSBT does not match the stored transaction",
            RpcError::MissingOwnSignature(_) => "No signature for ourselves",
            RpcError::InvalidSignature(_) => "Invalid signature",
            RpcError::ShareFailure => "Error while sharing signatures",
            RpcError::FeerateTooLow => "Feerate can't be <1",
            RpcError::FeerateMismatch => "Required feerate is significantly higher than the actual feerate",
            RpcError::UnknownUnvault(_) => "Spend transaction refers an unknown Unvault",
            RpcError::UnknownSpend(_) => "Unknown Spend transaction",
            RpcError::AlreadySpentVault => "Spend transaction refers to an already spent vault",
            RpcError::BroadcastFailure => "Broadcasting transaction(s) failed",
        }
    }
}

/// One vault as `listvaults` reports it.
#[derive(Clone, Copy, PartialEq, Eq, Debug)]
pub struct VaultSummary {
    pub deposit_outpoint: TxRef,
    pub amount: u64,
    pub derivation_index: u32,
    pub status: VaultStatus,
    pub blockheight: Option<u32>,
    pub received_at: u64,
    pub updated_at: u64,
    pub spend_txid: Option<u64>,
}

/// The summary of one vault row.
pub open spec fn spec_summary(v: Vault) -> VaultSummary {
    VaultSummary {
        deposit_outpoint: v.deposit_outpoint,
        amount: v.amount,
        derivation_index: v.derivation_index,
        status: v.status,
        blockheight: v.blockheight,
        received_at: v.received_at,
        updated_at: v.updated_at,
        spend_txid: v.spend_txid,
    }
}

/// A presigned transaction as handed out: its identifiers and how many
/// signatures the store has gathered.
#[derive(Clone, Copy, PartialEq, Eq, Debug)]
pub struct PsbtId {
    pub wtxid: u64,
    pub txid: u64,
    pub n_sigs: usize,
}

/// The vaults `getinfo` counts: everything still under watch (not spent,
/// canceled, unvaulted or emergency-vaulted).
pub open spec fn spec_count_monitored(s: Seq<Vault>) -> int
    decreases s.len(),
{
    if s.len() == 0 {
        0
    } else {
        spec_count_monitored(s.drop_last()) + (if s.last().status.spec_counted_by_getinfo() {
            1int
        } else {
            0int
        })
    }
}

/// The filters of `listvaults`: an empty status list means no status
/// filter; an outpoint list keeps exactly the listed outpoints.
pub open spec fn passes_filters(
    v: Vault,
    statuses: Option<Seq<VaultStatus>>,
    outpoints: Option<Seq<TxRef>>,
) -> bool {
    &&& match statuses {
        Some(ss) => ss.len() == 0 || ss.contains(v.status),
        None => true,
    }
    &&& match outpoints {
        Some(os) => os.contains(v.deposit_outpoint),
        None => true,
    }
}

/// What `listvaults` returns for a store and a pair of filters.
pub open spec fn spec_listed(
    s: Seq<Vault>,
    statuses: Option<Seq<VaultStatus>>,
    outpoints: Option<Seq<TxRef>>,
) -> Seq<VaultSummary>
    decreases s.len(),
{
    if s.len() == 0 {
        Seq::empty()
    } else {
        let rest = spec_listed(s.drop_last(), statuses, outpoints);
        if passes_filters(s.last(), statuses, outpoints) {
            rest.push(spec_summary(s.last()))
        } else {
            rest
        }
    }
}

/// `ss@` holds `st`.
fn contains_status(ss: &Vec<VaultStatus>, st: VaultStatus) -> (r: bool)
    ensures
        r == ss@.contains(st),
{
    let mut i: usize = 0;
    while i < ss.len()
        invariant
            i <= ss@.len(),
            forall|j: int| 0 <= j < i ==> ss@[j] != st,
        decreases ss@.len() - i,
    {
        if ss[i] == st {
            return true;
        }
        i = i + 1;
    }
    false
}

/// `os@` holds `op`.
fn contains_outpoint(os: &Vec<TxRef>, op: TxRef) -> (r: bool)
    ensures
        r == os@.contains(op),
{
    let mut i: usize = 0;
    while i < os.len()
        invariant
            i <= os@.len(),
            forall|j: int| 0 <= j < i ==> os@[j] != op,
        decreases os@.len() - i,
    {
        if os[i] == op {
            return true;
        }
        i = i + 1;
    }
    false
}

/// The handler type the JSON-RPC server dispatches to.
pub struct RpcImpl;

impl RpcImpl {
    /// `stop`: ask every worker to wind down; idempotent.
    pub fn stop(&self, meta: &mut JsonRpcMetaData)
        ensures
            final(meta).shutdown,
            final(meta).role == old(meta).role,
    {
        meta.shutdown();
    }

    /// `getinfo`: the stored tip height and how many vaults are still
    /// under watch.
    pub fn getinfo(&self, store: &Store) -> (r: (u32, usize))
        ensures
            r.0 == store.tip.height,
            r.1 == spec_count_monitored(store.vaults@),
    {
        let mut count: usize = 0;
        let mut i: usize = 0;
        while i < store.vaults.len()
            invariant
                i <= store.vaults@.len(),
                count <= i,
                count == spec_count_monitored(store.vaults@.take(i as int)),
            decreases store.vaults@.len() - i,
        {
            proof {
                assert(store.vaults@.take(i + 1).drop_last() =~= store.vaults@.take(i as int));
                assert(store.vaults@.take(i + 1).last() == store.vaults@[i as int]);
            }
            if store.vaults[i].status.counted_by_getinfo() {
                count = count + 1;
            }
            i = i + 1;
        }
        proof {
            assert(store.vaults@.take(store.vaults@.len() as int) =~= store.vaults@);
        }
        (store.tip.height, count)
    }

    /// `listvaults`: the vaults passing the optional status and outpoint
    /// filters, in store order. An empty status array is no filter.
    pub fn listvaults(
        &self,
        store: &Store,
        statuses: Option<&Vec<VaultStatus>>,
        outpoints: Option<&Vec<TxRef>>,
    ) -> (r: Vec<VaultSummary>)
        ensures
            r@ == spec_listed(
                store.vaults@,
                match statuses {
                    Some(ss) => Some(ss@),
                    None => None,
                },
                match outpoints {
                    Some(os) => Some(os@),
                    None => None,
                },
            ),
    {
        let ghost gs: Option<Seq<VaultStatus>> = match statuses {
            Some(ss) => Some(ss@),
            None => None,
        };
        let ghost go: Option<Seq<TxRef>> = match outpoints {
            Some(os) => Some(os@),
            None => None,
        };
        let mut out: Vec<VaultSummary> = Vec::new();
        let mut i: usize = 0;
        while i < store.vaults.len()
            invariant
                i <= store.vaults@.len(),
                gs == (match statuses {
                    Some(ss) => Some(ss@),
                    None => None::<Seq<VaultStatus>>,
                }),
                go == (match outpoints {
                    Some(os) => Some(os@),
                    None => None::<Seq<TxRef>>,
                }),
                out@ == spec_listed(store.vaults@.take(i as int), gs, go),
            decreases store.vaults@.len() - i,
        {
            proof {
                assert(store.vaults@.take(i + 1).drop_last() =~= store.vaults@.take(i as int));
                assert(store.vaults@.take(i + 1).last() == store.vaults@[i as int]);
            }
            let v = &store.vaults[i];
            let status_ok: bool = match statuses {
                Some(ss) => ss.len() == 0 || contains_status(ss, v.status),
                None => true,
            };
            let outpoint_ok: bool = match outpoints {
                Some(os) => contains_outpoint(os, v.deposit_outpoint),
                None => true,
            };
            if status_ok && outpoint_ok {
                out.push(
                    VaultSummary {
                        deposit_outpoint: v.deposit_outpoint,
                        amount: v.amount,
                        derivation_index: v.derivation_index,
                        status: v.status,
                        blockheight: v.blockheight,
                        received_at: v.received_at,
                        updated_at: v.updated_at,
                        spend_txid: v.spend_txid,
                    },
                );
            }
            i = i + 1;
        }
        proof {
            assert(store.vaults@.take(store.vaults@.len() as int) =~= store.vaults@);
        }
        out
    }

    /// `getdepositaddress`: the derivation index the fresh deposit
    /// address is derived at — the given one, or the next unused.
    pub fn getdepositaddress(&self, store: &Store, index: Option<u32>) -> (r: u32)
        ensures
            r == (match index {
                Some(i) => i,
                None => store.deposit_index,
            }),
    {
        match index {
            Some(i) => i,
            None => store.deposit_index,
        }
    }
}

/// A PSBT as a caller hands it in: the identifier of its unsigned form
/// and the keys whose partial signature it carries.
pub struct PsbtIn {
    pub wtxid: u64,
    pub sigs: Vec<u64>,
}

/// The identifiers of one stored presigned transaction.
pub open spec fn spec_psbt_id(p: crate::vault::Psbt) -> PsbtId {
    PsbtId { wtxid: p.wtxid, txid: p.txid, n_sigs: p.sigs@.len() as usize }
}

/// What `revocationtxs` verifies once role and vault lookup passed, in
/// the order failures are reported: the status, the three wtxids against
/// the stored transactions, the caller's own signature on each, then
/// cryptographic validity.
pub open spec fn spec_rev_check(
    v: Vault,
    our_key: u64,
    c_wtxid: u64,
    c_sigs: Seq<u64>,
    e_wtxid: u64,
    e_sigs: Seq<u64>,
    u_wtxid: u64,
    u_sigs: Seq<u64>,
    invalid_sig: Option<TxKind>,
) -> Option<RpcError> {
    if v.status != VaultStatus::Funded {
        Some(RpcError::InvalidStatus(v.status))
    } else {
        match v.presigned {
            None => Some(RpcError::InternalError),
            Some(p) => match (p.emergency, p.unvault_emergency) {
                (Some(pe), Some(pu)) => if c_wtxid != p.cancel.wtxid {
                    Some(RpcError::InvalidPsbt(TxKind::Cancel))
                } else if e_wtxid != pe.wtxid {
                    Some(RpcError::InvalidPsbt(TxKind::Emergency))
                } else if u_wtxid != pu.wtxid {
                    Some(RpcError::InvalidPsbt(TxKind::UnvaultEmergency))
                } else if !c_sigs.contains(our_key) {
                    Some(RpcError::MissingOwnSignature(TxKind::Cancel))
                } else if !e_sigs.contains(our_key) {
                    Some(RpcError::MissingOwnSignature(TxKind::Emergency))
                } else if !u_sigs.contains(our_key) {
                    Some(RpcError::MissingOwnSignature(TxKind::UnvaultEmergency))
                } else {
                    match invalid_sig {
                        Some(k) => Some(RpcError::InvalidSignature(k)),
                        None => None,
                    }
                },
                _ => Some(RpcError::InternalError),
            },
        }
    }
}

impl RpcImpl {
    /// `getrevocationtxs`: the stored revocation chain of a known,
    /// confirmed vault, for a stakeholder to sign.
    pub fn getrevocationtxs(&self, store: &Store, cfg: &Config, outpoint: TxRef) -> (r: Result<
        (PsbtId, PsbtId, PsbtId),
        RpcError,
    >)
        requires
            store.wf(),
        ensures
            cfg.role == UserRole::Manager ==> r == Err::<(PsbtId, PsbtId, PsbtId), RpcError>(
                RpcError::NotStakeholder,
            ),
            cfg.role != UserRole::Manager && !store.has_vault(outpoint) ==> r == Err::<
                (PsbtId, PsbtId, PsbtId),
                RpcError,
            >(RpcError::UnknownOutpoint(outpoint)),
            cfg.role != UserRole::Manager && store.has_vault(outpoint) ==> {
                let v = vault_at(*store, outpoint);
                if v.status == VaultStatus::Unconfirmed {
                    r == Err::<(PsbtId, PsbtId, PsbtId), RpcError>(
                        RpcError::InvalidStatus(v.status),
                    )
                } else {
                    match v.presigned {
                        Some(p) => match (p.emergency, p.unvault_emergency) {
                            (Some(pe), Some(pu)) => r == Ok::<(PsbtId, PsbtId, PsbtId), RpcError>(
                                (spec_psbt_id(p.cancel), spec_psbt_id(pe), spec_psbt_id(pu)),
                            ),
                            _ => r == Err::<(PsbtId, PsbtId, PsbtId), RpcError>(
                                RpcError::InternalError,
                            ),
                        },
                        None => r == Err::<(PsbtId, PsbtId, PsbtId), RpcError>(
                            RpcError::InternalError,
                        ),
                    }
                }
            },
    {
        if matches!(cfg.role, UserRole::Manager) {
            return Err(RpcError::NotStakeholder);
        }
        let i = match store.find_by_deposit(outpoint) {
            Some(i) => i,
            None => {
                return Err(RpcError::UnknownOutpoint(outpoint));
            },
        };
        proof {
            lemma_vault_at(*store, outpoint, i as int);
        }
        if matches!(store.vaults[i].status, VaultStatus::Unconfirmed) {
            return Err(RpcError::InvalidStatus(store.vaults[i].status));
        }
        match &store.vaults[i].presigned {
            Some(p) => match (&p.emergency, &p.unvault_emergency) {
                (Some(pe), Some(pu)) => Ok(
                    (
                        PsbtId { wtxid: p.cancel.wtxid, txid: p.cancel.txid, n_sigs: p.cancel.sigs.len() },
                        PsbtId { wtxid: pe.wtxid, txid: pe.txid, n_sigs: pe.sigs.len() },
                        PsbtId { wtxid: pu.wtxid, txid: pu.txid, n_sigs: pu.sigs.len() },
                    ),
                ),
                _ => Err(RpcError::InternalError),
            },
            None => Err(RpcError::InternalError),
        }
    }

    /// `revocationtxs`: accept a stakeholder's signed revocation chain.
    /// The vault must be `Funded`; each handed-in PSBT must match the
    /// stored unsigned transaction and carry the caller's own signature;
    /// `invalid_sig` reports the shell's cryptographic verdict. Only then
    /// are the signatures merged, promoting to `Secured` exactly when
    /// every stakeholder has signed all three.
    ///
    /// Whenever an error is reported — a wrong wtxid among them — the
    /// store is left untouched.
    pub fn revocationtxs(
        &self,
        store: &mut Store,
        cfg: &Config,
        outpoint: TxRef,
        cancel_tx: &PsbtIn,
        emergency_tx: &PsbtIn,
        emergency_unvault_tx: &PsbtIn,
        invalid_sig: Option<TxKind>,
        now: u64,
    ) -> (r: Result<(), RpcError>)
        requires
            old(store).wf(),
        ensures
            final(store).wf(),
            r is Err ==> *final(store) == *old(store),
            cfg.role == UserRole::Manager ==> r == Err::<(), RpcError>(RpcError::NotStakeholder),
            cfg.role != UserRole::Manager && !old(store).has_vault(outpoint) ==> r == Err::<
                (),
                RpcError,
            >(RpcError::UnknownOutpoint(outpoint)),
            cfg.role != UserRole::Manager && old(store).has_vault(outpoint) ==> (match spec_rev_check(
                vault_at(*old(store), outpoint),
                cfg.our_stk_key,
                cancel_tx.wtxid,
                cancel_tx.sigs@,
                emergency_tx.wtxid,
                emergency_tx.sigs@,
                emergency_unvault_tx.wtxid,
                emergency_unvault_tx.sigs@,
                invalid_sig,
            ) {
                Some(e) => r == Err::<(), RpcError>(e),
                None => r is Ok,
            }),
            r is Ok ==> Store::frame_vault(*old(store), *final(store), outpoint),
            r is Ok ==> forall|ii: int|
                0 <= ii < old(store).vaults@.len() && (#[trigger] old(store).vaults@[ii]).deposit_outpoint
                    == outpoint ==> {
                    let pv = old(store).vaults@[ii].presigned->Some_0;
                    let fw = final(store).vaults@[ii];
                    let fv = fw.presigned->Some_0;
                    &&& fw.presigned is Some
                    &&& pv.emergency is Some && pv.unvault_emergency is Some
                    &&& fv.emergency is Some && fv.unvault_emergency is Some
                    &&& crate::store::psbt_merged(pv.cancel, fv.cancel, cancel_tx.sigs@)
                    &&& crate::store::psbt_merged(
                        pv.emergency->Some_0,
                        fv.emergency->Some_0,
                        emergency_tx.sigs@,
                    )
                    &&& crate::store::psbt_merged(
                        pv.unvault_emergency->Some_0,
                        fv.unvault_emergency->Some_0,
                        emergency_unvault_tx.sigs@,
                    )
                    &&& fv.unvault == pv.unvault
                    &&& fw.status == (if crate::store::revs_fully_signed(
                        fv,
                        cfg.stakeholder_keys@,
                    ) {
                        VaultStatus::Secured
                    } else {
                        VaultStatus::Funded
                    })
                    &&& fw.updated_at == now
                    &&& fw.spend_txid == old(store).vaults@[ii].spend_txid
                    &&& fw.blockheight == old(store).vaults@[ii].blockheight
                },
    {
        if matches!(cfg.role, UserRole::Manager) {
            return Err(RpcError::NotStakeholder);
        }
        let i = match store.find_by_deposit(outpoint) {
            Some(i) => i,
            None => {
                return Err(RpcError::UnknownOutpoint(outpoint));
            },
        };
        proof {
            lemma_vault_at(*store, outpoint, i as int);
        }
        if !matches!(store.vaults[i].status, VaultStatus::Funded) {
            return Err(RpcError::InvalidStatus(store.vaults[i].status));
        }
        let cw: u64;
        let ew: u64;
        let uw: u64;
        match &store.vaults[i].presigned {
            Some(p) => match (&p.emergency, &p.unvault_emergency) {
                (Some(pe), Some(pu)) => {
                    cw = p.cancel.wtxid;
                    ew = pe.wtxid;
                    uw = pu.wtxid;
                },
                _ => {
                    return Err(RpcError::InternalError);
                },
            },
            None => {
                return Err(RpcError::InternalError);
            },
        }
        if cancel_tx.wtxid != cw {
            return Err(RpcError::InvalidPsbt(TxKind::Cancel));
        }
        if emergency_tx.wtxid != ew {
            return Err(RpcError::InvalidPsbt(TxKind::Emergency));
        }
        if emergency_unvault_tx.wtxid != uw {
            return Err(RpcError::InvalidPsbt(TxKind::UnvaultEmergency));
        }
        if !crate::store::vec_contains_u64(&cancel_tx.sigs, cfg.our_stk_key) {
            return Err(RpcError::MissingOwnSignature(TxKind::Cancel));
        }
        if !crate::store::vec_contains_u64(&emergency_tx.sigs, cfg.our_stk_key) {
            return Err(RpcError::MissingOwnSignature(TxKind::Emergency));
        }
        if !crate::store::vec_contains_u64(&emergency_unvault_tx.sigs, cfg.our_stk_key) {
            return Err(RpcError::MissingOwnSignature(TxKind::UnvaultEmergency));
        }
        if let Some(k) = invalid_sig {
            return Err(RpcError::InvalidSignature(k));
        }
        let ghost s0 = *store;
        store.update_presigned_tx(
            outpoint,
            TxKind::Cancel,
            &cancel_tx.sigs,
            &cfg.stakeholder_keys,
            now,
        );
        let ghost s1 = *store;
        store.update_presigned_tx(
            outpoint,
            TxKind::Emergency,
            &emergency_tx.sigs,
            &cfg.stakeholder_keys,
            now,
        );
        let ghost s2 = *store;
        store.update_presigned_tx(
            outpoint,
            TxKind::UnvaultEmergency,
            &emergency_unvault_tx.sigs,
            &cfg.stakeholder_keys,
            now,
        );
        proof {
            let keys = cfg.stakeholder_keys@;
            assert forall|ii: int|
                0 <= ii < s0.vaults@.len() && (#[trigger] s0.vaults@[ii]).deposit_outpoint
                    == outpoint implies {
                let pv = s0.vaults@[ii].presigned->Some_0;
                let fw = store.vaults@[ii];
                let fv = fw.presigned->Some_0;
                &&& fw.presigned is Some
                &&& pv.emergency is Some && pv.unvault_emergency is Some
                &&& fv.emergency is Some && fv.unvault_emergency is Some
                &&& crate::store::psbt_merged(pv.cancel, fv.cancel, cancel_tx.sigs@)
                &&& crate::store::psbt_merged(
                    pv.emergency->Some_0,
                    fv.emergency->Some_0,
                    emergency_tx.sigs@,
                )
                &&& crate::store::psbt_merged(
                    pv.unvault_emergency->Some_0,
                    fv.unvault_emergency->Some_0,
                    emergency_unvault_tx.sigs@,
                )
                &&& fv.unvault == pv.unvault
                &&& fw.status == (if crate::store::revs_fully_signed(fv, keys) {
                    VaultStatus::Secured
                } else {
                    VaultStatus::Funded
                })
                &&& fw.updated_at == now
                &&& fw.spend_txid == s0.vaults@[ii].spend_txid
                &&& fw.blockheight == s0.vaults@[ii].blockheight
            } by {
                assert(ii == i as int);
                let v0 = s0.vaults@[ii];
                let v1 = s1.vaults@[ii];
                let v2 = s2.vaults@[ii];
                let v3 = store.vaults@[ii];
                let p0 = v0.presigned->Some_0;
                let p1 = v1.presigned->Some_0;
                let p2 = v2.presigned->Some_0;
                let p3 = v3.presigned->Some_0;
                assert(crate::store::presigned_updated(
                    v0,
                    v1,
                    TxKind::Cancel,
                    cancel_tx.sigs@,
                    keys,
                    now,
                ));
                assert(crate::store::presigned_updated(
                    v1,
                    v2,
                    TxKind::Emergency,
                    emergency_tx.sigs@,
                    keys,
                    now,
                ));
                assert(crate::store::presigned_updated(
                    v2,
                    v3,
                    TxKind::UnvaultEmergency,
                    emergency_unvault_tx.sigs@,
                    keys,
                    now,
                ));
                assert(crate::store::psbt_kind(p1, TxKind::Unvault)
                    == crate::store::psbt_kind(p0, TxKind::Unvault));
                assert(crate::store::psbt_kind(p1, TxKind::Emergency)
                    == crate::store::psbt_kind(p0, TxKind::Emergency));
                assert(crate::store::psbt_kind(p1, TxKind::UnvaultEmergency)
                    == crate::store::psbt_kind(p0, TxKind::UnvaultEmergency));
                assert(crate::store::psbt_kind(p2, TxKind::Unvault)
                    == crate::store::psbt_kind(p1, TxKind::Unvault));
                assert(crate::store::psbt_kind(p2, TxKind::Cancel)
                    == crate::store::psbt_kind(p1, TxKind::Cancel));
                assert(crate::store::psbt_kind(p2, TxKind::UnvaultEmergency)
                    == crate::store::psbt_kind(p1, TxKind::UnvaultEmergency));
                assert(crate::store::psbt_kind(p3, TxKind::Unvault)
                    == crate::store::psbt_kind(p2, TxKind::Unvault));
                assert(crate::store::psbt_kind(p3, TxKind::Cancel)
                    == crate::store::psbt_kind(p2, TxKind::Cancel));
                assert(crate::store::psbt_kind(p3, TxKind::Emergency)
                    == crate::store::psbt_kind(p2, TxKind::Emergency));
                assert(crate::store::psbt_kind(p2, TxKind::Emergency) is Some);
                assert(crate::store::psbt_kind(p3, TxKind::UnvaultEmergency) is Some);
                assert(crate::store::psbt_merged(p0.cancel, p3.cancel, cancel_tx.sigs@));
                assert(crate::store::psbt_merged(
                    p0.emergency->Some_0,
                    p3.emergency->Some_0,
                    emergency_tx.sigs@,
                ));
                assert(p2.unvault_emergency == p1.unvault_emergency);
                assert(p1.unvault_emergency == p0.unvault_emergency);
                assert(crate::store::psbt_merged(
                    p0.unvault_emergency->Some_0,
                    p3.unvault_emergency->Some_0,
                    emergency_unvault_tx.sigs@,
                ));
                assert(p3.unvault == p0.unvault);
                // Status: promotions fire exactly when the final chain is
                // fully signed, since signature sets only grow.
                if crate::store::revs_fully_signed(p3, keys) {
                    if v2.status == VaultStatus::Funded {
                        assert(v3.status == VaultStatus::Secured);
                    } else {
                        assert(v2.status == VaultStatus::Secured);
                        assert(v3.status == VaultStatus::Secured);
                    }
                } else {
                    if v1.status == VaultStatus::Secured {
                        assert(crate::store::revs_fully_signed(p1, keys));
                        assert forall|k: int|
                            0 <= k < keys.len() implies p3.cancel.sigs@.contains(
                            #[trigger] keys[k],
                        ) by {
                            assert(p1.cancel.sigs@.contains(keys[k]));
                        }
                        assert forall|k: int|
                            0 <= k < keys.len() implies (p3.emergency->Some_0).sigs@.contains(
                            #[trigger] keys[k],
                        ) by {
                            assert((p1.emergency->Some_0).sigs@.contains(keys[k]));
                            assert((p2.emergency->Some_0).sigs@.contains(keys[k]));
                        }
                        assert forall|k: int|
                            0 <= k < keys.len() implies (p3.unvault_emergency->Some_0).sigs@.contains(
                            #[trigger] keys[k],
                        ) by {
                            assert((p1.unvault_emergency->Some_0).sigs@.contains(keys[k]));
                        }
                        assert(crate::store::revs_fully_signed(p3, keys));
                        assert(false);
                    }
                    if v2.status == VaultStatus::Secured {
                        assert(crate::store::revs_fully_signed(p2, keys));
                        assert forall|k: int|
                            0 <= k < keys.len() implies p3.cancel.sigs@.contains(
                            #[trigger] keys[k],
                        ) by {
                            assert(p2.cancel.sigs@.contains(keys[k]));
                        }
                        assert forall|k: int|
                            0 <= k < keys.len() implies (p3.emergency->Some_0).sigs@.contains(
                            #[trigger] keys[k],
                        ) by {
                            assert((p2.emergency->Some_0).sigs@.contains(keys[k]));
                        }
                        assert forall|k: int|
                            0 <= k < keys.len() implies (p3.unvault_emergency->Some_0).sigs@.contains(
                            #[trigger] keys[k],
                        ) by {
                            assert((p2.unvault_emergency->Some_0).sigs@.contains(keys[k]));
                        }
                        assert(crate::store::revs_fully_signed(p3, keys));
                        assert(false);
                    }
                    assert(v3.status == VaultStatus::Funded);
                }
            }
        }
        Ok(())
    }

    /// The second half of `revocationtxs`: after the shell shared the
    /// signatures with the other stakeholders, mark a still-`Funded`
    /// vault `Securing`; a failed share is reported and leaves the status
    /// as the merge set it.
    pub fn revocationtxs_finish(
        &self,
        store: &mut Store,
        outpoint: TxRef,
        share_ok: bool,
        now: u64,
    ) -> (r: Result<(), RpcError>)
        requires
            old(store).wf(),
        ensures
            final(store).wf(),
            !share_ok ==> *final(store) == *old(store) && r == Err::<(), RpcError>(
                RpcError::ShareFailure,
            ),
            share_ok ==> r is Ok && Store::frame_vault(*old(store), *final(store), outpoint),
            share_ok ==> forall|i: int|
                0 <= i < old(store).vaults@.len() && (#[trigger] old(store).vaults@[i]).deposit_outpoint
                    == outpoint ==> final(store).vaults@[i] == (if old(store).vaults@[i].status
                    == VaultStatus::Funded {
                    crate::store::with_status(
                        old(store).vaults@[i],
                        VaultStatus::Securing,
                        now,
                    )
                } else {
                    old(store).vaults@[i]
                }),
    {
        if !share_ok {
            return Err(RpcError::ShareFailure);
        }
        store.mark_securing(outpoint, now);
        Ok(())
    }

    /// `getunvaulttx`: the stored unvault transaction of a known,
    /// confirmed vault.
    pub fn getunvaulttx(&self, store: &Store, cfg: &Config, outpoint: TxRef) -> (r: Result<
        PsbtId,
        RpcError,
    >)
        requires
            store.wf(),
        ensures
            cfg.role == UserRole::Manager ==> r == Err::<PsbtId, RpcError>(
                RpcError::NotStakeholder,
            ),
            cfg.role != UserRole::Manager && !store.has_vault(outpoint) ==> r == Err::<
                PsbtId,
                RpcError,
            >(RpcError::UnknownOutpoint(outpoint)),
            cfg.role != UserRole::Manager && store.has_vault(outpoint) ==> {
                let v = vault_at(*store, outpoint);
                if v.status == VaultStatus::Unconfirmed {
                    r == Err::<PsbtId, RpcError>(RpcError::InvalidStatus(v.status))
                } else {
                    match v.presigned {
                        Some(p) => r == Ok::<PsbtId, RpcError>(spec_psbt_id(p.unvault)),
                        None => r == Err::<PsbtId, RpcError>(RpcError::InternalError),
                    }
                }
            },
    {
        if matches!(cfg.role, UserRole::Manager) {
            return Err(RpcError::NotStakeholder);
        }
        let i = match store.find_by_deposit(outpoint) {
            Some(i) => i,
            None => {
                return Err(RpcError::UnknownOutpoint(outpoint));
            },
        };
        proof {
            lemma_vault_at(*store, outpoint, i as int);
        }
        if matches!(store.vaults[i].status, VaultStatus::Unconfirmed) {
            return Err(RpcError::InvalidStatus(store.vaults[i].status));
        }
        match &store.vaults[i].presigned {
            Some(p) => Ok(
                PsbtId { wtxid: p.unvault.wtxid, txid: p.unvault.txid, n_sigs: p.unvault.sigs.len() },
            ),
            None => Err(RpcError::InternalError),
        }
    }

    /// `unvaulttx`: accept a stakeholder's signed unvault transaction.
    /// The vault must be `Secured`, the PSBT must match the stored
    /// unsigned transaction and carry the caller's own signature, and the
    /// shell's cryptographic verdict must be clean; the merge promotes to
    /// `Active` exactly when every stakeholder has signed.
    pub fn unvaulttx(
        &self,
        store: &mut Store,
        cfg: &Config,
        outpoint: TxRef,
        unvault_tx: &PsbtIn,
        sig_invalid: bool,
        now: u64,
    ) -> (r: Result<(), RpcError>)
        requires
            old(store).wf(),
        ensures
            final(store).wf(),
            r is Err ==> *final(store) == *old(store),
            cfg.role == UserRole::Manager ==> r == Err::<(), RpcError>(RpcError::NotStakeholder),
            cfg.role != UserRole::Manager && !old(store).has_vault(outpoint) ==> r == Err::<
                (),
                RpcError,
            >(RpcError::UnknownOutpoint(outpoint)),
            cfg.role != UserRole::Manager && old(store).has_vault(outpoint) ==> {
                let v = vault_at(*old(store), outpoint);
                if v.status != VaultStatus::Secured {
                    r == Err::<(), RpcError>(RpcError::InvalidStatus(v.status))
                } else {
                    match v.presigned {
                        None => r == Err::<(), RpcError>(RpcError::InternalError),
                        Some(p) => if unvault_tx.wtxid != p.unvault.wtxid {
                            r == Err::<(), RpcError>(RpcError::InvalidPsbt(TxKind::Unvault))
                        } else if !unvault_tx.sigs@.contains(cfg.our_stk_key) {
                            r == Err::<(), RpcError>(
                                RpcError::MissingOwnSignature(TxKind::Unvault),
                            )
                        } else if sig_invalid {
                            r == Err::<(), RpcError>(RpcError::InvalidSignature(TxKind::Unvault))
                        } else {
                            r is Ok
                        },
                    }
                }
            },
            r is Ok ==> Store::frame_vault(*old(store), *final(store), outpoint),
            r is Ok ==> forall|ii: int|
                0 <= ii < old(store).vaults@.len() && (#[trigger] old(store).vaults@[ii]).deposit_outpoint
                    == outpoint ==> crate::store::presigned_updated(
                    old(store).vaults@[ii],
                    final(store).vaults@[ii],
                    TxKind::Unvault,
                    unvault_tx.sigs@,
                    cfg.stakeholder_keys@,
                    now,
                ),
    {
        if matches!(cfg.role, UserRole::Manager) {
            return Err(RpcError::NotStakeholder);
        }
        let i = match store.find_by_deposit(outpoint) {
            Some(i) => i,
            None => {
                return Err(RpcError::UnknownOutpoint(outpoint));
            },
        };
        proof {
            lemma_vault_at(*store, outpoint, i as int);
        }
        if !matches!(store.vaults[i].status, VaultStatus::Secured) {
            return Err(RpcError::InvalidStatus(store.vaults[i].status));
        }
        let uw: u64 = match &store.vaults[i].presigned {
            Some(p) => p.unvault.wtxid,
            None => {
                return Err(RpcError::InternalError);
            },
        };
        if unvault_tx.wtxid != uw {
            return Err(RpcError::InvalidPsbt(TxKind::Unvault));
        }
        if !crate::store::vec_contains_u64(&unvault_tx.sigs, cfg.our_stk_key) {
            return Err(RpcError::MissingOwnSignature(TxKind::Unvault));
        }
        if sig_invalid {
            return Err(RpcError::InvalidSignature(TxKind::Unvault));
        }
        store.update_presigned_tx(
            outpoint,
            TxKind::Unvault,
            &unvault_tx.sigs,
            &cfg.stakeholder_keys,
            now,
        );
        Ok(())
    }

    /// The second half of `unvaulttx`: after the shell shared the unvault
    /// signature with the coordinator, mark a still-`Secured` vault
    /// `Activating`.
    pub fn unvaulttx_finish(
        &self,
        store: &mut Store,
        outpoint: TxRef,
        share_ok: bool,
        now: u64,
    ) -> (r: Result<(), RpcError>)
        requires
            old(store).wf(),
        ensures
            final(store).wf(),
            !share_ok ==> *final(store) == *old(store) && r == Err::<(), RpcError>(
                RpcError::ShareFailure,
            ),
            share_ok ==> r is Ok && Store::frame_vault(*old(store), *final(store), outpoint),
            share_ok ==> forall|i: int|
                0 <= i < old(store).vaults@.len() && (#[trigger] old(store).vaults@[i]).deposit_outpoint
                    == outpoint ==> final(store).vaults@[i] == (if old(store).vaults@[i].status
                    == VaultStatus::Secured {
                    crate::store::with_status(
                        old(store).vaults@[i],
                        VaultStatus::Activating,
                        now,
                    )
                } else {
                    old(store).vaults@[i]
                }),
    {
        if !share_ok {
            return Err(RpcError::ShareFailure);
        }
        store.mark_activating(outpoint, now);
        Ok(())
    }

    /// `revault`: ask for the Cancel of a vault whose unvault output is
    /// on-chain or about to be spent; returns the Cancel txid the shell
    /// must broadcast. Never changes the store.
    pub fn revault(&self, store: &Store, outpoint: TxRef) -> (r: Result<u64, RpcError>)
        requires
            store.wf(),
        ensures
            !store.has_vault(outpoint) ==> r == Err::<u64, RpcError>(
                RpcError::UnknownOutpoint(outpoint),
            ),
            store.has_vault(outpoint) ==> {
                let v = vault_at(*store, outpoint);
                if v.status == VaultStatus::Unvaulting || v.status == VaultStatus::Unvaulted
                    || v.status == VaultStatus::Spending {
                    r == Ok::<u64, RpcError>(v.cancel_txid()->Some_0)
                } else {
                    r == Err::<u64, RpcError>(RpcError::InvalidStatus(v.status))
                }
            },
    {
        let i = match store.find_by_deposit(outpoint) {
            Some(i) => i,
            None => {
                return Err(RpcError::UnknownOutpoint(outpoint));
            },
        };
        proof {
            lemma_vault_at(*store, outpoint, i as int);
        }
        if !matches!(
            store.vaults[i].status,
            VaultStatus::Unvaulting | VaultStatus::Unvaulted | VaultStatus::Spending
        ) {
            return Err(RpcError::InvalidStatus(store.vaults[i].status));
        }
        match &store.vaults[i].presigned {
            Some(p) => Ok(p.cancel.txid),
            None => {
                proof {
                    assert(store.vaults@[i as int].wf());
                    assert(false);
                }
                Err(RpcError::InternalError)
            },
        }
    }
}

/// One vault's presigned chain as `listpresignedtransactions` reports
/// it.
#[derive(Clone, Copy, PartialEq, Eq, Debug)]
pub struct PresignedListEntry {
    pub outpoint: TxRef,
    pub unvault: Option<PsbtId>,
    pub cancel: Option<PsbtId>,
    pub emergency: Option<PsbtId>,
    pub unvault_emergency: Option<PsbtId>,
}

/// The listing entry of one vault row.
pub open spec fn spec_presigned_entry(v: Vault) -> PresignedListEntry {
    match v.presigned {
        Some(p) => PresignedListEntry {
            outpoint: v.deposit_outpoint,
            unvault: Some(spec_psbt_id(p.unvault)),
            cancel: Some(spec_psbt_id(p.cancel)),
            emergency: match p.emergency {
                Some(e) => Some(spec_psbt_id(e)),
                None => None,
            },
            unvault_emergency: match p.unvault_emergency {
                Some(e) => Some(spec_psbt_id(e)),
                None => None,
            },
        },
        None => PresignedListEntry {
            outpoint: v.deposit_outpoint,
            unvault: None,
            cancel: None,
            emergency: None,
            unvault_emergency: None,
        },
    }
}

/// Executable twin of [`spec_presigned_entry`].
fn presigned_entry_of(v: &Vault) -> (r: PresignedListEntry)
    ensures
        r == spec_presigned_entry(*v),
{
    match &v.presigned {
        Some(p) => PresignedListEntry {
            outpoint: v.deposit_outpoint,
            unvault: Some(
                PsbtId { wtxid: p.unvault.wtxid, txid: p.unvault.txid, n_sigs: p.unvault.sigs.len() },
            ),
            cancel: Some(
                PsbtId { wtxid: p.cancel.wtxid, txid: p.cancel.txid, n_sigs: p.cancel.sigs.len() },
            ),
            emergency: match &p.emergency {
                Some(e) => Some(PsbtId { wtxid: e.wtxid, txid: e.txid, n_sigs: e.sigs.len() }),
                None => None,
            },
            unvault_emergency: match &p.unvault_emergency {
                Some(e) => Some(PsbtId { wtxid: e.wtxid, txid: e.txid, n_sigs: e.sigs.len() }),
                None => None,
            },
        },
        None => PresignedListEntry {
            outpoint: v.deposit_outpoint,
            unvault: None,
            cancel: None,
            emergency: None,
            unvault_emergency: None,
        },
    }
}

/// The vault whose unvault transaction is `u` (meaningful when one
/// exists).
pub open spec fn vault_by_unvault_at(s: Store, u: u64) -> Vault {
    s.vaults@[choose|i: int|
        0 <= i < s.vaults@.len() && (#[trigger] s.vaults@[i]).unvault_txid() == Some(u)]
}

/// With unique unvault txids, [`vault_by_unvault_at`] is the vault at any
/// matching index.
pub proof fn lemma_vault_by_unvault_at(s: Store, u: u64, i: int)
    requires
        s.wf(),
        0 <= i < s.vaults@.len(),
        s.vaults@[i].unvault_txid() == Some(u),
    ensures
        vault_by_unvault_at(s, u) == s.vaults@[i],
{
    assert(0 <= i < s.vaults@.len() && (#[trigger] s.vaults@[i]).unvault_txid() == Some(u));
    let j = choose|j: int|
        0 <= j < s.vaults@.len() && (#[trigger] s.vaults@[j]).unvault_txid() == Some(u);
    assert(s.vaults@[j].unvault_txid() == Some(u));
}

/// The Spend draft stored under `txid` (meaningful when one exists).
pub open spec fn spend_at(s: Store, txid: u64) -> SpendRow {
    s.spends@[choose|i: int| 0 <= i < s.spends@.len() && (#[trigger] s.spends@[i]).txid == txid]
}

/// With unique draft txids, [`spend_at`] is the draft at any matching
/// index.
pub proof fn lemma_spend_at(s: Store, txid: u64, i: int)
    requires
        spend_keys_unique(s.spends@),
        0 <= i < s.spends@.len(),
        s.spends@[i].txid == txid,
    ensures
        spend_at(s, txid) == s.spends@[i],
{
    assert(0 <= i < s.spends@.len() && (#[trigger] s.spends@[i]).txid == txid);
    let j = choose|j: int| 0 <= j < s.spends@.len() && (#[trigger] s.spends@[j]).txid == txid;
    assert(s.spends@[j].txid == txid);
}

/// `r@ == v@`, element for element.
pub fn copy_u64_vec(v: &Vec<u64>) -> (r: Vec<u64>)
    ensures
        r@ == v@,
{
    let mut r: Vec<u64> = Vec::new();
    let mut i: usize = 0;
    while i < v.len()
        invariant
            i <= v@.len(),
            r@ == v@.take(i as int),
        decreases v@.len() - i,
    {
        r.push(v[i]);
        proof {
            assert(v@.take(i + 1) =~= v@.take(i as int).push(v@[i as int]));
        }
        i = i + 1;
    }
    proof {
        assert(v@.take(v@.len() as int) =~= v@);
    }
    r
}

/// The inputs `getspendtx` will build the Spend from, and the change
/// derivation index: the highest among the spent vaults, so that no
/// fresh address leaks.
#[derive(Debug)]
pub struct SpendPlan {
    /// One per requested outpoint: the outpoint, the deposit's value and
    /// its derivation index.
    pub txins: Vec<(TxRef, u64, u32)>,
    pub change_index: u32,
}

/// The change output of `getspendtx`: the surplus of the fees over what
/// the requested feerate needs for the transaction grown by one change
/// output, minus the CPFP overhead — added only when it clears the dust
/// limit plus that overhead. Mirrors a fee computation that gives up
/// (adding no change) when the product overflows.
pub open spec fn spec_change_output(feerate_vb: u64, max_weight: u64, fees: u64) -> Option<u64> {
    let prod = (max_weight + crate::types::P2WSH_TXO_WEIGHT) * (feerate_vb + 3);
    if prod > u64::MAX {
        None
    } else {
        let want = prod / 4;
        if fees >= want && fees - want > crate::types::DUST_LIMIT + crate::types::CPFP_OVERHEAD {
            Some((fees - want - crate::types::CPFP_OVERHEAD) as u64)
        } else {
            None
        }
    }
}

impl RpcImpl {
    /// The status-gated half of `getspendtx`: all spent vaults must be
    /// `Active`; collects their values and derivation indexes and picks
    /// the change index.
    pub fn getspendtx_plan(
        &self,
        store: &Store,
        cfg: &Config,
        outpoints: &Vec<TxRef>,
        feerate_vb: u64,
    ) -> (r: Result<SpendPlan, RpcError>)
        requires
            store.wf(),
        ensures
            cfg.role == UserRole::Stakeholder ==> r == Err::<SpendPlan, RpcError>(
                RpcError::NotManager,
            ),
            cfg.role != UserRole::Stakeholder && feerate_vb < 1 ==> r == Err::<
                SpendPlan,
                RpcError,
            >(RpcError::FeerateTooLow),
            r is Ok <==> (cfg.role != UserRole::Stakeholder && feerate_vb >= 1 && forall|j: int|
                0 <= j < outpoints@.len() ==> store.has_vault(#[trigger] outpoints@[j])
                    && vault_at(*store, outpoints@[j]).status == VaultStatus::Active),
            r matches Ok(plan) ==> {
                &&& plan.txins@.len() == outpoints@.len()
                &&& forall|j: int|
                    0 <= j < outpoints@.len() ==> #[trigger] plan.txins@[j] == (
                    outpoints@[j],
                    vault_at(*store, outpoints@[j]).amount,
                    vault_at(*store, outpoints@[j]).derivation_index,
                )
                &&& forall|j: int|
                    0 <= j < plan.txins@.len() ==> (#[trigger] plan.txins@[j]).2
                        <= plan.change_index
                &&& (plan.change_index == 0 || exists|j: int|
                    0 <= j < plan.txins@.len() && (#[trigger] plan.txins@[j]).2
                        == plan.change_index)
            },
            r matches Err(e) ==> (match e {
                RpcError::NotManager => cfg.role == UserRole::Stakeholder,
                RpcError::FeerateTooLow => feerate_vb < 1,
                RpcError::UnknownOutpoint(o) => outpoints@.contains(o) && !store.has_vault(o),
                RpcError::InvalidStatus(st) => exists|j: int|
                    0 <= j < outpoints@.len() && store.has_vault(#[trigger] outpoints@[j])
                        && vault_at(*store, outpoints@[j]).status == st && st
                        != VaultStatus::Active,
                _ => false,
            }),
    {
        if matches!(cfg.role, UserRole::Stakeholder) {
            return Err(RpcError::NotManager);
        }
        if feerate_vb < 1 {
            return Err(RpcError::FeerateTooLow);
        }
        let mut txins: Vec<(TxRef, u64, u32)> = Vec::new();
        let mut change_index: u32 = 0;
        let mut j: usize = 0;
        while j < outpoints.len()
            invariant
                store.wf(),
                cfg.role != UserRole::Stakeholder,
                feerate_vb >= 1,
                j <= outpoints@.len(),
                txins@.len() == j,
                forall|k: int|
                    0 <= k < j ==> store.has_vault(#[trigger] outpoints@[k]) && vault_at(
                        *store,
                        outpoints@[k],
                    ).status == VaultStatus::Active,
                forall|k: int|
                    0 <= k < j ==> #[trigger] txins@[k] == (
                    outpoints@[k],
                    vault_at(*store, outpoints@[k]).amount,
                    vault_at(*store, outpoints@[k]).derivation_index,
                ),
                forall|k: int| 0 <= k < j ==> (#[trigger] txins@[k]).2 <= change_index,
                change_index == 0 || exists|k: int|
                    0 <= k < j && (#[trigger] txins@[k]).2 == change_index,
            decreases outpoints@.len() - j,
        {
            let op = outpoints[j];
            let i = match store.find_by_deposit(op) {
                Some(i) => i,
                None => {
                    return Err(RpcError::UnknownOutpoint(op));
                },
            };
            proof {
                lemma_vault_at(*store, op, i as int);
            }
            if !matches!(store.vaults[i].status, VaultStatus::Active) {
                return Err(RpcError::InvalidStatus(store.vaults[i].status));
            }
            let ghost t0 = txins@;
            let ghost ci0 = change_index;
            let d = store.vaults[i].derivation_index;
            if d > change_index {
                change_index = d;
            }
            txins.push((op, store.vaults[i].amount, d));
            proof {
                if d == change_index {
                    assert(0 <= (j as int) < txins@.len() && txins@[(j as int)].2 == change_index);
                } else if change_index != 0 {
                    let k = choose|k: int| 0 <= k < j && (#[trigger] t0[k]).2 == ci0;
                    assert(txins@[k] == t0[k]);
                }
            }
            j = j + 1;
        }
        Ok(SpendPlan { txins, change_index })
    }

    /// The fee half of `getspendtx`, fed with what the builder measured
    /// on the changeless Spend: refuse a feerate that undershoots the
    /// requested one by more than a tenth, then decide the change output.
    pub fn getspendtx_change(
        &self,
        feerate_vb: u64,
        max_feerate: u64,
        max_weight: u64,
        fees: u64,
    ) -> (r: Result<Option<u64>, RpcError>)
        requires
            1 <= feerate_vb,
            feerate_vb <= u64::MAX / 9,
            max_feerate <= u64::MAX / 40,
            max_weight <= u64::MAX - crate::types::P2WSH_TXO_WEIGHT,
        ensures
            r == (if (max_feerate * 4) * 10 < feerate_vb * 9 {
                Err::<Option<u64>, RpcError>(RpcError::FeerateMismatch)
            } else {
                Ok::<Option<u64>, RpcError>(spec_change_output(feerate_vb, max_weight, fees))
            }),
    {
        let nochange_feerate_vb: u64 = max_feerate * 4;
        if nochange_feerate_vb * 10 < feerate_vb * 9 {
            return Err(RpcError::FeerateMismatch);
        }
        let with_change_weight: u64 = max_weight + crate::types::P2WSH_TXO_WEIGHT;
        let f3: u128 = (feerate_vb as u128) + 3;
        proof {
            assert((with_change_weight as u128) * f3 <= (u64::MAX as u128) * f3)
                by (nonlinear_arith)
                requires
                    (with_change_weight as u128) <= (u64::MAX as u128),
                    f3 >= 0,
            ;
            assert((u64::MAX as u128) * f3 < u128::MAX) by (nonlinear_arith)
                requires
                    0 <= f3 <= (u64::MAX as u128) / 9 + 3,
            ;
        }
        let prod: u128 = (with_change_weight as u128) * f3;
        if prod > u64::MAX as u128 {
            return Ok(None);
        }
        let want_fees: u64 = (prod / 4) as u64;
        if fees >= want_fees && fees - want_fees > crate::types::DUST_LIMIT
            + crate::types::CPFP_OVERHEAD {
            Ok(Some(fees - want_fees - crate::types::CPFP_OVERHEAD))
        } else {
            Ok(None)
        }
    }

    /// `updatespendtx`: store or refresh a manager's Spend draft; every
    /// referenced unvault must belong to an `Active` vault.
    pub fn updatespendtx(
        &self,
        store: &mut Store,
        cfg: &Config,
        spend_txid: u64,
        blob: u64,
        unvault_txids: Vec<u64>,
    ) -> (r: Result<(), RpcError>)
        requires
            old(store).wf(),
        ensures
            final(store).wf(),
            r is Err ==> *final(store) == *old(store),
            cfg.role == UserRole::Stakeholder ==> r == Err::<(), RpcError>(RpcError::NotManager),
            r is Ok <==> (cfg.role != UserRole::Stakeholder && forall|j: int|
                0 <= j < unvault_txids@.len() ==> old(store).has_vault_by_unvault(
                    #[trigger] unvault_txids@[j],
                ) && vault_by_unvault_at(*old(store), unvault_txids@[j]).status
                    == VaultStatus::Active),
            r is Ok ==> final(store).vaults@ == old(store).vaults@ && final(store).tip == old(
                store,
            ).tip && final(store).deposit_index == old(store).deposit_index,
            r is Ok && old(store).has_spend(spend_txid) ==> final(store).spends@.len() == old(
                store,
            ).spends@.len() && forall|k: int|
                0 <= k < old(store).spends@.len() ==> #[trigger] final(store).spends@[k] == (if old(
                    store,
                ).spends@[k].txid == spend_txid {
                    crate::store::spend_with_blob(old(store).spends@[k], blob)
                } else {
                    old(store).spends@[k]
                }),
            r is Ok && !old(store).has_spend(spend_txid) ==> final(store).spends@ == old(
                store,
            ).spends@.push(
                SpendRow {
                    txid: spend_txid,
                    blob,
                    unvault_txids,
                    state: SpendTxState::Stored,
                },
            ),
    {
        if matches!(cfg.role, UserRole::Stakeholder) {
            return Err(RpcError::NotManager);
        }
        let mut j: usize = 0;
        while j < unvault_txids.len()
            invariant
                store.wf(),
                cfg.role != UserRole::Stakeholder,
                *store == *old(store),
                j <= unvault_txids@.len(),
                forall|k: int|
                    0 <= k < j ==> store.has_vault_by_unvault(#[trigger] unvault_txids@[k])
                        && vault_by_unvault_at(*store, unvault_txids@[k]).status
                        == VaultStatus::Active,
            decreases unvault_txids@.len() - j,
        {
            let u = unvault_txids[j];
            let i = match store.find_by_unvault(u) {
                Some(i) => i,
                None => {
                    return Err(RpcError::UnknownUnvault(u));
                },
            };
            proof {
                lemma_vault_by_unvault_at(*store, u, i as int);
            }
            if !matches!(store.vaults[i].status, VaultStatus::Active) {
                return Err(RpcError::InvalidStatus(store.vaults[i].status));
            }
            j = j + 1;
        }
        if store.find_spend(spend_txid).is_some() {
            store.update_spend(spend_txid, blob);
        } else {
            store.insert_spend(spend_txid, blob, unvault_txids);
        }
        Ok(())
    }

    /// `delspendtx`: drop a manager's Spend draft; deleting an unknown
    /// draft is not an error.
    pub fn delspendtx(&self, store: &mut Store, cfg: &Config, spend_txid: u64) -> (r: Result<
        (),
        RpcError,
    >)
        requires
            old(store).wf(),
        ensures
            final(store).wf(),
            cfg.role == UserRole::Stakeholder ==> r == Err::<(), RpcError>(RpcError::NotManager)
                && *final(store) == *old(store),
            cfg.role != UserRole::Stakeholder ==> r is Ok && !final(store).has_spend(spend_txid)
                && final(store).vaults@ == old(store).vaults@ && final(store).tip == old(
                store,
            ).tip && final(store).deposit_index == old(store).deposit_index,
    {
        if matches!(cfg.role, UserRole::Stakeholder) {
            return Err(RpcError::NotManager);
        }
        store.delete_spend(spend_txid);
        Ok(())
    }

    /// One Spend draft as `listspendtxs` reports it.
    pub fn listspendtxs(&self, store: &Store, cfg: &Config) -> (r: Result<
        Vec<(u64, u64, SpendTxState)>,
        RpcError,
    >)
        ensures
            cfg.role == UserRole::Stakeholder ==> r == Err::<
                Vec<(u64, u64, SpendTxState)>,
                RpcError,
            >(RpcError::NotManager),
            cfg.role != UserRole::Stakeholder ==> (r matches Ok(list) && list@.len()
                == store.spends@.len() && forall|j: int|
                0 <= j < store.spends@.len() ==> #[trigger] list@[j] == (
                store.spends@[j].txid,
                store.spends@[j].blob,
                store.spends@[j].state,
            )),
    {
        if matches!(cfg.role, UserRole::Stakeholder) {
            return Err(RpcError::NotManager);
        }
        let mut list: Vec<(u64, u64, SpendTxState)> = Vec::new();
        let mut j: usize = 0;
        while j < store.spends.len()
            invariant
                j <= store.spends@.len(),
                list@.len() == j,
                forall|k: int|
                    0 <= k < j ==> #[trigger] list@[k] == (
                    store.spends@[k].txid,
                    store.spends@[k].blob,
                    store.spends@[k].state,
                ),
            decreases store.spends@.len() - j,
        {
            list.push((store.spends[j].txid, store.spends[j].blob, store.spends[j].state));
            j = j + 1;
        }
        Ok(list)
    }

    /// `listpresignedtransactions`: the stored presigned chain of each
    /// requested vault (of every vault when no list is given); an entry
    /// field is `None` while the chain (or the emergency pair) is not
    /// stored.
    #[verifier::loop_isolation(false)]
    pub fn listpresignedtransactions(
        &self,
        store: &Store,
        outpoints: Option<&Vec<TxRef>>,
    ) -> (r: Result<Vec<PresignedListEntry>, RpcError>)
        requires
            store.wf(),
        ensures
            match outpoints {
                Some(os) => {
                    &&& ((forall|j: int| 0 <= j < os@.len() ==> store.has_vault(#[trigger] os@[j]))
                        ==> r is Ok)
                    &&& (r is Err ==> exists|j: int|
                        0 <= j < os@.len() && !store.has_vault(#[trigger] os@[j]) && r == Err::<
                            Vec<PresignedListEntry>,
                            RpcError,
                        >(RpcError::UnknownOutpoint(os@[j])))
                    &&& (r matches Ok(list) ==> list@.len() == os@.len() && forall|j: int|
                        0 <= j < os@.len() ==> #[trigger] list@[j] == spec_presigned_entry(
                            vault_at(*store, os@[j]),
                        ))
                },
                None => r matches Ok(list) && list@.len() == store.vaults@.len() && forall|j: int|
                    0 <= j < store.vaults@.len() ==> #[trigger] list@[j] == spec_presigned_entry(
                        store.vaults@[j],
                    ),
            },
    {
        let mut list: Vec<PresignedListEntry> = Vec::new();
        match outpoints {
            Some(os) => {
                let mut j: usize = 0;
                while j < os.len()
                    invariant
                        store.wf(),
                        j <= os@.len(),
                        list@.len() == j,
                        forall|k: int|
                            0 <= k < j ==> store.has_vault(#[trigger] os@[k]),
                        forall|k: int|
                            0 <= k < j ==> #[trigger] list@[k] == spec_presigned_entry(
                                vault_at(*store, os@[k]),
                            ),
                    decreases os@.len() - j,
                {
                    let op = os[j];
                    let i = match store.find_by_deposit(op) {
                        Some(i) => i,
                        None => {
                            proof {
                                assert(os@[j as int] == op);
                                assert(!store.has_vault(os@[j as int]));
                            }
                            return Err(RpcError::UnknownOutpoint(op));
                        },
                    };
                    proof {
                        lemma_vault_at(*store, op, i as int);
                    }
                    list.push(presigned_entry_of(&store.vaults[i]));
                    j = j + 1;
                }
                Ok(list)
            },
            None => {
                let mut j: usize = 0;
                while j < store.vaults.len()
                    invariant
                        j <= store.vaults@.len(),
                        list@.len() == j,
                        forall|k: int|
                            0 <= k < j ==> #[trigger] list@[k] == spec_presigned_entry(
                                store.vaults@[k],
                            ),
                    decreases store.vaults@.len() - j,
                {
                    list.push(presigned_entry_of(&store.vaults[j]));
                    j = j + 1;
                }
                Ok(list)
            },
        }
    }

    /// The check half of `setspendtx`: the draft must exist and every
    /// referenced unvault must still belong to a known vault; hands back
    /// what the shell needs to verify signatures and announce the Spend.
    pub fn setspendtx_check(&self, store: &Store, cfg: &Config, spend_txid: u64) -> (r: Result<
        (u64, Vec<u64>, Vec<TxRef>),
        RpcError,
    >)
        requires
            store.wf(),
        ensures
            cfg.role == UserRole::Stakeholder ==> r == Err::<(u64, Vec<u64>, Vec<TxRef>), RpcError>(
                RpcError::NotManager,
            ),
            cfg.role != UserRole::Stakeholder && !store.has_spend(spend_txid) ==> r == Err::<
                (u64, Vec<u64>, Vec<TxRef>),
                RpcError,
            >(RpcError::UnknownSpend(spend_txid)),
            r is Ok <==> (cfg.role != UserRole::Stakeholder && store.has_spend(spend_txid)
                && forall|j: int|
                0 <= j < spend_at(*store, spend_txid).unvault_txids@.len()
                    ==> store.has_vault_by_unvault(
                    #[trigger] spend_at(*store, spend_txid).unvault_txids@[j],
                )),
            r matches Ok(payload) ==> {
                let row = spend_at(*store, spend_txid);
                &&& payload.0 == row.blob
                &&& payload.1@ == row.unvault_txids@
                &&& payload.2@.len() == row.unvault_txids@.len()
                &&& forall|j: int|
                    0 <= j < row.unvault_txids@.len() ==> #[trigger] payload.2@[j]
                        == vault_by_unvault_at(*store, row.unvault_txids@[j]).deposit_outpoint
            },
    {
        if matches!(cfg.role, UserRole::Stakeholder) {
            return Err(RpcError::NotManager);
        }
        let si = match store.find_spend(spend_txid) {
            Some(i) => i,
            None => {
                return Err(RpcError::UnknownSpend(spend_txid));
            },
        };
        proof {
            lemma_spend_at(*store, spend_txid, si as int);
        }
        let n = store.spends[si].unvault_txids.len();
        let mut deposit_outpoints: Vec<TxRef> = Vec::new();
        let mut utxids: Vec<u64> = Vec::new();
        let mut j: usize = 0;
        while j < n
            invariant
                store.wf(),
                cfg.role != UserRole::Stakeholder,
                store.has_spend(spend_txid),
                si < store.spends@.len(),
                spend_at(*store, spend_txid) == store.spends@[si as int],
                n == store.spends@[si as int].unvault_txids@.len(),
                j <= n,
                utxids@ == store.spends@[si as int].unvault_txids@.take(j as int),
                deposit_outpoints@.len() == j,
                forall|k: int|
                    0 <= k < j ==> store.has_vault_by_unvault(
                        #[trigger] store.spends@[si as int].unvault_txids@[k],
                    ),
                forall|k: int|
                    0 <= k < j ==> #[trigger] deposit_outpoints@[k] == vault_by_unvault_at(
                        *store,
                        store.spends@[si as int].unvault_txids@[k],
                    ).deposit_outpoint,
            decreases n - j,
        {
            let u = store.spends[si].unvault_txids[j];
            let i = match store.find_by_unvault(u) {
                Some(i) => i,
                None => {
                    return Err(RpcError::AlreadySpentVault);
                },
            };
            proof {
                lemma_vault_by_unvault_at(*store, u, i as int);
                assert(store.spends@[si as int].unvault_txids@.take(j + 1)
                    =~= store.spends@[si as int].unvault_txids@.take(j as int).push(
                    store.spends@[si as int].unvault_txids@[j as int],
                ));
            }
            deposit_outpoints.push(store.vaults[i].deposit_outpoint);
            utxids.push(u);
            j = j + 1;
        }
        proof {
            assert(store.spends@[si as int].unvault_txids@.take(n as int)
                =~= store.spends@[si as int].unvault_txids@);
        }
        Ok((store.spends[si].blob, utxids, deposit_outpoints))
    }

    /// The commit half of `setspendtx`: after the cosigners signed and
    /// the Spend was announced, store the completed PSBT and hand back
    /// the unvault transactions the shell must broadcast.
    pub fn setspendtx_commit(&self, store: &mut Store, spend_txid: u64, blob: u64) -> (r: Result<
        Vec<u64>,
        RpcError,
    >)
        requires
            old(store).wf(),
        ensures
            final(store).wf(),
            !old(store).has_spend(spend_txid) ==> r == Err::<Vec<u64>, RpcError>(
                RpcError::UnknownSpend(spend_txid),
            ) && *final(store) == *old(store),
            old(store).has_spend(spend_txid) ==> {
                &&& r matches Ok(us) && us@ == spend_at(*old(store), spend_txid).unvault_txids@
                &&& Store::frame_spend(*old(store), *final(store), spend_txid)
                &&& forall|k: int|
                    0 <= k < old(store).spends@.len() && (#[trigger] old(store).spends@[k]).txid
                        == spend_txid ==> final(store).spends@[k]
                        == crate::store::spend_with_blob(old(store).spends@[k], blob)
            },
    {
        let si = match store.find_spend(spend_txid) {
            Some(i) => i,
            None => {
                return Err(RpcError::UnknownSpend(spend_txid));
            },
        };
        proof {
            lemma_spend_at(*store, spend_txid, si as int);
        }
        let us = copy_u64_vec(&store.spends[si].unvault_txids);
        store.update_spend(spend_txid, blob);
        Ok(us)
    }

    /// The last step of `setspendtx`: after the unvaults went out, clear
    /// the Spend for broadcast at the tip events to come; a failed
    /// unvault broadcast is reported and leaves the draft as it was.
    pub fn setspendtx_finalize(&self, store: &mut Store, spend_txid: u64, broadcast_ok: bool) -> (r:
        Result<(), RpcError>)
        requires
            old(store).wf(),
        ensures
            final(store).wf(),
            !broadcast_ok ==> r == Err::<(), RpcError>(RpcError::BroadcastFailure) && *final(store)
                == *old(store),
            broadcast_ok ==> r is Ok && Store::frame_spend(*old(store), *final(store), spend_txid)
                && forall|k: int|
                0 <= k < old(store).spends@.len() && (#[trigger] old(store).spends@[k]).txid
                    == spend_txid ==> final(store).spends@[k] == crate::store::spend_with_state(
                    old(store).spends@[k],
                    SpendTxState::Broadcastable,
                ),
    {
        if !broadcast_ok {
            return Err(RpcError::BroadcastFailure);
        }
        store.mark_broadcastable_spend(spend_txid);
        Ok(())
    }
}

} // verus!
