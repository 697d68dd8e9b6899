//! The in-memory UTXO caches: the poller's record of which deposit and
//! unvault outputs it expects to see unspent, with a confirmation flag.

use vstd::prelude::*;

use crate::types::{TxRef, UtxoInfo};

verus! {

/// One cached output.
#[derive(Clone, Copy, PartialEq, Eq, Structural, Debug)]
pub struct CacheEntry {
    pub outpoint: TxRef,
    pub info: UtxoInfo,
}

/// No two entries share an outpoint.
pub open spec fn cache_keys_unique(es: Seq<CacheEntry>) -> bool {
    forall|i: int, j: int|
        0 <= i < es.len() && 0 <= j < es.len() && i != j ==> (#[trigger] es[i]).outpoint
            != (#[trigger] es[j]).outpoint
}

/// Some entry tracks `op`.
pub open spec fn seq_has(es: Seq<CacheEntry>, op: TxRef) -> bool {
    exists|i: int| 0 <= i < es.len() && (#[trigger] es[i]).outpoint == op
}

/// Some entry tracks `op` as confirmed.
pub open spec fn seq_confirmed(es: Seq<CacheEntry>, op: TxRef) -> bool {
    exists|i: int|
        0 <= i < es.len() && (#[trigger] es[i]).outpoint == op && es[i].info.is_confirmed
}

/// Overwriting the entry at `i` in place changes no membership and only
/// `es[i].outpoint`'s flag.
proof fn lemma_cache_update(pre: Seq<CacheEntry>, post: Seq<CacheEntry>, i: int, e: CacheEntry)
    requires
        cache_keys_unique(pre),
        0 <= i < pre.len(),
        pre[i].outpoint == e.outpoint,
        post == pre.update(i, e),
    ensures
        cache_keys_unique(post),
        forall|q: TxRef| #[trigger] seq_has(post, q) <==> seq_has(pre, q),
        forall|q: TxRef|
            q != e.outpoint ==> (#[trigger] seq_confirmed(post, q) <==> seq_confirmed(pre, q)),
        seq_confirmed(post, e.outpoint) == e.info.is_confirmed,
{
    assert forall|q: TxRef| #[trigger] seq_has(post, q) <==> seq_has(pre, q) by {
        if seq_has(post, q) {
            let w = choose|k: int| 0 <= k < post.len() && (#[trigger] post[k]).outpoint == q;
            assert(pre[if w == i {
                i
            } else {
                w
            }].outpoint == q);
        }
        if seq_has(pre, q) {
            let w = choose|k: int| 0 <= k < pre.len() && (#[trigger] pre[k]).outpoint == q;
            if w == i {
                assert(post[i].outpoint == q);
            } else {
                assert(post[w].outpoint == q);
            }
        }
    }
    assert forall|q: TxRef| q != e.outpoint implies (#[trigger] seq_confirmed(post, q)
        <==> seq_confirmed(pre, q)) by {
        if seq_confirmed(post, q) {
            let w = choose|k: int|
                0 <= k < post.len() && (#[trigger] post[k]).outpoint == q
                    && post[k].info.is_confirmed;
            assert(pre[w].outpoint == q && pre[w].info.is_confirmed);
        }
        if seq_confirmed(pre, q) {
            let w = choose|k: int|
                0 <= k < pre.len() && (#[trigger] pre[k]).outpoint == q && pre[k].info.is_confirmed;
            assert(post[w].outpoint == q && post[w].info.is_confirmed);
        }
    }
    if e.info.is_confirmed {
        assert(post[i].outpoint == e.outpoint && post[i].info.is_confirmed);
    } else {
        assert forall|k: int|
            0 <= k < post.len() && (#[trigger] post[k]).outpoint == e.outpoint implies !post[k].info.is_confirmed by {
            if k != i {
                assert(pre[k].outpoint == e.outpoint);
                assert(pre[i].outpoint == e.outpoint);
            }
        }
    }
}

/// Appending a fresh entry adds exactly its outpoint.
proof fn lemma_cache_push(pre: Seq<CacheEntry>, post: Seq<CacheEntry>, e: CacheEntry)
    requires
        cache_keys_unique(pre),
        !seq_has(pre, e.outpoint),
        post == pre.push(e),
    ensures
        cache_keys_unique(post),
        forall|q: TxRef| #[trigger] seq_has(post, q) <==> seq_has(pre, q) || q == e.outpoint,
        forall|q: TxRef|
            q != e.outpoint ==> (#[trigger] seq_confirmed(post, q) <==> seq_confirmed(pre, q)),
        seq_confirmed(post, e.outpoint) == e.info.is_confirmed,
{
    assert forall|i: int, j: int|
        0 <= i < post.len() && 0 <= j < post.len() && i != j implies (#[trigger] post[i]).outpoint
        != (#[trigger] post[j]).outpoint by {
        if i < pre.len() && j < pre.len() {
            assert(pre[i].outpoint != pre[j].outpoint);
        } else if i < pre.len() {
            assert(pre[i].outpoint == post[i].outpoint);
        } else if j < pre.len() {
            assert(pre[j].outpoint == post[j].outpoint);
        }
    }
    assert forall|q: TxRef| #[trigger] seq_has(post, q) <==> seq_has(pre, q) || q
        == e.outpoint by {
        if seq_has(post, q) {
            let w = choose|k: int| 0 <= k < post.len() && (#[trigger] post[k]).outpoint == q;
            if w < pre.len() {
                assert(pre[w].outpoint == q);
            }
        }
        if seq_has(pre, q) {
            let w = choose|k: int| 0 <= k < pre.len() && (#[trigger] pre[k]).outpoint == q;
            assert(post[w].outpoint == q);
        }
        if q == e.outpoint {
            assert(post[pre.len() as int].outpoint == q);
        }
    }
    assert forall|q: TxRef| q != e.outpoint implies (#[trigger] seq_confirmed(post, q)
        <==> seq_confirmed(pre, q)) by {
        if seq_confirmed(post, q) {
            let w = choose|k: int|
                0 <= k < post.len() && (#[trigger] post[k]).outpoint == q
                    && post[k].info.is_confirmed;
            assert(pre[w].outpoint == q && pre[w].info.is_confirmed);
        }
        if seq_confirmed(pre, q) {
            let w = choose|k: int|
                0 <= k < pre.len() && (#[trigger] pre[k]).outpoint == q && pre[k].info.is_confirmed;
            assert(post[w].outpoint == q && post[w].info.is_confirmed);
        }
    }
    if e.info.is_confirmed {
        assert(post[pre.len() as int].outpoint == e.outpoint && post[pre.len() as int].info.is_confirmed);
    } else {
        assert forall|k: int|
            0 <= k < post.len() && (#[trigger] post[k]).outpoint == e.outpoint implies !post[k].info.is_confirmed by {
            if k < pre.len() {
                assert(pre[k].outpoint == e.outpoint);
            }
        }
    }
}

/// Removing the entry at `i` drops exactly its outpoint.
proof fn lemma_cache_remove(pre: Seq<CacheEntry>, post: Seq<CacheEntry>, i: int)
    requires
        cache_keys_unique(pre),
        0 <= i < pre.len(),
        post == pre.remove(i),
    ensures
        cache_keys_unique(post),
        forall|q: TxRef| #[trigger] seq_has(post, q) <==> seq_has(pre, q) && q != pre[i].outpoint,
        forall|q: TxRef|
            q != pre[i].outpoint ==> (#[trigger] seq_confirmed(post, q) <==> seq_confirmed(
                pre,
                q,
            )),
        !seq_confirmed(post, pre[i].outpoint),
{
    let op = pre[i].outpoint;
    assert forall|a: int, b: int|
        0 <= a < post.len() && 0 <= b < post.len() && a != b implies (#[trigger] post[a]).outpoint
        != (#[trigger] post[b]).outpoint by {
        let a2: int = if a < i {
            a
        } else {
            a + 1
        };
        let b2: int = if b < i {
            b
        } else {
            b + 1
        };
        assert(post[a].outpoint == pre[a2].outpoint);
        assert(post[b].outpoint == pre[b2].outpoint);
    }
    assert forall|q: TxRef| #[trigger] seq_has(post, q) <==> seq_has(pre, q) && q != op by {
        if seq_has(post, q) {
            let w = choose|k: int| 0 <= k < post.len() && (#[trigger] post[k]).outpoint == q;
            let w2: int = if w < i {
                w
            } else {
                w + 1
            };
            assert(pre[w2].outpoint == q);
            if q == op {
                assert(pre[i].outpoint == op);
                assert(w2 != i);
            }
        }
        if seq_has(pre, q) && q != op {
            let w = choose|k: int| 0 <= k < pre.len() && (#[trigger] pre[k]).outpoint == q;
            assert(w != i);
            if w < i {
                assert(post[w].outpoint == q);
            } else {
                assert(post[w - 1].outpoint == q);
            }
        }
    }
    assert forall|q: TxRef| q != op implies (#[trigger] seq_confirmed(post, q) <==> seq_confirmed(
        pre,
        q,
    )) by {
        if seq_confirmed(post, q) {
            let w = choose|k: int|
                0 <= k < post.len() && (#[trigger] post[k]).outpoint == q
                    && post[k].info.is_confirmed;
            let w2: int = if w < i {
                w
            } else {
                w + 1
            };
            assert(pre[w2].outpoint == q && pre[w2].info.is_confirmed);
        }
        if seq_confirmed(pre, q) {
            let w = choose|k: int|
                0 <= k < pre.len() && (#[trigger] pre[k]).outpoint == q && pre[k].info.is_confirmed;
            assert(w != i);
            if w < i {
                assert(post[w].outpoint == q && post[w].info.is_confirmed);
            } else {
                assert(post[w - 1].outpoint == q && post[w - 1].info.is_confirmed);
            }
        }
    }
    assert forall|k: int|
        0 <= k < post.len() && (#[trigger] post[k]).outpoint == op implies !post[k].info.is_confirmed by {
        let k2: int = if k < i {
            k
        } else {
            k + 1
        };
        assert(pre[k2].outpoint == op);
        assert(pre[i].outpoint == op);
        assert(k2 == i);
        assert(false);
    }
}

/// A set of tracked outputs, keyed by outpoint.
#[derive(Debug)]
pub struct UtxoCache {
    pub entries: Vec<CacheEntry>,
}

impl UtxoCache {
    pub open spec fn wf(self) -> bool {
        cache_keys_unique(self.entries@)
    }

    /// The cache tracks `op`.
    pub open spec fn has(self, op: TxRef) -> bool {
        seq_has(self.entries@, op)
    }

    /// The cache tracks `op` as confirmed.
    pub open spec fn confirmed(self, op: TxRef) -> bool {
        seq_confirmed(self.entries@, op)
    }

    /// An empty cache.
    pub fn new() -> (r: UtxoCache)
        ensures
            r.wf(),
            r.entries@.len() == 0,
            forall|q: TxRef| !(#[trigger] r.has(q)),
    {
        UtxoCache { entries: Vec::new() }
    }

    /// Index of the entry for `op`, if any.
    pub fn find(&self, op: TxRef) -> (r: Option<usize>)
        ensures
            match r {
                Some(i) => i < self.entries@.len() && self.entries@[i as int].outpoint == op,
                None => !self.has(op),
            },
    {
        let mut i: usize = 0;
        while i < self.entries.len()
            invariant
                i <= self.entries@.len(),
                forall|j: int| 0 <= j < i ==> (#[trigger] self.entries@[j]).outpoint != op,
            decreases self.entries@.len() - i,
        {
            if self.entries[i].outpoint == op {
                return Some(i);
            }
            i = i + 1;
        }
        None
    }

    /// The cache tracks `op` (executable form).
    pub fn contains(&self, op: TxRef) -> (r: bool)
        ensures
            r == self.has(op),
    {
        self.find(op).is_some()
    }

    /// Insert or overwrite the entry for `op`.
    pub fn upsert(&mut self, op: TxRef, info: UtxoInfo)
        requires
            old(self).wf(),
        ensures
            final(self).wf(),
            forall|q: TxRef| #[trigger] final(self).has(q) <==> old(self).has(q) || q == op,
            forall|q: TxRef|
                q != op ==> (#[trigger] final(self).confirmed(q) <==> old(self).confirmed(q)),
            final(self).confirmed(op) == info.is_confirmed,
    {
        match self.find(op) {
            Some(i) => {
                let e = &mut self.entries[i];
                e.info = info;
                proof {
                    lemma_cache_update(
                        old(self).entries@,
                        self.entries@,
                        i as int,
                        CacheEntry { outpoint: old(self).entries@[i as int].outpoint, info },
                    );
                }
            },
            None => {
                self.entries.push(CacheEntry { outpoint: op, info });
                proof {
                    lemma_cache_push(
                        old(self).entries@,
                        self.entries@,
                        CacheEntry { outpoint: op, info },
                    );
                }
            },
        }
    }

    /// Drop the entry for `op`, if any.
    pub fn remove(&mut self, op: TxRef) -> (r: bool)
        requires
            old(self).wf(),
        ensures
            final(self).wf(),
            forall|q: TxRef| #[trigger] final(self).has(q) <==> old(self).has(q) && q != op,
            forall|q: TxRef|
                q != op ==> (#[trigger] final(self).confirmed(q) <==> old(self).confirmed(q)),
            !final(self).confirmed(op),
            r == old(self).has(op),
    {
        match self.find(op) {
            Some(i) => {
                self.entries.remove(i);
                proof {
                    lemma_cache_remove(old(self).entries@, self.entries@, i as int);
                }
                true
            },
            None => {
                proof {
                    if self.confirmed(op) {
                        let w = choose|k: int|
                            0 <= k < self.entries@.len() && (#[trigger] self.entries@[k]).outpoint
                                == op && self.entries@[k].info.is_confirmed;
                        assert(self.has(op));
                    }
                }
                false
            },
        }
    }

    /// Flip the confirmation flag of the entry for `op`, if any.
    pub fn set_confirmed(&mut self, op: TxRef, flag: bool) -> (r: bool)
        requires
            old(self).wf(),
        ensures
            final(self).wf(),
            forall|q: TxRef| #[trigger] final(self).has(q) <==> old(self).has(q),
            forall|q: TxRef|
                q != op ==> (#[trigger] final(self).confirmed(q) <==> old(self).confirmed(q)),
            old(self).has(op) ==> final(self).confirmed(op) == flag,
            !old(self).has(op) ==> final(self).confirmed(op) == old(self).confirmed(op),
            r == old(self).has(op),
    {
        match self.find(op) {
            Some(i) => {
                let mut info = self.entries[i].info;
                info.is_confirmed = flag;
                self.upsert(op, info);
                true
            },
            None => false,
        }
    }
}

} // verus!
