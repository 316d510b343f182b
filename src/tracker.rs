//! The settlement tracker: the unsettled queue of broadcast blob
//! transactions, updated block by block, and the choice of the transaction to
//! prove next.
use vstd::prelude::*;
use crate::blob::{Blob, blob_models, copy_blobs};

verus! {

/// A blob transaction seen in a block and not yet settled.
pub struct UnsettledTx {
    pub hash: String,
    pub identity: String,
    pub blobs: Vec<Blob>,
}

/// What a new block reports: the blob transactions it holds and the hashes
/// of the transactions it settled.
pub struct Block {
    pub height: u64,
    pub txs: Vec<UnsettledTx>,
    pub successful_txs: Vec<String>,
    pub timed_out_txs: Vec<String>,
    pub failed_txs: Vec<String>,
}

/// The hashes of a queue, in queue order.
pub open spec fn hashes(q: Seq<UnsettledTx>) -> Seq<Seq<char>> {
    q.map_values(|t: UnsettledTx| t.hash@)
}

/// The models of a list of hashes.
pub open spec fn hash_models(v: Seq<String>) -> Seq<Seq<char>> {
    v.map_values(|h: String| h@)
}

/// No hash occurs twice in `q`.
pub open spec fn unique_hashes(q: Seq<UnsettledTx>) -> bool {
    forall|i: int, j: int| 0 <= i < j < q.len() ==> #[trigger] q[i].hash@ != #[trigger] q[j].hash@
}

/// `q` after `t` is observed, where `settled` holds the hashes already
/// settled: appended, unless its hash is queued or settled already.
pub open spec fn enqueue(q: Seq<UnsettledTx>, settled: Seq<Seq<char>>, t: UnsettledTx) -> Seq<UnsettledTx> {
    if hashes(q).contains(t.hash@) || settled.contains(t.hash@) {
        q
    } else {
        q.push(t)
    }
}

/// `q` after the transactions `ts` are observed in order.
pub open spec fn enqueue_all(
    q: Seq<UnsettledTx>,
    settled: Seq<Seq<char>>,
    ts: Seq<UnsettledTx>,
) -> Seq<UnsettledTx>
    decreases ts.len(),
{
    if ts.len() == 0 {
        q
    } else {
        enqueue(enqueue_all(q, settled, ts.drop_last()), settled, ts.last())
    }
}

/// No entry of `q` has a hash of `settled`.
pub open spec fn none_settled(q: Seq<UnsettledTx>, settled: Seq<Seq<char>>) -> bool {
    forall|i: int| 0 <= i < q.len() ==> !settled.contains(#[trigger] q[i].hash@)
}

/// The position of the entry of `q` whose hash is `h`.
pub open spec fn position_of(q: Seq<UnsettledTx>, h: Seq<char>) -> int {
    choose|i: int| 0 <= i < q.len() && q[i].hash@ == h
}

/// `q` after the transaction `h` settles: its entry is removed wherever it
/// stands; a hash that is not queued changes nothing.
pub open spec fn settle(q: Seq<UnsettledTx>, h: Seq<char>) -> Seq<UnsettledTx> {
    if hashes(q).contains(h) {
        q.remove(position_of(q, h))
    } else {
        q
    }
}

/// Settling `h` frees the head of `q`.
pub open spec fn frees_head(q: Seq<UnsettledTx>, h: Seq<char>) -> bool {
    q.len() > 0 && q[0].hash@ == h
}

/// `q` after the hashes `hs` settle in order.
pub open spec fn settle_all(q: Seq<UnsettledTx>, hs: Seq<Seq<char>>) -> Seq<UnsettledTx>
    decreases hs.len(),
{
    if hs.len() == 0 {
        q
    } else {
        settle(settle_all(q, hs.drop_last()), hs.last())
    }
}

/// Some settlement of `hs`, applied in order to `q`, frees the head.
pub open spec fn any_frees_head(q: Seq<UnsettledTx>, hs: Seq<Seq<char>>) -> bool
    decreases hs.len(),
{
    if hs.len() == 0 {
        false
    } else {
        any_frees_head(q, hs.drop_last()) || frees_head(settle_all(q, hs.drop_last()), hs.last())
    }
}

/// The hashes a block settles: successful, then timed out, then failed.
pub open spec fn settled_hashes(b: Block) -> Seq<Seq<char>> {
    hash_models(b.successful_txs@) + hash_models(b.timed_out_txs@) + hash_models(b.failed_txs@)
}

/// Settling `a + b` is settling `a`, then `b`; the head is freed during
/// `a + b` when it is freed during either part.
proof fn lemma_settle_concat(q: Seq<UnsettledTx>, a: Seq<Seq<char>>, b: Seq<Seq<char>>)
    ensures
        settle_all(q, a + b) == settle_all(settle_all(q, a), b),
        any_frees_head(q, a + b) == (any_frees_head(q, a) || any_frees_head(settle_all(q, a), b)),
    decreases b.len(),
{
    if b.len() == 0 {
        assert(a + b =~= a);
    } else {
        lemma_settle_concat(q, a, b.drop_last());
        assert((a + b).drop_last() =~= a + b.drop_last());
        assert((a + b).last() == b.last());
    }
}

/// Where the hash of `q`'s entry at `i` is `h`, that is the entry that
/// settling `h` removes.
proof fn lemma_position_unique(q: Seq<UnsettledTx>, h: Seq<char>, i: int)
    requires
        unique_hashes(q),
        0 <= i < q.len(),
        q[i].hash@ == h,
    ensures
        hashes(q).contains(h),
        position_of(q, h) == i,
{
    assert(hashes(q)[i] == h);
    let p = position_of(q, h);
    if p != i {
        if p < i {
            assert(q[p].hash@ != q[i].hash@);
        } else {
            assert(q[i].hash@ != q[p].hash@);
        }
    }
}

/// Settling `h` leaves no queued entry whose hash is settled, `h` included.
proof fn lemma_settle_none_settled(q: Seq<UnsettledTx>, settled: Seq<Seq<char>>, h: Seq<char>)
    requires
        unique_hashes(q),
        none_settled(q, settled),
    ensures
        none_settled(settle(q, h), settled.push(h)),
{
    let r = settle(q, h);
    if hashes(q).contains(h) {
        let p = position_of(q, h);
        assert forall|i: int| 0 <= i < r.len() implies !settled.push(h).contains(#[trigger] r[i].hash@) by {
            let a = if i < p { i } else { i + 1 };
            assert(r[i] == q[a]);
            if a < p {
                assert(q[a].hash@ != q[p].hash@);
            } else {
                assert(q[p].hash@ != q[a].hash@);
            }
            assert(!settled.contains(q[a].hash@));
            if settled.push(h).contains(q[a].hash@) {
                let w = choose|w: int| 0 <= w < settled.len() + 1 && settled.push(h)[w] == q[a].hash@;
                if w < settled.len() {
                    assert(settled[w] == q[a].hash@);
                }
            }
        }
    } else {
        assert forall|i: int| 0 <= i < r.len() implies !settled.push(h).contains(#[trigger] r[i].hash@) by {
            assert(hashes(q)[i] == q[i].hash@);
            assert(!settled.contains(q[i].hash@));
            if settled.push(h).contains(q[i].hash@) {
                let w = choose|w: int| 0 <= w < settled.len() + 1 && settled.push(h)[w] == q[i].hash@;
                if w < settled.len() {
                    assert(settled[w] == q[i].hash@);
                }
            }
        }
    }
}

/// Removing an entry keeps the hashes unique.
proof fn lemma_remove_unique(q: Seq<UnsettledTx>, p: int)
    requires
        unique_hashes(q),
        0 <= p < q.len(),
    ensures
        unique_hashes(q.remove(p)),
{
    let r = q.remove(p);
    assert forall|i: int, j: int| 0 <= i < j < r.len() implies #[trigger] r[i].hash@ != #[trigger] r[j].hash@ by {
        let a = if i < p { i } else { i + 1 };
        let b = if j < p { j } else { j + 1 };
        assert(q[a].hash@ != q[b].hash@);
    }
}

/// `a` and `b` hold the same transaction.
pub open spec fn same_tx(a: UnsettledTx, b: UnsettledTx) -> bool {
    &&& a.hash@ == b.hash@
    &&& a.identity@ == b.identity@
    &&& blob_models(a.blobs@) == blob_models(b.blobs@)
}

/// A copy of a transaction.
pub fn copy_tx(t: &UnsettledTx) -> (r: UnsettledTx)
    ensures
        same_tx(r, *t),
{
    UnsettledTx { hash: t.hash.clone(), identity: t.identity.clone(), blobs: copy_blobs(&t.blobs) }
}

/// Tracks broadcast blob transactions from the block they appear in until
/// a block settles them, and picks the oldest one for proving.
pub struct ProverModule {
    unsettled_txs: Vec<UnsettledTx>,
    settled_txs: Vec<String>,
    start_height: u64,
}

impl ProverModule {
    /// The unsettled queue, oldest first.
    pub closed spec fn queue(&self) -> Seq<UnsettledTx> {
        self.unsettled_txs@
    }

    /// Blocks at or below this height trigger no proving.
    pub closed spec fn start_height(&self) -> u64 {
        self.start_height
    }

    /// The hashes of every settlement reported so far, in report order.
    pub closed spec fn settled(&self) -> Seq<Seq<char>> {
        hash_models(self.settled_txs@)
    }

    pub closed spec fn wf(&self) -> bool {
        &&& unique_hashes(self.unsettled_txs@)
        &&& none_settled(self.unsettled_txs@, hash_models(self.settled_txs@))
    }

    /// A tracker with an empty queue that proves nothing for blocks at or
    /// below `start_height`.
    pub fn new(start_height: u64) -> (r: Self)
        ensures
            r.wf(),
            r.queue() == Seq::<UnsettledTx>::empty(),
            r.settled() == Seq::<Seq<char>>::empty(),
            r.start_height() == start_height,
    {
        let r = ProverModule { unsettled_txs: Vec::new(), settled_txs: Vec::new(), start_height };
        assert(r.settled() =~= Seq::<Seq<char>>::empty());
        r
    }

    /// Whether a settlement of `hash` was reported.
    fn was_settled(&self, hash: &String) -> (r: bool)
        ensures
            r == self.settled().contains(hash@),
    {
        let mut i: usize = 0;
        while i < self.settled_txs.len()
            invariant
                i <= self.settled_txs@.len(),
                forall|m: int| 0 <= m < i ==> #[trigger] self.settled_txs@[m]@ != hash@,
            decreases self.settled_txs.len() - i,
        {
            if self.settled_txs[i] == *hash {
                assert(self.settled()[i as int] == hash@);
                return true;
            }
            i = i + 1;
        }
        proof {
            if self.settled().contains(hash@) {
                let w = choose|w: int| 0 <= w < self.settled().len() && self.settled()[w] == hash@;
                assert(self.settled_txs@[w]@ == hash@);
            }
        }
        false
    }

    /// The unsettled queue, oldest first.
    pub fn unsettled(&self) -> (r: &Vec<UnsettledTx>)
        ensures
            r@ == self.queue(),
    {
        &self.unsettled_txs
    }

    /// The position of the entry whose hash is `hash`.
    fn find(&self, hash: &String) -> (r: Option<usize>)
        requires
            self.wf(),
        ensures
            r is Some <==> hashes(self.queue()).contains(hash@),
            r matches Some(p) ==> p < self.queue().len() && p == position_of(self.queue(), hash@),
    {
        let mut i: usize = 0;
        while i < self.unsettled_txs.len()
            invariant
                self.wf(),
                i <= self.unsettled_txs@.len(),
                forall|m: int| 0 <= m < i ==> #[trigger] self.unsettled_txs@[m].hash@ != hash@,
            decreases self.unsettled_txs.len() - i,
        {
            if self.unsettled_txs[i].hash == *hash {
                proof {
                    lemma_position_unique(self.unsettled_txs@, hash@, i as int);
                }
                return Some(i);
            }
            i = i + 1;
        }
        proof {
            if hashes(self.queue()).contains(hash@) {
                let w = choose|w: int| 0 <= w < hashes(self.queue()).len() && hashes(self.queue())[w] == hash@;
                assert(self.unsettled_txs@[w].hash@ == hash@);
            }
        }
        None
    }

    /// Queues a blob transaction seen in a block, unless its hash is queued
    /// already or was settled: a settled transaction never comes back.
    /// Whether it was queued is returned.
    pub fn handle_blob(&mut self, tx: UnsettledTx) -> (r: bool)
        requires
            old(self).wf(),
        ensures
            final(self).wf(),
            final(self).start_height() == old(self).start_height(),
            final(self).settled() == old(self).settled(),
            final(self).queue() == enqueue(old(self).queue(), old(self).settled(), tx),
            r == !(hashes(old(self).queue()).contains(tx.hash@) || old(self).settled().contains(
                tx.hash@,
            )),
    {
        if self.was_settled(&tx.hash) {
            return false;
        }
        match self.find(&tx.hash) {
            Some(_) => false,
            None => {
                let ghost q = self.unsettled_txs@;
                self.unsettled_txs.push(tx);
                proof {
                    assert forall|i: int, j: int| 0 <= i < j < self.unsettled_txs@.len() implies #[trigger] self.unsettled_txs@[i].hash@
                        != #[trigger] self.unsettled_txs@[j].hash@ by {
                        if j == q.len() {
                            assert(hashes(q)[i] == q[i].hash@);
                        } else {
                            assert(q[i].hash@ != q[j].hash@);
                        }
                    }
                }
                true
            },
        }
    }

    /// Settles the hashes of `hs` in order; whether one of them freed the
    /// head is returned.
    fn settle_each(&mut self, hs: &Vec<String>) -> (r: bool)
        requires
            old(self).wf(),
        ensures
            final(self).wf(),
            final(self).start_height() == old(self).start_height(),
            final(self).queue() == settle_all(old(self).queue(), hash_models(hs@)),
            final(self).settled() == old(self).settled() + hash_models(hs@),
            r == any_frees_head(old(self).queue(), hash_models(hs@)),
    {
        let mut freed = false;
        let mut i: usize = 0;
        while i < hs.len()
            invariant
                self.wf(),
                self.start_height == old(self).start_height,
                i <= hs@.len(),
                self.queue() == settle_all(old(self).queue(), hash_models(hs@).subrange(0, i as int)),
                self.settled() == old(self).settled() + hash_models(hs@).subrange(0, i as int),
                freed == any_frees_head(old(self).queue(), hash_models(hs@).subrange(0, i as int)),
            decreases hs.len() - i,
        {
            let ghost done = hash_models(hs@).subrange(0, i as int);
            let ghost more = hash_models(hs@).subrange(0, i + 1);
            assert(more.drop_last() =~= done);
            assert(more.last() == hs@[i as int]@);
            let pos = self.settle_tx(&hs[i]);
            freed = freed || pos == Some(0usize);
            assert(old(self).settled() + more =~= (old(self).settled() + done).push(hs@[i as int]@));
            i = i + 1;
        }
        assert(hash_models(hs@).subrange(0, i as int) =~= hash_models(hs@));
        freed
    }

    /// A copy of the oldest unsettled transaction, the one to prove next;
    /// `None` when the queue is empty.
    pub fn trigger_prove_first(&self) -> (r: Option<UnsettledTx>)
        ensures
            self.queue().len() == 0 ==> r is None,
            self.queue().len() > 0 ==> r is Some && same_tx(r->Some_0, self.queue()[0]),
    {
        if self.unsettled_txs.len() == 0 {
            None
        } else {
            Some(copy_tx(&self.unsettled_txs[0]))
        }
    }

    /// Applies a new block: queues its blob transactions, settles the
    /// successful, timed-out and failed hashes, and returns the head of the
    /// queue for proving where proving is triggered: the queue was empty
    /// before the block or a settlement freed the head, and the block is
    /// above the start height.
    pub fn handle_processed_block(&mut self, block: Block) -> (r: Option<UnsettledTx>)
        requires
            old(self).wf(),
        ensures
            final(self).wf(),
            final(self).start_height() == old(self).start_height(),
            final(self).queue() == settle_all(
                enqueue_all(old(self).queue(), old(self).settled(), block.txs@),
                settled_hashes(block),
            ),
            final(self).settled() == old(self).settled() + settled_hashes(block),
            ({
                let triggered = (old(self).queue().len() == 0 || any_frees_head(
                    enqueue_all(old(self).queue(), old(self).settled(), block.txs@),
                    settled_hashes(block),
                )) && block.height > old(self).start_height();
                if triggered && final(self).queue().len() > 0 {
                    r is Some && same_tx(r->Some_0, final(self).queue()[0])
                } else {
                    r is None
                }
            }),
    {
        let was_empty = self.unsettled_txs.len() == 0;
        let ghost q0 = self.unsettled_txs@;
        let ghost all_txs = block.txs@;
        let Block { height, txs, successful_txs, timed_out_txs, failed_txs } = block;
        let mut txs = txs;
        let n = txs.len();
        let mut i: usize = 0;
        while i < n
            invariant
                self.wf(),
                self.start_height == old(self).start_height,
                i <= n,
                n == all_txs.len(),
                txs@ == all_txs.subrange(i as int, n as int),
                self.settled() == old(self).settled(),
                self.queue() == enqueue_all(q0, old(self).settled(), all_txs.subrange(0, i as int)),
            decreases n - i,
        {
            let tx = txs.remove(0);
            assert(tx == all_txs[i as int]);
            assert(all_txs.subrange(0, i + 1).drop_last() =~= all_txs.subrange(0, i as int));
            let _ = self.handle_blob(tx);
            assert(txs@ =~= all_txs.subrange(i + 1, n as int));
            i = i + 1;
        }
        assert(all_txs.subrange(0, n as int) =~= all_txs);
        let ghost q1 = self.unsettled_txs@;
        let ghost s = hash_models(successful_txs@);
        let ghost t = hash_models(timed_out_txs@);
        let ghost f = hash_models(failed_txs@);
        let freed_s = self.settle_each(&successful_txs);
        let freed_t = self.settle_each(&timed_out_txs);
        let freed_f = self.settle_each(&failed_txs);
        proof {
            lemma_settle_concat(q1, s, t);
            lemma_settle_concat(q1, s + t, f);
            assert(old(self).settled() + s + t + f =~= old(self).settled() + (s + t + f));
        }
        if (was_empty || freed_s || freed_t || freed_f) && height > self.start_height {
            self.trigger_prove_first()
        } else {
            None
        }
    }

    /// Removes the transaction `hash` from the queue, wherever it stands,
    /// and returns the position it stood at; `None`, with the queue
    /// unchanged, where it is not queued. Either way `hash` is recorded as
    /// settled, so the transaction is never queued again.
    pub fn settle_tx(&mut self, hash: &String) -> (r: Option<usize>)
        requires
            old(self).wf(),
        ensures
            final(self).wf(),
            final(self).start_height() == old(self).start_height(),
            final(self).queue() == settle(old(self).queue(), hash@),
            final(self).settled() == old(self).settled().push(hash@),
            r is Some <==> hashes(old(self).queue()).contains(hash@),
            r matches Some(p) ==> p == position_of(old(self).queue(), hash@),
            (r == Some(0usize)) == frees_head(old(self).queue(), hash@),
    {
        let ghost q = self.unsettled_txs@;
        let ghost done = self.settled();
        let r = match self.find(hash) {
            Some(p) => {
                self.unsettled_txs.remove(p);
                proof {
                    lemma_remove_unique(q, p as int);
                    if frees_head(q, hash@) {
                        lemma_position_unique(q, hash@, 0);
                    }
                }
                Some(p)
            },
            None => {
                proof {
                    if frees_head(self.unsettled_txs@, hash@) {
                        assert(hashes(self.unsettled_txs@)[0] == hash@);
                    }
                }
                None
            },
        };
        self.settled_txs.push(hash.clone());
        proof {
            lemma_settle_none_settled(q, done, hash@);
            assert(self.settled() =~= done.push(hash@));
        }
        r
    }
}

/// The unsettled queue never holds two entries with the same hash.
pub proof fn lemma_queue_hashes_unique(m: &ProverModule)
    requires
        m.wf(),
    ensures
        unique_hashes(m.queue()),
{
}

/// Observing a transaction keeps the hashes unique, and observing it again
/// changes nothing.
pub proof fn lemma_enqueue_idempotent(q: Seq<UnsettledTx>, settled: Seq<Seq<char>>, t: UnsettledTx)
    requires
        unique_hashes(q),
    ensures
        unique_hashes(enqueue(q, settled, t)),
        enqueue(enqueue(q, settled, t), settled, t) == enqueue(q, settled, t),
{
    if !hashes(q).contains(t.hash@) && !settled.contains(t.hash@) {
        let r = q.push(t);
        assert forall|i: int, j: int| 0 <= i < j < r.len() implies #[trigger] r[i].hash@ != #[trigger] r[j].hash@ by {
            if j == q.len() {
                assert(hashes(q)[i] == q[i].hash@);
            } else {
                assert(q[i].hash@ != q[j].hash@);
            }
        }
        assert(hashes(r)[q.len() as int] == t.hash@);
    }
}

/// A settled transaction never re-enters the queue: after its settlement is
/// recorded, observing it again leaves the queue as it is, and no queued
/// entry carries a settled hash.
pub proof fn lemma_settled_never_requeued(m: &ProverModule, t: UnsettledTx)
    requires
        m.wf(),
        m.settled().contains(t.hash@),
    ensures
        enqueue(m.queue(), m.settled(), t) == m.queue(),
        none_settled(m.queue(), m.settled()),
        !hashes(m.queue()).contains(t.hash@),
{
    if hashes(m.queue()).contains(t.hash@) {
        let w = choose|w: int| 0 <= w < hashes(m.queue()).len() && hashes(m.queue())[w] == t.hash@;
        assert(!m.settled().contains(m.queue()[w].hash@));
    }
}

/// Settling a transaction that is not at the head removes exactly its entry,
/// does not free the head, and leaves the head in place.
pub proof fn lemma_settle_non_head(q: Seq<UnsettledTx>, h: Seq<char>, p: int)
    requires
        unique_hashes(q),
        0 < p < q.len(),
        q[p].hash@ == h,
    ensures
        settle(q, h) == q.remove(p),
        !frees_head(q, h),
        settle(q, h)[0] == q[0],
{
    lemma_position_unique(q, h, p);
    assert(q[0].hash@ != q[p].hash@);
}

} // verus!
