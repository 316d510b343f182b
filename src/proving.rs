//! The proof worker: a FIFO of broadcast transactions whose blobs are proved
//! one at a time, in blob order, one transaction after the other.
use vstd::prelude::*;
use crate::speculative::{InputModel, ProofJob, ProvableTransaction, input_for};

verus! {

/// A proof to hand to the node for the blob transaction `tx_hash`.
pub struct ProofSubmission {
    pub tx_hash: String,
    pub contract_name: String,
    pub proof_bytes: Vec<u8>,
}

/// The model of a proof session: the transaction's hash, and the contract
/// and input of the job of each blob, in blob order.
pub struct SessionModel {
    pub tx_hash: Seq<char>,
    pub jobs: Seq<(Seq<char>, InputModel)>,
}

/// The session that proving `tx`, broadcast as `tx_hash`, starts with: one
/// job per blob, for the blob's contract, with its speculative input.
pub open spec fn session_of(tx: ProvableTransaction, tx_hash: Seq<char>) -> SessionModel {
    SessionModel {
        tx_hash,
        jobs: Seq::new(tx.blobs().len(), |i: int| (tx.blobs()[i].contract_name, tx.job_input(i))),
    }
}

/// The proving of one broadcast transaction, blob after blob.
pub struct ProofSession {
    tx_hash: String,
    jobs: Vec<ProofJob>,
    next: usize,
    current: Option<usize>,
    attempts: Ghost<Seq<usize>>,
}

/// `s` is strictly increasing.
pub open spec fn increasing(s: Seq<usize>) -> bool {
    forall|i: int, j: int| 0 <= i < j < s.len() ==> s[i] < s[j]
}

impl ProofSession {
    pub closed spec fn tx_hash(&self) -> Seq<char> {
        self.tx_hash@
    }

    /// The number of blobs of the transaction.
    pub closed spec fn job_count(&self) -> nat {
        self.jobs@.len()
    }

    /// The number of jobs handed out so far.
    pub closed spec fn started(&self) -> nat {
        self.next as nat
    }

    /// The blob positions whose proofs were handed over for submission, in
    /// the order they were.
    pub closed spec fn attempts(&self) -> Seq<usize> {
        self.attempts@
    }

    /// The position of the job handed out and not yet resolved.
    pub closed spec fn outstanding(&self) -> Option<usize> {
        self.current
    }

    /// The contract of the blob at `i`.
    pub closed spec fn contract_of(&self, i: int) -> Seq<char> {
        self.jobs@[i].contract_name@
    }

    /// The input of the job of the blob at `i`, as speculative execution
    /// used it.
    pub closed spec fn job_input(&self, i: int) -> InputModel {
        self.jobs@[i].input@
    }

    /// The session's hash and jobs.
    pub open spec fn model(&self) -> SessionModel {
        SessionModel {
            tx_hash: self.tx_hash(),
            jobs: Seq::new(self.job_count(), |i: int| (self.contract_of(i), self.job_input(i))),
        }
    }

    pub closed spec fn wf(&self) -> bool {
        &&& self.current matches Some(i) ==> i + 1 == self.next && self.attempts@.len() <= i && (
        self.attempts@.len() == 0 || self.attempts@.last() < i)
        &&& self.next <= self.jobs@.len()
        &&& forall|i: int| 0 <= i < self.jobs@.len() ==> #[trigger] self.jobs@[i].input.index == i
        &&& increasing(self.attempts@)
        &&& forall|i: int| 0 <= i < self.attempts@.len() ==> #[trigger] self.attempts@[i] < self.next
        &&& self.attempts@.len() <= self.next
    }

    /// A session over the proof jobs of `tx`, broadcast as `tx_hash`.
    pub fn new(tx: ProvableTransaction, tx_hash: String) -> (r: Self)
        requires
            tx.wf(),
        ensures
            r.wf(),
            r.tx_hash() == tx_hash@,
            r.job_count() == tx.blobs().len(),
            r.started() == 0,
            r.attempts() == Seq::<usize>::empty(),
            r.outstanding() is None,
            r.model() == session_of(tx, tx_hash@),
            forall|i: int|
                0 <= i < r.job_count() ==> #[trigger] r.job_input(i) == tx.job_input(i)
                    && r.contract_of(i) == tx.blobs()[i].contract_name,
    {
        let ghost m = session_of(tx, tx_hash@);
        let r = ProofSession {
            tx_hash,
            jobs: tx.into_jobs(),
            next: 0,
            current: None,
            attempts: Ghost(Seq::empty()),
        };
        assert(r.model().jobs =~= m.jobs);
        r
    }

    /// The number of blobs of the transaction.
    pub fn len(&self) -> (r: usize)
        ensures
            r == self.job_count(),
    {
        self.jobs.len()
    }

    /// Hands out the next blob's job, its input bound to the transaction's
    /// hash; `None` once every blob's job was handed out.
    pub fn next_job(&mut self) -> (r: Option<ProofJob>)
        requires
            old(self).wf(),
        ensures
            final(self).wf(),
            final(self).tx_hash() == old(self).tx_hash(),
            final(self).job_count() == old(self).job_count(),
            final(self).attempts() == old(self).attempts(),
            old(self).started() < old(self).job_count() ==> {
                &&& final(self).started() == old(self).started() + 1
                &&& r matches Some(job)
                &&& job.input.index == old(self).started()
                &&& job.input@ == (InputModel {
                    tx_hash: old(self).tx_hash(),
                    ..old(self).job_input(old(self).started() as int)
                })
                &&& job.contract_name@ == old(self).contract_of(job.input.index as int)
                &&& final(self).outstanding() == Some(job.input.index)
            },
            old(self).started() == old(self).job_count() ==> r is None && final(self).started()
                == old(self).started() && final(self).outstanding() is None,
    {
        if self.next >= self.jobs.len() {
            self.current = None;
            return None;
        }
        let job = &self.jobs[self.next];
        let out = ProofJob {
            contract_name: job.contract_name.clone(),
            input: input_for(&job.input, &self.tx_hash),
        };
        self.current = Some(self.next);
        self.next = self.next + 1;
        Some(out)
    }

    /// The submission of `proof_bytes`, produced for the job handed out last;
    /// `None` where no job is outstanding. A job whose proving failed gets no
    /// submission: the next call of `next_job` moves on to the next blob.
    pub fn submission(&mut self, proof_bytes: Vec<u8>) -> (r: Option<ProofSubmission>)
        requires
            old(self).wf(),
        ensures
            final(self).wf(),
            final(self).tx_hash() == old(self).tx_hash(),
            final(self).job_count() == old(self).job_count(),
            final(self).started() == old(self).started(),
            final(self).outstanding() is None,
            match old(self).outstanding() {
                Some(i) => {
                    &&& final(self).attempts() == old(self).attempts().push(i)
                    &&& r matches Some(sub)
                    &&& sub.tx_hash@ == old(self).tx_hash()
                    &&& sub.contract_name@ == old(self).contract_of(i as int)
                    &&& sub.proof_bytes@ == proof_bytes@
                },
                None => r is None && final(self).attempts() == old(self).attempts(),
            },
    {
        match self.current {
            Some(i) => {
                proof {
                    let a = self.attempts@;
                    assert forall|j: int| 0 <= j < a.len() implies a[j] < i by {
                        if j < a.len() - 1 {
                            assert(a[j] < a[a.len() - 1]);
                        }
                    }
                    self.attempts@ = a.push(i);
                    assert forall|x: int, y: int| 0 <= x < y < self.attempts@.len() implies self.attempts@[x]
                        < self.attempts@[y] by {
                        if y < a.len() {
                            assert(a[x] < a[y]);
                        }
                    }
                }
                self.current = None;
                Some(ProofSubmission {
                    tx_hash: self.tx_hash.clone(),
                    contract_name: self.jobs[i].contract_name.clone(),
                    proof_bytes,
                })
            },
            None => None,
        }
    }
}

/// The queue of broadcast transactions awaiting proofs, first in, first
/// out. Each is proved completely before the next one starts.
pub struct Prover {
    queue: Vec<ProofSession>,
}

impl Prover {
    /// The hashes of the queued transactions, oldest first.
    pub closed spec fn hashes(&self) -> Seq<Seq<char>> {
        self.queue@.map_values(|s: ProofSession| s.tx_hash())
    }

    /// The queued sessions, oldest first.
    pub closed spec fn sessions(&self) -> Seq<SessionModel> {
        self.queue@.map_values(|s: ProofSession| s.model())
    }

    pub closed spec fn wf(&self) -> bool {
        forall|i: int|
            0 <= i < self.queue@.len() ==> #[trigger] self.queue@[i].wf() && self.queue@[i].started()
                == 0 && self.queue@[i].outstanding() is None && self.queue@[i].attempts().len() == 0
    }

    /// An empty queue.
    pub fn new() -> (r: Self)
        ensures
            r.wf(),
            r.hashes() == Seq::<Seq<char>>::empty(),
            r.sessions() == Seq::<SessionModel>::empty(),
    {
        let r = Prover { queue: Vec::new() };
        assert(r.hashes() =~= Seq::<Seq<char>>::empty());
        assert(r.sessions() =~= Seq::<SessionModel>::empty());
        r
    }

    /// Queues the proving of `tx`, broadcast as `tx_hash`, behind every
    /// transaction queued before it.
    pub fn add(&mut self, tx: ProvableTransaction, tx_hash: String)
        requires
            old(self).wf(),
            tx.wf(),
        ensures
            final(self).wf(),
            final(self).hashes() == old(self).hashes().push(tx_hash@),
            final(self).sessions() == old(self).sessions().push(session_of(tx, tx_hash@)),
    {
        let ghost h = tx_hash@;
        let ghost m = session_of(tx, tx_hash@);
        let session = ProofSession::new(tx, tx_hash);
        self.queue.push(session);
        assert(self.hashes() =~= old(self).hashes().push(h));
        assert(self.sessions() =~= old(self).sessions().push(m));
        assert forall|i: int| 0 <= i < self.queue@.len() implies #[trigger] self.queue@[i].wf()
            && self.queue@[i].started() == 0 && self.queue@[i].outstanding() is None
            && self.queue@[i].attempts().len() == 0 by {
            if i < old(self).queue@.len() {
                assert(self.queue@[i] == old(self).queue@[i]);
            }
        }
    }

    /// Takes the oldest queued transaction's session, `None` when the queue
    /// is empty.
    pub fn next_session(&mut self) -> (r: Option<ProofSession>)
        requires
            old(self).wf(),
        ensures
            final(self).wf(),
            old(self).hashes().len() == 0 ==> r is None && final(self).hashes() == old(self).hashes()
                && final(self).sessions() == old(self).sessions(),
            old(self).sessions().len() == old(self).hashes().len(),
            old(self).hashes().len() > 0 ==> {
                &&& r matches Some(s)
                &&& s.wf()
                &&& s.started() == 0
                &&& s.outstanding() is None
                &&& s.attempts() == Seq::<usize>::empty()
                &&& s.tx_hash() == old(self).hashes()[0]
                &&& s.model() == old(self).sessions()[0]
                &&& final(self).hashes() == old(self).hashes().drop_first()
                &&& final(self).sessions() == old(self).sessions().drop_first()
            },
    {
        if self.queue.len() == 0 {
            return None;
        }
        let s = self.queue.remove(0);
        assert(self.hashes() =~= old(self).hashes().drop_first());
        assert(self.sessions() =~= old(self).sessions().drop_first());
        assert(s == old(self).queue@[0]);
        assert(old(self).queue@[0].wf());
        assert(s.attempts() =~= Seq::<usize>::empty());
        Some(s)
    }

    /// The number of queued transactions.
    pub fn len(&self) -> (r: usize)
        ensures
            r == self.hashes().len(),
    {
        self.queue.len()
    }
}

/// A session taken from the queue for a transaction of N blobs has N jobs,
/// each for its blob's contract with the blob's speculative input; it makes
/// at most N submissions, in increasing blob order, each tagged with the
/// contract of its blob.
pub proof fn lemma_queued_session_matches(tx: ProvableTransaction, tx_hash: Seq<char>, s: &ProofSession)
    requires
        s.wf(),
        s.model() == session_of(tx, tx_hash),
    ensures
        s.job_count() == tx.blobs().len(),
        s.tx_hash() == tx_hash,
        forall|i: int|
            0 <= i < tx.blobs().len() ==> #[trigger] s.contract_of(i) == tx.blobs()[i].contract_name
                && s.job_input(i) == tx.job_input(i),
        s.attempts().len() <= tx.blobs().len(),
        increasing(s.attempts()),
        forall|i: int| 0 <= i < s.attempts().len() ==> #[trigger] s.attempts()[i] < tx.blobs().len(),
{
    assert(s.model().jobs.len() == s.job_count());
    assert forall|i: int| 0 <= i < tx.blobs().len() implies #[trigger] s.contract_of(i) == tx.blobs()[i].contract_name
        && s.job_input(i) == tx.job_input(i) by {
        assert(s.model().jobs[i] == session_of(tx, tx_hash).jobs[i]);
    }
}

/// A session makes at most one submission per blob, in increasing blob
/// order.
pub proof fn lemma_attempts_bounded_and_ordered(s: &ProofSession)
    requires
        s.wf(),
    ensures
        s.attempts().len() <= s.job_count(),
        increasing(s.attempts()),
        forall|i: int| 0 <= i < s.attempts().len() ==> #[trigger] s.attempts()[i] < s.job_count(),
{
}

} // verus!
