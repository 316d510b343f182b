//! The request-side core: the shared contract state cache and the proof
//! queue, and the steps that take a built transaction to the queue.
use vstd::prelude::*;
use crate::builder::{BuildError, CompositeTransaction};
use crate::proving::{ProofSession, Prover, SessionModel, session_of};
use crate::speculative::{ProvableTransaction, SpeculativeRun};
use crate::state::{States, all_known, apply_results};

verus! {

/// The state shared by request handlers: the contract state cache and the
/// queue of transactions awaiting proofs.
pub struct AppModule {
    states: States,
    prover: Prover,
}

impl AppModule {
    pub closed spec fn states(&self) -> Map<Seq<char>, Seq<u8>> {
        self.states@
    }

    /// The hashes of the transactions queued for proving, oldest first.
    pub closed spec fn queued(&self) -> Seq<Seq<char>> {
        self.prover.hashes()
    }

    /// The sessions queued for proving, oldest first.
    pub closed spec fn sessions(&self) -> Seq<SessionModel> {
        self.prover.sessions()
    }

    pub closed spec fn wf(&self) -> bool {
        self.states.wf() && self.prover.wf()
    }

    /// A module over the contract states `states`, with nothing queued.
    pub fn new(states: States) -> (r: Self)
        requires
            states.wf(),
        ensures
            r.wf(),
            r.states() == states@,
            r.queued() == Seq::<Seq<char>>::empty(),
            r.sessions() == Seq::<SessionModel>::empty(),
    {
        AppModule { states, prover: Prover::new() }
    }

    /// The current state of the contract `name`.
    pub fn state_of(&self, name: &String) -> (r: Result<&Vec<u8>, BuildError>)
        requires
            self.wf(),
        ensures
            match r {
                Ok(s) => self.states().contains_key(name@) && s@ == self.states()[name@],
                Err(e) => !self.states().contains_key(name@) && crate::builder::is_unknown_contract(e, name@),
            },
    {
        self.states.for_token(name)
    }

    /// Starts the speculative execution of `tx` against a private copy of
    /// the current states.
    pub fn begin(&self, tx: CompositeTransaction) -> (r: SpeculativeRun)
        requires
            self.wf(),
            tx.wf(),
        ensures
            r.wf(),
            r.start_states() == self.states(),
            r.working() == self.states(),
            r.executed() == 0,
            r.identity() == tx.identity@,
            r.blobs() == crate::blob::blob_models(tx.blobs@),
            r.private_inputs() == tx.private_inputs@.map_values(|p: String| p@),
            if tx.blobs@.len() == 0 {
                r.phase() is Complete
            } else {
                r.phase() is Ready
            },
    {
        SpeculativeRun::start(&self.states, tx)
    }

    /// Ends a finished run: a complete one commits its states, all or none,
    /// and yields the transaction to broadcast; a failed one yields its
    /// failure and changes nothing.
    pub fn commit(&mut self, run: SpeculativeRun) -> (r: Result<ProvableTransaction, BuildError>)
        requires
            old(self).wf(),
            run.wf(),
            run.phase() is Complete || run.phase() is Failed,
        ensures
            final(self).wf(),
            final(self).queued() == old(self).queued(),
            final(self).sessions() == old(self).sessions(),
            run.phase() is Failed ==> final(self).states() == old(self).states() && r is Err && Some(
                r->Err_0,
            ) == run.failure(),
            run.phase() is Complete ==> {
                if all_known(old(self).states(), run.outputs()) {
                    &&& r matches Ok(p)
                    &&& p.wf()
                    &&& p.blobs() == run.blobs()
                    &&& p.identity() == run.identity()
                    &&& p.outputs() == run.outputs()
                    &&& p.start_states() == run.start_states()
                    &&& p.private_inputs() == run.private_inputs()
                    &&& final(self).states() == apply_results(old(self).states(), run.outputs())
                } else {
                    &&& r matches Err(BuildError::UnknownContract { .. })
                    &&& final(self).states() == old(self).states()
                }
            },
    {
        run.finish(&mut self.states)
    }

    /// Queues a broadcast transaction for proving.
    pub fn enqueue(&mut self, tx: ProvableTransaction, tx_hash: String)
        requires
            old(self).wf(),
            tx.wf(),
        ensures
            final(self).wf(),
            final(self).states() == old(self).states(),
            final(self).queued() == old(self).queued().push(tx_hash@),
            final(self).sessions() == old(self).sessions().push(session_of(tx, tx_hash@)),
    {
        self.prover.add(tx, tx_hash);
    }

    /// Takes the oldest queued transaction's proof session.
    pub fn next_session(&mut self) -> (r: Option<ProofSession>)
        requires
            old(self).wf(),
        ensures
            final(self).wf(),
            final(self).states() == old(self).states(),
            old(self).sessions().len() == old(self).queued().len(),
            old(self).queued().len() == 0 ==> r is None && final(self).queued() == old(self).queued()
                && final(self).sessions() == old(self).sessions(),
            old(self).queued().len() > 0 ==> {
                &&& r matches Some(s)
                &&& s.wf()
                &&& s.started() == 0
                &&& s.outstanding() is None
                &&& s.attempts() == Seq::<usize>::empty()
                &&& s.tx_hash() == old(self).queued()[0]
                &&& s.model() == old(self).sessions()[0]
                &&& final(self).queued() == old(self).queued().drop_first()
                &&& final(self).sessions() == old(self).sessions().drop_first()
            },
    {
        self.prover.next_session()
    }
}

} // verus!
