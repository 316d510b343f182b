//! Speculative execution: every blob is run, in order, against the state its
//! contract reached after the earlier blobs of the same transaction, before
//! anything is broadcast or proved.
use vstd::prelude::*;
use crate::blob::{Blob, BlobModel, blob_models, copy_blobs, copy_bytes};
use crate::builder::{BuildError, CompositeTransaction, blobs_wf};
use crate::state::{ExecutionResult, States, apply_results, result_models};

verus! {

/// Everything a contract's transition needs for one blob.
pub struct ContractInput {
    pub initial_state: Vec<u8>,
    pub identity: String,
    pub tx_hash: String,
    pub private_input: String,
    pub blobs: Vec<Blob>,
    pub index: usize,
}

/// The model of a [`ContractInput`].
pub struct InputModel {
    pub initial_state: Seq<u8>,
    pub identity: Seq<char>,
    pub tx_hash: Seq<char>,
    pub private_input: Seq<char>,
    pub blobs: Seq<BlobModel>,
    pub index: usize,
}

impl View for ContractInput {
    type V = InputModel;

    open spec fn view(&self) -> InputModel {
        InputModel {
            initial_state: self.initial_state@,
            identity: self.identity@,
            tx_hash: self.tx_hash@,
            private_input: self.private_input@,
            blobs: blob_models(self.blobs@),
            index: self.index,
        }
    }
}

/// The input with which speculative execution runs blob `i`: the state its
/// contract reached through the outputs of the blobs before it, from `start`.
pub open spec fn speculative_input(
    start: Map<Seq<char>, Seq<u8>>,
    blobs: Seq<BlobModel>,
    identity: Seq<char>,
    private_inputs: Seq<Seq<char>>,
    outputs: Seq<(Seq<char>, Seq<u8>)>,
    i: int,
) -> InputModel {
    InputModel {
        initial_state: apply_results(start, outputs.subrange(0, i))[blobs[i].contract_name],
        identity,
        tx_hash: Seq::empty(),
        private_input: private_inputs[i],
        blobs,
        index: i as usize,
    }
}

/// What running a contract's transition on one blob reported.
pub struct ExecOutcome {
    pub success: bool,
    pub next_state: Vec<u8>,
    pub program_output: Vec<u8>,
}

/// A copy of `input` for the transaction `tx_hash`.
pub fn input_for(input: &ContractInput, tx_hash: &String) -> (r: ContractInput)
    ensures
        r@ == (InputModel { tx_hash: tx_hash@, ..input@ }),
{
    ContractInput {
        initial_state: copy_bytes(&input.initial_state),
        identity: input.identity.clone(),
        tx_hash: tx_hash.clone(),
        private_input: input.private_input.clone(),
        blobs: copy_blobs(&input.blobs),
        index: input.index,
    }
}

/// One unit of proving: the input of the blob at `input.index`, for the
/// contract `contract_name`.
pub struct ProofJob {
    pub contract_name: String,
    pub input: ContractInput,
}

/// A transaction every blob of which succeeded in speculative execution,
/// ready to be broadcast, with the proof job of each blob.
pub struct ProvableTransaction {
    identity: String,
    blobs: Vec<Blob>,
    jobs: Vec<ProofJob>,
    outputs: Ghost<Seq<(Seq<char>, Seq<u8>)>>,
    start: Ghost<Map<Seq<char>, Seq<u8>>>,
    private_inputs: Ghost<Seq<Seq<char>>>,
}

impl ProvableTransaction {
    pub closed spec fn identity(&self) -> Seq<char> {
        self.identity@
    }

    pub closed spec fn blobs(&self) -> Seq<BlobModel> {
        blob_models(self.blobs@)
    }

    /// The state that the speculative execution of each blob produced.
    pub closed spec fn outputs(&self) -> Seq<(Seq<char>, Seq<u8>)> {
        self.outputs@
    }

    /// The states the speculative execution started from.
    pub closed spec fn start_states(&self) -> Map<Seq<char>, Seq<u8>> {
        self.start@
    }

    /// The private input of each blob.
    pub closed spec fn private_inputs(&self) -> Seq<Seq<char>> {
        self.private_inputs@
    }

    /// The input of the proof job of blob `i`.
    pub closed spec fn job_input(&self, i: int) -> InputModel {
        self.jobs@[i].input@
    }

    /// The contract and position of each proof job.
    pub closed spec fn job_targets(&self) -> Seq<(Seq<char>, usize)> {
        self.jobs@.map_values(|j: ProofJob| (j.contract_name@, j.input.index))
    }

    pub closed spec fn wf(&self) -> bool {
        &&& blobs_wf(blob_models(self.blobs@))
        &&& self.jobs@.len() == self.blobs@.len()
        &&& self.outputs@.len() == self.blobs@.len()
        &&& forall|i: int|
            0 <= i < self.jobs@.len() ==> #[trigger] self.jobs@[i].input.index == i
                && self.jobs@[i].contract_name@ == self.blobs@[i].contract_name@
                && self.outputs@[i].0 == self.blobs@[i].contract_name@
                && self.jobs@[i].input@ == speculative_input(
                self.start@,
                blob_models(self.blobs@),
                self.identity@,
                self.private_inputs@,
                self.outputs@,
                i,
            )
    }

    /// The proof jobs, one per blob in blob order; the transaction is consumed.
    pub fn into_jobs(self) -> (r: Vec<ProofJob>)
        requires
            self.wf(),
        ensures
            r@.map_values(|j: ProofJob| (j.contract_name@, j.input.index)) == self.job_targets(),
            r@.len() == self.blobs().len(),
            forall|i: int|
                0 <= i < r@.len() ==> #[trigger] r@[i].input.index == i && r@[i].input@
                    == self.job_input(i) && r@[i].contract_name@ == self.blobs()[i].contract_name,
    {
        self.jobs
    }

    /// The signer, as the transaction is broadcast.
    pub fn identity_name(&self) -> (r: &String)
        ensures
            r@ == self.identity(),
    {
        &self.identity
    }

    /// The blobs, as the transaction is broadcast.
    pub fn blob_list(&self) -> (r: &Vec<Blob>)
        ensures
            blob_models(r@) == self.blobs(),
    {
        &self.blobs
    }
}

/// Where a speculative run stands.
pub enum Phase {
    /// The next blob's input is to be taken.
    Ready,
    /// The next blob's input was handed out; its outcome is awaited.
    Awaiting,
    /// Every blob succeeded.
    Complete,
    /// A blob failed or named an unknown contract; the run is over.
    Failed,
}

/// A speculative execution of one composite transaction against a private
/// working copy of the contract states.
pub struct SpeculativeRun {
    tx: CompositeTransaction,
    working: States,
    phase: Phase,
    next: usize,
    results: Vec<ExecutionResult>,
    jobs: Vec<ProofJob>,
    failure: Option<BuildError>,
    pending: Option<ProofJob>,
    start: Ghost<Map<Seq<char>, Seq<u8>>>,
}

impl SpeculativeRun {
    /// The states the run started from.
    pub closed spec fn start_states(&self) -> Map<Seq<char>, Seq<u8>> {
        self.start@
    }

    /// The blobs of the transaction under execution.
    pub closed spec fn blobs(&self) -> Seq<BlobModel> {
        blob_models(self.tx.blobs@)
    }

    pub closed spec fn identity(&self) -> Seq<char> {
        self.tx.identity@
    }

    /// The private input of each blob.
    pub closed spec fn private_inputs(&self) -> Seq<Seq<char>> {
        self.tx.private_inputs@.map_values(|p: String| p@)
    }

    /// The number of blobs that succeeded so far.
    pub closed spec fn executed(&self) -> nat {
        self.next as nat
    }

    /// The states the blobs that succeeded so far produced, in order.
    pub closed spec fn outputs(&self) -> Seq<(Seq<char>, Seq<u8>)> {
        result_models(self.results@)
    }

    /// The working copy: the start states with every output applied.
    pub closed spec fn working(&self) -> Map<Seq<char>, Seq<u8>> {
        self.working@
    }

    pub closed spec fn phase(&self) -> Phase {
        self.phase
    }

    /// The reason a failed run stopped.
    pub closed spec fn failure(&self) -> Option<BuildError> {
        self.failure
    }

    pub closed spec fn wf(&self) -> bool {
        &&& self.tx.wf()
        &&& self.working.wf()
        &&& self.next <= self.tx.blobs@.len()
        &&& self.results@.len() == self.next
        &&& self.jobs@.len() == self.next
        &&& forall|i: int|
            0 <= i < self.next ==> #[trigger] self.jobs@[i].input.index == i
                && self.jobs@[i].contract_name@ == self.tx.blobs@[i].contract_name@
                && self.results@[i].contract_name@ == self.tx.blobs@[i].contract_name@
                && self.jobs@[i].input@ == speculative_input(
                self.start@,
                blob_models(self.tx.blobs@),
                self.tx.identity@,
                self.tx.private_inputs@.map_values(|p: String| p@),
                result_models(self.results@),
                i,
            )
        &&& self.working@ == apply_results(self.start@, result_models(self.results@))
        &&& self.working@.dom() == self.start@.dom()
        &&& (self.phase is Complete <==> (self.next == self.tx.blobs@.len() && self.failure is None))
        &&& (self.phase is Failed <==> self.failure is Some)
        &&& (self.phase is Ready || self.phase is Awaiting) ==> self.next < self.tx.blobs@.len()
        &&& self.phase is Awaiting ==> {
            &&& self.working@.contains_key(self.tx.blobs@[self.next as int].contract_name@)
            &&& self.pending matches Some(job)
            &&& job.input.index == self.next
            &&& job.contract_name@ == self.tx.blobs@[self.next as int].contract_name@
            &&& job.input@ == speculative_input(
                self.start@,
                blob_models(self.tx.blobs@),
                self.tx.identity@,
                self.tx.private_inputs@.map_values(|p: String| p@),
                result_models(self.results@),
                self.next as int,
            )
        }
    }

    /// A run of `tx` against a private copy of `states`.
    pub fn start(states: &States, tx: CompositeTransaction) -> (r: Self)
        requires
            states.wf(),
            tx.wf(),
        ensures
            r.wf(),
            r.start_states() == states@,
            r.working() == states@,
            r.blobs() == blob_models(tx.blobs@),
            r.identity() == tx.identity@,
            r.private_inputs() == tx.private_inputs@.map_values(|p: String| p@),
            r.executed() == 0,
            if tx.blobs@.len() == 0 {
                r.phase() is Complete
            } else {
                r.phase() is Ready
            },
    {
        let working = states.copy();
        let phase = if tx.blobs.len() == 0 {
            Phase::Complete
        } else {
            Phase::Ready
        };
        let r = SpeculativeRun {
            tx,
            working,
            phase,
            next: 0,
            results: Vec::new(),
            jobs: Vec::new(),
            failure: None,
            pending: None,
            start: Ghost(states@),
        };
        assert(result_models(r.results@) =~= Seq::<(Seq<char>, Seq<u8>)>::empty());
        r
    }

    /// The input of the next blob: the state its contract reached so far,
    /// the signer, the blob's private input, the whole blob list and the
    /// blob's position. Where the contract is not known the run fails. A run
    /// that is not ready for the next blob is left as it is.
    pub fn next_input(&mut self) -> (r: Option<ContractInput>)
        requires
            old(self).wf(),
        ensures
            final(self).wf(),
            final(self).start_states() == old(self).start_states(),
            final(self).blobs() == old(self).blobs(),
            final(self).identity() == old(self).identity(),
            final(self).private_inputs() == old(self).private_inputs(),
            final(self).executed() == old(self).executed(),
            final(self).outputs() == old(self).outputs(),
            final(self).working() == old(self).working(),
            !(old(self).phase() is Ready) ==> *final(self) == *old(self) && r is None,
            old(self).phase() is Ready ==> {
                let i = old(self).executed() as int;
                let c = old(self).blobs()[i].contract_name;
                if old(self).working().contains_key(c) {
                    &&& final(self).phase() is Awaiting
                    &&& r matches Some(input)
                    &&& input.initial_state@ == old(self).working()[c]
                    &&& input.identity@ == old(self).identity()
                    &&& input.private_input@ == old(self).private_inputs()[i]
                    &&& blob_models(input.blobs@) == old(self).blobs()
                    &&& input.index == i
                    &&& input.tx_hash@ == Seq::<char>::empty()
                } else {
                    &&& final(self).phase() is Failed
                    &&& final(self).failure() matches Some(e)
                    &&& crate::builder::is_unknown_contract(e, c)
                    &&& r is None
                }
            },
    {
        if !matches!(self.phase, Phase::Ready) {
            return None;
        }
        let i = self.next;
        let name = &self.tx.blobs[i].contract_name;
        match self.working.for_token(name) {
            Ok(state) => {
                let input = ContractInput {
                    initial_state: copy_bytes(state),
                    identity: self.tx.identity.clone(),
                    tx_hash: String::new(),
                    private_input: self.tx.private_inputs[i].clone(),
                    blobs: copy_blobs(&self.tx.blobs),
                    index: i,
                };
                let kept = input_for(&input, &input.tx_hash);
                assert(result_models(self.results@).subrange(0, i as int) =~= result_models(self.results@));
                self.pending = Some(ProofJob { contract_name: name.clone(), input: kept });
                self.phase = Phase::Awaiting;
                Some(input)
            },
            Err(e) => {
                self.failure = Some(e);
                self.phase = Phase::Failed;
                None
            },
        }
    }

    /// Records the outcome of the blob whose input was handed out last. A
    /// success moves the blob's contract to the state it produced; a failure
    /// ends the run.
    pub fn record(&mut self, outcome: ExecOutcome)
        requires
            old(self).wf(),
            old(self).phase() is Awaiting,
        ensures
            final(self).wf(),
            final(self).start_states() == old(self).start_states(),
            final(self).blobs() == old(self).blobs(),
            final(self).identity() == old(self).identity(),
            final(self).private_inputs() == old(self).private_inputs(),
            ({
                let i = old(self).executed() as int;
                let c = old(self).blobs()[i].contract_name;
                if outcome.success {
                    &&& final(self).executed() == i + 1
                    &&& final(self).outputs() == old(self).outputs().push((c, outcome.next_state@))
                    &&& final(self).working() == old(self).working().insert(c, outcome.next_state@)
                    &&& if i + 1 == old(self).blobs().len() {
                        final(self).phase() is Complete
                    } else {
                        final(self).phase() is Ready
                    }
                } else {
                    &&& final(self).executed() == old(self).executed()
                    &&& final(self).outputs() == old(self).outputs()
                    &&& final(self).working() == old(self).working()
                    &&& final(self).phase() is Failed
                    &&& final(self).failure() matches Some(BuildError::ExecutionFailed { index, program_output })
                    &&& index == i
                    &&& program_output@ == outcome.program_output@
                }
            }),
    {
        let i = self.next;
        let n = self.tx.blobs.len();
        assert(i < n);
        if !outcome.success {
            self.failure = Some(BuildError::ExecutionFailed {
                index: i,
                program_output: outcome.program_output,
            });
            self.phase = Phase::Failed;
            return;
        }
        let name = self.tx.blobs[i].contract_name.clone();
        let ghost before = result_models(self.results@);
        let ghost c = name@;
        let state = copy_bytes(&outcome.next_state);
        let _ = self.working.update_for_token(&name, state);
        self.results.push(ExecutionResult { contract_name: name, state: outcome.next_state });
        let job = self.pending.take();
        match job {
            Some(j) => self.jobs.push(j),
            None => {},
        }
        self.next = i + 1;
        if self.next == self.tx.blobs.len() {
            self.phase = Phase::Complete;
        } else {
            self.phase = Phase::Ready;
        }
        proof {
            let after = result_models(self.results@);
            assert(after =~= before.push((c, outcome.next_state@)));
            assert forall|k: int| 0 <= k <= i implies #[trigger] after.subrange(0, k) == before.subrange(0, k) by {
                assert(after.subrange(0, k) =~= before.subrange(0, k));
            }
            assert(after.drop_last() =~= before);
            assert(self.working@.dom() =~= self.start@.dom());
        }
    }

    /// Ends the run. A complete run commits its outputs to `states`, all or
    /// none, and yields the transaction with one proof job per blob; a failed
    /// run yields its failure and leaves `states` as they were.
    pub fn finish(self, states: &mut States) -> (r: Result<ProvableTransaction, BuildError>)
        requires
            self.wf(),
            self.phase() is Complete || self.phase() is Failed,
            old(states).wf(),
        ensures
            final(states).wf(),
            self.phase() is Failed ==> *final(states) == *old(states) && r is Err && Some(r->Err_0) == self.failure(),
            self.phase() is Complete ==> {
                if crate::state::all_known(old(states)@, self.outputs()) {
                    &&& r matches Ok(p)
                    &&& p.wf()
                    &&& p.blobs() == self.blobs()
                    &&& p.identity() == self.identity()
                    &&& p.outputs() == self.outputs()
                    &&& p.start_states() == self.start_states()
                    &&& p.private_inputs() == self.private_inputs()
                    &&& final(states)@ == apply_results(old(states)@, self.outputs())
                } else {
                    &&& r matches Err(BuildError::UnknownContract { .. })
                    &&& *final(states) == *old(states)
                }
            },
    {
        if let Some(e) = self.failure {
            return Err(e);
        }
        let ghost outputs = result_models(self.results@);
        let results = self.results;
        match states.from_exec_results(results) {
            Ok(()) => {
                let p = ProvableTransaction {
                    identity: self.tx.identity,
                    blobs: self.tx.blobs,
                    jobs: self.jobs,
                    outputs: Ghost(outputs),
                    start: self.start,
                    private_inputs: Ghost(self.tx.private_inputs@.map_values(|p: String| p@)),
                };
                Ok(p)
            },
            Err(e) => Err(e),
        }
    }

    pub fn is_complete(&self) -> (r: bool)
        ensures
            r == self.phase() is Complete,
    {
        matches!(self.phase, Phase::Complete)
    }

    pub fn is_failed(&self) -> (r: bool)
        ensures
            r == self.phase() is Failed,
    {
        matches!(self.phase, Phase::Failed)
    }
}

/// Only a provable transaction is broadcast and proved, and every blob of
/// one produced a state in speculative execution and has its proof job: a
/// transaction in which a blob failed yields none, so nothing of it is
/// broadcast and no proof job of it exists.
pub proof fn lemma_provable_blobs_succeeded(p: &ProvableTransaction, k: int)
    requires
        p.wf(),
        0 <= k < p.blobs().len(),
    ensures
        p.outputs().len() == p.blobs().len(),
        p.outputs()[k].0 == p.blobs()[k].contract_name,
        p.job_targets().len() == p.blobs().len(),
        p.job_targets()[k] == (p.blobs()[k].contract_name, k as usize),
        p.job_input(k) == speculative_input(
            p.start_states(),
            p.blobs(),
            p.identity(),
            p.private_inputs(),
            p.outputs(),
            k,
        ),
{
    assert(p.jobs@[k].input.index == k);
}

} // verus!
