//! The proving of a transaction picked by the settlement tracker: its blobs
//! are re-executed in order against the contract states the node holds, each
//! proved and submitted, stopping after the first blob whose execution fails.
use vstd::prelude::*;
use crate::blob::{BlobModel, blob_models, copy_blobs, copy_bytes};
use crate::proving::{ProofSubmission, increasing};
use crate::speculative::{ContractInput, ExecOutcome, InputModel, input_for};
use crate::state::States;
use crate::tracker::UnsettledTx;

verus! {

/// What the driver of a replay is asked to do next.
pub enum ReplayStep {
    /// Fetch the current state of `contract_name` from the node.
    FetchState { contract_name: String },
    /// Run the contract's transition on this input.
    Execute(ContractInput),
    /// Prove the contract's transition on this input.
    Prove(ContractInput),
    /// Nothing is left to do.
    Done,
}

/// Where a replay stands.
pub enum Stage {
    /// Looking for the next blob with a prover.
    Seek,
    /// The current blob's input is out for execution.
    Executing,
    /// The current blob's input is out for proving.
    Proving,
    /// Finished: every blob was handled, a state could not be fetched, or a
    /// blob failed.
    Stopped,
}

/// The position of the first blob at or after `i` whose contract has a
/// prover; `blobs.len()` when there is none.
pub open spec fn next_provable(blobs: Seq<BlobModel>, provers: Seq<Seq<char>>, i: int) -> int
    decreases blobs.len() - i,
{
    if i >= blobs.len() {
        blobs.len() as int
    } else if provers.contains(blobs[i].contract_name) {
        i
    } else {
        next_provable(blobs, provers, i + 1)
    }
}

proof fn lemma_next_provable_range(blobs: Seq<BlobModel>, provers: Seq<Seq<char>>, i: int)
    requires
        0 <= i <= blobs.len(),
    ensures
        i <= next_provable(blobs, provers, i) <= blobs.len(),
        next_provable(blobs, provers, i) < blobs.len() ==> provers.contains(
            blobs[next_provable(blobs, provers, i)].contract_name,
        ),
    decreases blobs.len() - i,
{
    if i < blobs.len() && !provers.contains(blobs[i].contract_name) {
        lemma_next_provable_range(blobs, provers, i + 1);
    }
}

/// The replay of one transaction's blobs for proving.
pub struct BlobTxProver {
    tx: UnsettledTx,
    provers: Vec<String>,
    states: States,
    index: usize,
    stage: Stage,
    success: bool,
    pending: Option<ContractInput>,
    attempts: Ghost<Seq<usize>>,
}

impl BlobTxProver {
    pub closed spec fn blobs(&self) -> Seq<BlobModel> {
        blob_models(self.tx.blobs@)
    }

    /// The contracts that have a prover.
    pub closed spec fn provers(&self) -> Seq<Seq<char>> {
        self.provers@.map_values(|p: String| p@)
    }

    /// The contract states known so far.
    pub closed spec fn states(&self) -> Map<Seq<char>, Seq<u8>> {
        self.states@
    }

    /// The position of the blob being handled.
    pub closed spec fn index(&self) -> nat {
        self.index as nat
    }

    pub closed spec fn stage(&self) -> Stage {
        self.stage
    }

    /// Whether the current blob's execution succeeded.
    pub closed spec fn succeeded(&self) -> bool {
        self.success
    }

    /// The blob positions whose proofs were handed over for submission.
    pub closed spec fn attempts(&self) -> Seq<usize> {
        self.attempts@
    }

    pub closed spec fn wf(&self) -> bool {
        let n = self.tx.blobs@.len();
        &&& self.states.wf()
        &&& self.index <= n
        &&& increasing(self.attempts@)
        &&& (self.stage is Executing || self.stage is Proving) ==> {
            &&& self.index < n
            &&& self.pending matches Some(input)
            &&& input.index == self.index
            &&& self.provers@.map_values(|p: String| p@).contains(
                self.tx.blobs@[self.index as int].contract_name@,
            )
        }
        &&& self.stage is Stopped ==> forall|i: int|
            0 <= i < self.attempts@.len() ==> #[trigger] self.attempts@[i] < n
        &&& self.stage is Stopped ==> self.attempts@.len() <= n
        &&& !(self.stage is Stopped) ==> forall|i: int|
            0 <= i < self.attempts@.len() ==> #[trigger] self.attempts@[i] < self.index
        &&& !(self.stage is Stopped) ==> self.attempts@.len() <= self.index
    }

    /// A replay of `tx`, proving the blobs of the contracts named in
    /// `provers`.
    pub fn new(tx: UnsettledTx, provers: Vec<String>) -> (r: Self)
        ensures
            r.wf(),
            r.blobs() == blob_models(tx.blobs@),
            r.provers() == provers@.map_values(|p: String| p@),
            r.states() == Map::<Seq<char>, Seq<u8>>::empty(),
            r.index() == 0,
            r.stage() is Seek,
            r.attempts() == Seq::<usize>::empty(),
    {
        BlobTxProver {
            tx,
            provers,
            states: States::new(),
            index: 0,
            stage: Stage::Seek,
            success: false,
            pending: None,
            attempts: Ghost(Seq::empty()),
        }
    }

    /// The input out for execution or proving.
    pub closed spec fn current_input(&self) -> InputModel {
        self.pending->Some_0@
    }

    pub closed spec fn tx_hash(&self) -> Seq<char> {
        self.tx.hash@
    }

    pub closed spec fn identity(&self) -> Seq<char> {
        self.tx.identity@
    }

    /// The next thing to do. In `Seek` the replay moves to the next blob
    /// with a prover and asks for its contract's state where it is not known
    /// yet, else hands out the blob's input for execution; an input out for
    /// execution or proving is handed out again; a finished replay is done.
    pub fn next_step(&mut self) -> (r: ReplayStep)
        requires
            old(self).wf(),
        ensures
            final(self).wf(),
            final(self).blobs() == old(self).blobs(),
            final(self).provers() == old(self).provers(),
            final(self).tx_hash() == old(self).tx_hash(),
            final(self).identity() == old(self).identity(),
            final(self).states() == old(self).states(),
            final(self).attempts() == old(self).attempts(),
            final(self).succeeded() == old(self).succeeded(),
            old(self).stage() is Stopped ==> r is Done && final(self).stage() is Stopped,
            old(self).stage() is Executing ==> r is Execute && r->Execute_0@ == old(self).current_input()
                && final(self).stage() is Executing && final(self).index() == old(self).index()
                && final(self).current_input() == old(self).current_input(),
            old(self).stage() is Proving ==> r is Prove && r->Prove_0@ == old(self).current_input()
                && final(self).stage() is Proving && final(self).index() == old(self).index()
                && final(self).current_input() == old(self).current_input(),
            old(self).stage() is Seek ==> {
                let j = next_provable(old(self).blobs(), old(self).provers(), old(self).index() as int);
                &&& final(self).index() == j
                &&& if j == old(self).blobs().len() {
                    final(self).stage() is Stopped && r is Done
                } else if !old(self).states().contains_key(old(self).blobs()[j].contract_name) {
                    &&& final(self).stage() is Seek
                    &&& r is FetchState
                    &&& r->contract_name@ == old(self).blobs()[j].contract_name
                } else {
                    let c = old(self).blobs()[j].contract_name;
                    &&& final(self).stage() is Executing
                    &&& r is Execute
                    &&& r->Execute_0.initial_state@ == old(self).states()[c]
                    &&& r->Execute_0.identity@ == old(self).identity()
                    &&& r->Execute_0.tx_hash@ == old(self).tx_hash()
                    &&& r->Execute_0.private_input@ == Seq::<char>::empty()
                    &&& blob_models(r->Execute_0.blobs@) == old(self).blobs()
                    &&& r->Execute_0.index == j
                    &&& final(self).current_input() == r->Execute_0@
                }
            },
    {
        match self.stage {
            Stage::Stopped => {
                return ReplayStep::Done;
            },
            Stage::Executing => {
                let input = self.pending.as_ref().unwrap();
                return ReplayStep::Execute(input_for(input, &input.tx_hash));
            },
            Stage::Proving => {
                let input = self.pending.as_ref().unwrap();
                return ReplayStep::Prove(input_for(input, &input.tx_hash));
            },
            Stage::Seek => {},
        }
        let n = self.tx.blobs.len();
        while self.index < n
            invariant
                self.wf(),
                self.stage is Seek,
                n == self.tx.blobs@.len(),
                self.tx == old(self).tx,
                self.provers == old(self).provers,
                self.states == old(self).states,
                self.attempts == old(self).attempts,
                self.success == old(self).success,
                old(self).index <= self.index,
                next_provable(self.blobs(), self.provers(), self.index as int) == next_provable(
                    self.blobs(),
                    self.provers(),
                    old(self).index as int,
                ),
            ensures
                self.wf(),
                self.stage is Seek,
                self.tx == old(self).tx,
                self.provers == old(self).provers,
                self.states == old(self).states,
                self.attempts == old(self).attempts,
                self.success == old(self).success,
                old(self).index <= self.index,
                next_provable(self.blobs(), self.provers(), self.index as int) == next_provable(
                    self.blobs(),
                    self.provers(),
                    old(self).index as int,
                ),
                self.index == n || self.provers().contains(self.blobs()[self.index as int].contract_name),
            decreases n - self.index,
        {
            if self.has_prover(&self.tx.blobs[self.index].contract_name) {
                break;
            }
            self.index = self.index + 1;
        }
        proof {
            if self.index < n {
                assert(self.blobs()[self.index as int].contract_name == self.tx.blobs@[self.index as int].contract_name@);
            }
        }
        if self.index == n {
            self.stage = Stage::Stopped;
            return ReplayStep::Done;
        }
        let i = self.index;
        let name = &self.tx.blobs[i].contract_name;
        match self.states.for_token(name) {
            Ok(state) => {
                let input = ContractInput {
                    initial_state: copy_bytes(state),
                    identity: self.tx.identity.clone(),
                    tx_hash: self.tx.hash.clone(),
                    private_input: String::new(),
                    blobs: copy_blobs(&self.tx.blobs),
                    index: i,
                };
                self.pending = Some(input_for(&input, &input.tx_hash));
                self.stage = Stage::Executing;
                ReplayStep::Execute(input)
            },
            Err(_) => ReplayStep::FetchState { contract_name: name.clone() },
        }
    }

    /// Takes the state fetched for the contract of the current blob; `None`
    /// where the node could not give it, which ends the replay. Outside of
    /// `Seek` at a blob, nothing changes.
    pub fn state_fetched(&mut self, state: Option<Vec<u8>>)
        requires
            old(self).wf(),
        ensures
            final(self).wf(),
            final(self).blobs() == old(self).blobs(),
            final(self).provers() == old(self).provers(),
            final(self).tx_hash() == old(self).tx_hash(),
            final(self).identity() == old(self).identity(),
            final(self).attempts() == old(self).attempts(),
            final(self).index() == old(self).index(),
            final(self).succeeded() == old(self).succeeded(),
            !(old(self).stage() is Seek && old(self).index() < old(self).blobs().len()) ==> *final(self)
                == *old(self),
            old(self).stage() is Seek && old(self).index() < old(self).blobs().len() ==> match state {
                Some(s) => final(self).stage() is Seek && final(self).states() == old(self).states().insert(
                    old(self).blobs()[old(self).index() as int].contract_name,
                    s@,
                ),
                None => final(self).stage() is Stopped && final(self).states() == old(self).states(),
            },
    {
        if !matches!(self.stage, Stage::Seek) || self.index >= self.tx.blobs.len() {
            return;
        }
        match state {
            Some(s) => {
                let name = self.tx.blobs[self.index].contract_name.clone();
                self.states.insert(name, s);
            },
            None => {
                self.stage = Stage::Stopped;
            },
        }
    }

    /// Takes the outcome of executing the current blob; `None` where the
    /// execution itself failed, which counts as an unsuccessful outcome. The
    /// contract's state becomes the one the execution produced, and the
    /// blob's input goes out for proving. Outside of `Executing`, nothing
    /// changes.
    pub fn executed(&mut self, outcome: Option<ExecOutcome>)
        requires
            old(self).wf(),
        ensures
            final(self).wf(),
            final(self).blobs() == old(self).blobs(),
            final(self).provers() == old(self).provers(),
            final(self).tx_hash() == old(self).tx_hash(),
            final(self).identity() == old(self).identity(),
            final(self).attempts() == old(self).attempts(),
            final(self).index() == old(self).index(),
            !(old(self).stage() is Executing) ==> *final(self) == *old(self),
            old(self).stage() is Executing ==> {
                &&& final(self).stage() is Proving
                &&& final(self).current_input() == old(self).current_input()
                &&& match outcome {
                    Some(o) => {
                        &&& final(self).succeeded() == o.success
                        &&& final(self).states() == old(self).states().insert(
                            old(self).blobs()[old(self).index() as int].contract_name,
                            o.next_state@,
                        )
                    },
                    None => !final(self).succeeded() && final(self).states() == old(self).states(),
                }
            },
    {
        if !matches!(self.stage, Stage::Executing) {
            return;
        }
        match outcome {
            Some(o) => {
                let name = self.tx.blobs[self.index].contract_name.clone();
                self.states.insert(name, o.next_state);
                self.success = o.success;
            },
            None => {
                self.success = false;
            },
        }
        self.stage = Stage::Proving;
    }

    /// Takes the result of proving the current blob and returns the proof's
    /// submission. A proof of a blob whose execution failed is still
    /// submitted, and then the replay stops; a failed proving moves on to the
    /// next blob. Outside of `Proving`, nothing changes.
    pub fn proved(&mut self, result: Option<Vec<u8>>) -> (r: Option<ProofSubmission>)
        requires
            old(self).wf(),
        ensures
            final(self).wf(),
            final(self).blobs() == old(self).blobs(),
            final(self).provers() == old(self).provers(),
            final(self).tx_hash() == old(self).tx_hash(),
            final(self).identity() == old(self).identity(),
            final(self).states() == old(self).states(),
            !(old(self).stage() is Proving) ==> (*final(self) == *old(self) && (r is None)),
            old(self).stage() is Proving ==> match result {
                Some(p) => {
                    &&& r is Some
                    &&& r->Some_0.tx_hash@ == old(self).tx_hash()
                    &&& r->Some_0.contract_name@ == old(self).blobs()[old(self).index() as int].contract_name
                    &&& r->Some_0.proof_bytes@ == p@
                    &&& final(self).attempts() == old(self).attempts().push(old(self).index() as usize)
                    &&& if old(self).succeeded() {
                        final(self).stage() is Seek && final(self).index() == old(self).index() + 1
                    } else {
                        final(self).stage() is Stopped && final(self).index() == old(self).index()
                    }
                },
                None => {
                    &&& r is None
                    &&& final(self).attempts() == old(self).attempts()
                    &&& final(self).stage() is Seek
                    &&& final(self).index() == old(self).index() + 1
                },
            },
    {
        if !matches!(self.stage, Stage::Proving) {
            return None;
        }
        let i = self.index;
        let n = self.tx.blobs.len();
        assert(i < n);
        match result {
            Some(p) => {
                proof {
                    let a = self.attempts@;
                    self.attempts@ = a.push(i);
                    assert forall|x: int, y: int| 0 <= x < y < self.attempts@.len() implies self.attempts@[x]
                        < self.attempts@[y] by {
                        if y < a.len() {
                            assert(a[x] < a[y]);
                        } else {
                            assert(a[x] < i);
                        }
                    }
                }
                let sub = ProofSubmission {
                    tx_hash: self.tx.hash.clone(),
                    contract_name: self.tx.blobs[i].contract_name.clone(),
                    proof_bytes: p,
                };
                if self.success {
                    self.index = i + 1;
                    self.stage = Stage::Seek;
                } else {
                    self.stage = Stage::Stopped;
                }
                Some(sub)
            },
            None => {
                self.index = i + 1;
                self.stage = Stage::Seek;
                None
            },
        }
    }

    /// Whether `name` has a prover.
    fn has_prover(&self, name: &String) -> (r: bool)
        ensures
            r == self.provers().contains(name@),
    {
        let mut i: usize = 0;
        while i < self.provers.len()
            invariant
                i <= self.provers@.len(),
                forall|m: int| 0 <= m < i ==> #[trigger] self.provers@[m]@ != name@,
            decreases self.provers.len() - i,
        {
            if self.provers[i] == *name {
                assert(self.provers()[i as int] == name@);
                return true;
            }
            i = i + 1;
        }
        proof {
            if self.provers().contains(name@) {
                let w = choose|w: int| 0 <= w < self.provers().len() && self.provers()[w] == name@;
                assert(self.provers@[w]@ == name@);
            }
        }
        false
    }
}

/// A replay makes at most one submission per blob, in increasing blob
/// order.
pub proof fn lemma_replay_attempts_bounded_and_ordered(p: &BlobTxProver)
    requires
        p.wf(),
    ensures
        p.attempts().len() <= p.blobs().len(),
        increasing(p.attempts()),
        forall|i: int| 0 <= i < p.attempts().len() ==> #[trigger] p.attempts()[i] < p.blobs().len(),
{
    assert forall|i: int| 0 <= i < p.attempts().len() implies #[trigger] p.attempts()[i] < p.blobs().len() by {
        assert(p.attempts@[i] < p.tx.blobs@.len());
    }
}

} // verus!
