//! The composite transaction builder: an append-only arena of blobs whose
//! caller/callee links are positions in the arena.
use vstd::prelude::*;
use crate::blob::{Action, ActionModel, Blob, BlobModel, blob_models, copy_indices};

verus! {

/// What can stop a composite transaction before it is broadcast.
#[derive(Debug)]
pub enum BuildError {
    /// A caller or callee position that names no blob yet.
    InvalidBlobIndex { index: usize },
    /// The identity contract holds no account for the signer.
    UnknownIdentity,
    /// The pool holds no pair for the two tokens of a swap.
    PairNotFound,
    /// A blob targets a contract whose state is not known.
    UnknownContract { contract_name: String },
    /// The contract rejected the transition of blob `index`.
    ExecutionFailed { index: usize, program_output: Vec<u8> },
}

/// `e` reports the contract `name` as unknown.
pub open spec fn is_unknown_contract(e: BuildError, name: Seq<char>) -> bool {
    e matches BuildError::UnknownContract { contract_name } && contract_name@ == name
}

/// Every position of `cs` is below `n`.
pub open spec fn all_below(cs: Seq<usize>, n: nat) -> bool {
    forall|k: int| 0 <= k < cs.len() ==> cs[k] < n
}

/// Every caller and callee position of `s` names a blob of `s`.
pub open spec fn refs_in_range(s: Seq<BlobModel>) -> bool {
    forall|i: int| 0 <= i < s.len() ==> #[trigger] blob_refs_below(s[i], s.len())
}

/// Every position that `b` refers to is below `n`.
pub open spec fn blob_refs_below(b: BlobModel, n: nat) -> bool {
    &&& (b.caller is Some ==> b.caller->Some_0 < n)
    &&& (b.callees is Some ==> all_below(b.callees->Some_0, n))
}

/// A blob's caller precedes it and lists it among its callees.
pub open spec fn callers_linked(s: Seq<BlobModel>) -> bool {
    forall|j: int|
        0 <= j < s.len() ==> (#[trigger] s[j].caller matches Some(c) ==> {
            &&& c < j
            &&& s[c as int].callees matches Some(cs)
            &&& cs.contains(j as usize)
        })
}

/// The invariant of a blob sequence under construction.
pub open spec fn blobs_wf(s: Seq<BlobModel>) -> bool {
    refs_in_range(s) && callers_linked(s)
}

/// The blob list of `callees`, with `j` added.
pub open spec fn with_callee(callees: Option<Seq<usize>>, j: usize) -> Option<Seq<usize>> {
    match callees {
        Some(cs) => Some(cs.push(j)),
        None => Some(seq![j]),
    }
}

/// `s` after a blob at position `j` named `c` as its caller.
pub open spec fn link_caller(s: Seq<BlobModel>, caller: Option<usize>, j: usize) -> Seq<BlobModel> {
    match caller {
        Some(c) => s.update(
            c as int,
            BlobModel { callees: with_callee(s[c as int].callees, j), ..s[c as int] },
        ),
        None => s,
    }
}

/// The sequence that appending a blob to `s` yields.
pub open spec fn appended(
    s: Seq<BlobModel>,
    contract_name: Seq<char>,
    action: ActionModel,
    caller: Option<usize>,
    callees: Option<Seq<usize>>,
) -> Seq<BlobModel> {
    link_caller(s, caller, s.len() as usize).push(
        BlobModel { contract_name, action, caller, callees },
    )
}

/// The references that an append may record: all name existing blobs.
pub open spec fn refs_valid(len: nat, caller: Option<usize>, callees: Option<Seq<usize>>) -> bool {
    &&& (caller is Some ==> caller->Some_0 < len)
    &&& (callees is Some ==> all_below(callees->Some_0, len))
}

/// The blobs that a swap of `amount` of `token_a` for `paired` of `token_b`
/// through the pool `amm` appends to `s` for the signer `identity`.
pub open spec fn swap_blobs(
    s: Seq<BlobModel>,
    identity: Seq<char>,
    amm: Seq<char>,
    token_a: Seq<char>,
    token_b: Seq<char>,
    amount: u128,
    paired: u128,
) -> Seq<BlobModel> {
    let i = s.len() as usize;
    let s1 = appended(
        s,
        amm,
        ActionModel::Swap { from: identity, token_a, token_b },
        None,
        None,
    );
    let s2 = appended(
        s1,
        token_a,
        ActionModel::TransferFrom { sender: identity, recipient: amm, amount },
        Some(i),
        None,
    );
    appended(
        s2,
        token_b,
        ActionModel::Transfer { recipient: identity, amount: paired },
        Some(i),
        None,
    )
}

/// A finished composite transaction: a signer and its blobs, with the private
/// input that each blob is executed and proved with.
pub struct CompositeTransaction {
    pub identity: String,
    pub blobs: Vec<Blob>,
    pub private_inputs: Vec<String>,
}

impl CompositeTransaction {
    pub open spec fn wf(&self) -> bool {
        &&& blobs_wf(blob_models(self.blobs@))
        &&& self.private_inputs@.len() == self.blobs@.len()
    }
}

/// Accumulates the blobs of one composite transaction for one identity.
pub struct TransactionBuilder {
    identity: String,
    blobs: Vec<Blob>,
    private_inputs: Vec<String>,
}

impl TransactionBuilder {
    pub closed spec fn identity(&self) -> Seq<char> {
        self.identity@
    }

    pub closed spec fn blobs(&self) -> Seq<BlobModel> {
        blob_models(self.blobs@)
    }

    /// The private input of each blob, by position.
    pub closed spec fn private_inputs(&self) -> Seq<Seq<char>> {
        self.private_inputs@.map_values(|p: String| p@)
    }

    pub closed spec fn wf(&self) -> bool {
        &&& blobs_wf(blob_models(self.blobs@))
        &&& self.private_inputs@.len() == self.blobs@.len()
    }

    /// An empty builder for `identity`.
    pub fn new(identity: String) -> (r: Self)
        ensures
            r.wf(),
            r.identity() == identity@,
            r.blobs() == Seq::<BlobModel>::empty(),
    {
        let r = TransactionBuilder { identity, blobs: Vec::new(), private_inputs: Vec::new() };
        assert(blob_models(r.blobs@) =~= Seq::<BlobModel>::empty());
        r
    }

    /// Appends a blob at the next position and returns that position.
    ///
    /// Every given caller and callee position must name a blob that already
    /// exists; otherwise nothing changes. A blob that names a caller is added
    /// to that caller's callees, so a caller always precedes its callees.
    pub fn append(
        &mut self,
        contract_name: String,
        action: Action,
        caller: Option<usize>,
        callees: Option<Vec<usize>>,
        private_input: String,
    ) -> (r: Result<usize, BuildError>)
        requires
            old(self).wf(),
            old(self).blobs().len() < usize::MAX,
        ensures
            final(self).wf(),
            final(self).identity() == old(self).identity(),
            ({
                let callees_model = match callees {
                    Some(cs) => Some(cs@),
                    None => None,
                };
                if refs_valid(old(self).blobs().len(), caller, callees_model) {
                    &&& r matches Ok(i) && i == old(self).blobs().len()
                    &&& final(self).blobs() == appended(
                        old(self).blobs(),
                        contract_name@,
                        action@,
                        caller,
                        callees_model,
                    )
                    &&& final(self).private_inputs() == old(self).private_inputs().push(private_input@)
                } else {
                    &&& r matches Err(BuildError::InvalidBlobIndex { .. })
                    &&& *final(self) == *old(self)
                }
            }),
    {
        let n = self.blobs.len();
        if let Some(c) = caller {
            if c >= n {
                return Err(BuildError::InvalidBlobIndex { index: c });
            }
        }
        if let Some(cs) = &callees {
            let mut k: usize = 0;
            while k < cs.len()
                invariant
                    k <= cs.len(),
                    forall|m: int| 0 <= m < k ==> cs@[m] < n,
                    *self == *old(self),
                    callees == Some(*cs),
                    n == old(self).blobs@.len(),
                    old(self).wf(),
                decreases cs.len() - k,
            {
                if cs[k] >= n {
                    assert(cs@[k as int] >= n);
                    assert(!all_below(cs@, n as nat));
                    assert(!refs_valid(n as nat, caller, Some(cs@)));
                    return Err(BuildError::InvalidBlobIndex { index: cs[k] });
                }
                k = k + 1;
            }
        }
        let ghost before = blob_models(self.blobs@);
        if let Some(c) = caller {
            let old_blob = &self.blobs[c];
            assert(before[c as int] == old_blob@);
            let linked = match &old_blob.callees {
                Some(cs) => {
                    let mut v = copy_indices(cs);
                    v.push(n);
                    v
                },
                None => vec![n],
            };
            let updated = Blob {
                contract_name: old_blob.contract_name.clone(),
                action: old_blob.action.clone(),
                caller: old_blob.caller,
                callees: Some(linked),
            };
            assert(updated@.contract_name == before[c as int].contract_name);
            assert(updated@.action == before[c as int].action);
            assert(updated@.caller == before[c as int].caller);
            assert(updated@.callees == with_callee(before[c as int].callees, n));
            assert(updated@ == BlobModel { callees: with_callee(before[c as int].callees, n), ..before[c as int] });
            self.blobs.set(c, updated);
            assert(blob_models(self.blobs@) =~= link_caller(before, caller, n));
        }
        assert(blob_models(self.blobs@) =~= link_caller(before, caller, n));
        self.blobs.push(Blob { contract_name, action, caller, callees });
        self.private_inputs.push(private_input);
        proof {
            let s = blob_models(self.blobs@);
            assert(s =~= appended(before, s[n as int].contract_name, s[n as int].action, caller, s[n as int].callees));
            assert(self.private_inputs@.map_values(|p: String| p@) =~= old(self).private_inputs@.map_values(|p: String| p@).push(private_input@));
            assert forall|i: int| 0 <= i < s.len() implies #[trigger] blob_refs_below(s[i], s.len()) by {
                if i < n {
                    assert(blob_refs_below(before[i], before.len()));
                }
            }
            assert forall|j: int| 0 <= j < s.len() implies (#[trigger] s[j].caller matches Some(c) ==> {
                &&& c < j
                &&& s[c as int].callees matches Some(cs)
                &&& cs.contains(j as usize)
            }) by {
                if j < n {
                    if let Some(c) = s[j].caller {
                        assert(before[j].caller == Some(c));
                        let cs0 = before[c as int].callees->Some_0;
                        assert(cs0.contains(j as usize));
                        if caller == Some(c) {
                            let cs1 = s[c as int].callees->Some_0;
                            assert(cs1 == cs0.push(n));
                            let w = choose|w: int| 0 <= w < cs0.len() && cs0[w] == j as usize;
                            assert(cs1[w] == j as usize);
                        }
                    }
                } else if let Some(c) = caller {
                    let cs1 = s[c as int].callees->Some_0;
                    assert(cs1[cs1.len() - 1] == n);
                }
            }
        }
        Ok(n)
    }

    /// Appends a registration of the signer with the identity contract
    /// `contract_name`, proved with `password`.
    pub fn register_identity(&mut self, contract_name: String, password: String)
        requires
            old(self).wf(),
            old(self).blobs().len() < usize::MAX,
        ensures
            final(self).wf(),
            final(self).identity() == old(self).identity(),
            final(self).blobs() == appended(
                old(self).blobs(),
                contract_name@,
                ActionModel::RegisterIdentity { account: old(self).identity() },
                None,
                None,
            ),
            final(self).private_inputs() == old(self).private_inputs().push(password@),
    {
        let account = self.identity.clone();
        let _ = self.append(contract_name, Action::RegisterIdentity { account }, None, None, password);
    }

    /// Appends a proof of identity of the signer for the identity contract
    /// `contract_name`. `nonce` is the signer's nonce as that contract holds
    /// it, `None` where it holds no account for the signer.
    pub fn verify_identity(
        &mut self,
        contract_name: String,
        nonce: Option<u32>,
        password: String,
    ) -> (r: Result<(), BuildError>)
        requires
            old(self).wf(),
            old(self).blobs().len() < usize::MAX,
        ensures
            final(self).wf(),
            final(self).identity() == old(self).identity(),
            match nonce {
                Some(n) => {
                    &&& r is Ok
                    &&& final(self).blobs() == appended(
                        old(self).blobs(),
                        contract_name@,
                        ActionModel::VerifyIdentity { account: old(self).identity(), nonce: n },
                        None,
                        None,
                    )
                    &&& final(self).private_inputs() == old(self).private_inputs().push(password@)
                },
                None => {
                    &&& r matches Err(BuildError::UnknownIdentity)
                    &&& *final(self) == *old(self)
                },
            },
    {
        match nonce {
            Some(n) => {
                let account = self.identity.clone();
                let action = Action::VerifyIdentity { account, nonce: n };
                let _ = self.append(contract_name, action, None, None, password);
                Ok(())
            },
            None => Err(BuildError::UnknownIdentity),
        }
    }

    /// Appends a transfer of `amount` tokens of `token` from the signer to
    /// `recipient`.
    pub fn transfer(&mut self, token: String, recipient: String, amount: u128)
        requires
            old(self).wf(),
            old(self).blobs().len() < usize::MAX,
        ensures
            final(self).wf(),
            final(self).identity() == old(self).identity(),
            final(self).blobs() == appended(
                old(self).blobs(),
                token@,
                ActionModel::Transfer { recipient: recipient@, amount },
                None,
                None,
            ),
            final(self).private_inputs() == old(self).private_inputs().push(Seq::empty()),
    {
        let _ = self.append(token, Action::Transfer { recipient, amount }, None, None, String::new());
    }

    /// Appends an allowance for `spender` to move up to `amount` tokens of
    /// `token` on the signer's behalf.
    pub fn approve(&mut self, token: String, spender: String, amount: u128)
        requires
            old(self).wf(),
            old(self).blobs().len() < usize::MAX,
        ensures
            final(self).wf(),
            final(self).identity() == old(self).identity(),
            final(self).blobs() == appended(
                old(self).blobs(),
                token@,
                ActionModel::Approve { spender: spender@, amount },
                None,
                None,
            ),
            final(self).private_inputs() == old(self).private_inputs().push(Seq::empty()),
    {
        let _ = self.append(token, Action::Approve { spender, amount }, None, None, String::new());
    }

    /// Appends a swap of `amount` of `token_a` for `token_b` through the pool
    /// `amm`. `paired_amount` is what the pool's current state pays in
    /// `token_b` for that amount, `None` where it holds no such pair.
    ///
    /// The pool's blob comes first; the transfer into the pool and the
    /// transfer out of it follow, each with the pool's blob as caller.
    pub fn swap(
        &mut self,
        amm: String,
        token_a: String,
        token_b: String,
        amount: u128,
        paired_amount: Option<u128>,
    ) -> (r: Result<(), BuildError>)
        requires
            old(self).wf(),
            old(self).blobs().len() + 3 <= usize::MAX,
        ensures
            final(self).wf(),
            final(self).identity() == old(self).identity(),
            match paired_amount {
                Some(b) => {
                    &&& r is Ok
                    &&& final(self).blobs() == swap_blobs(
                        old(self).blobs(),
                        old(self).identity(),
                        amm@,
                        token_a@,
                        token_b@,
                        amount,
                        b,
                    )
                    &&& final(self).private_inputs() == old(self).private_inputs().push(
                        Seq::empty(),
                    ).push(Seq::empty()).push(Seq::empty())
                },
                None => {
                    &&& r matches Err(BuildError::PairNotFound)
                    &&& *final(self) == *old(self)
                },
            },
    {
        let amount_b = match paired_amount {
            Some(b) => b,
            None => {
                return Err(BuildError::PairNotFound);
            },
        };
        let swap_index = self.blobs.len();
        let pool = Action::Swap {
            from: self.identity.clone(),
            token_a: token_a.clone(),
            token_b: token_b.clone(),
        };
        let pool_name = amm.clone();
        let _ = self.append(amm, pool, None, None, String::new());
        let pull = Action::TransferFrom {
            sender: self.identity.clone(),
            recipient: pool_name,
            amount,
        };
        let _ = self.append(token_a, pull, Some(swap_index), None, String::new());
        let pay = Action::Transfer { recipient: self.identity.clone(), amount: amount_b };
        let _ = self.append(token_b, pay, Some(swap_index), None, String::new());
        Ok(())
    }

    /// The finished transaction; the builder is consumed.
    pub fn freeze(self) -> (r: CompositeTransaction)
        requires
            self.wf(),
        ensures
            r.wf(),
            r.identity@ == self.identity(),
            blob_models(r.blobs@) == self.blobs(),
            r.private_inputs@.map_values(|p: String| p@) == self.private_inputs(),
    {
        CompositeTransaction {
            identity: self.identity,
            blobs: self.blobs,
            private_inputs: self.private_inputs,
        }
    }

    /// The number of blobs appended so far.
    pub fn len(&self) -> (r: usize)
        ensures
            r == self.blobs().len(),
    {
        self.blobs.len()
    }

    /// The signer of the transaction.
    pub fn identity_name(&self) -> (r: &String)
        ensures
            r@ == self.identity(),
    {
        &self.identity
    }
}

/// A swap appends three blobs at positions `i`, `i + 1` and `i + 2`: the
/// pool's blob, with the other two as its callees, then the two transfers,
/// each with the pool's blob as caller. The blobs before them are unchanged.
pub proof fn lemma_swap_layout(
    s: Seq<BlobModel>,
    identity: Seq<char>,
    amm: Seq<char>,
    token_a: Seq<char>,
    token_b: Seq<char>,
    amount: u128,
    paired: u128,
)
    requires
        s.len() + 3 <= usize::MAX,
    ensures
        ({
            let r = swap_blobs(s, identity, amm, token_a, token_b, amount, paired);
            let i = s.len() as int;
            &&& r.len() == i + 3
            &&& r.subrange(0, i) == s
            &&& r[i].contract_name == amm
            &&& r[i].caller is None
            &&& r[i].callees == Some(seq![(i + 1) as usize, (i + 2) as usize])
            &&& r[i + 1].contract_name == token_a
            &&& r[i + 1].caller == Some(i as usize)
            &&& r[i + 1].action == ActionModel::TransferFrom { sender: identity, recipient: amm, amount }
            &&& r[i + 2].contract_name == token_b
            &&& r[i + 2].caller == Some(i as usize)
            &&& r[i + 2].action == ActionModel::Transfer { recipient: identity, amount: paired }
        }),
{
    let r = swap_blobs(s, identity, amm, token_a, token_b, amount, paired);
    let i = s.len() as int;
    assert(r.subrange(0, i) =~= s);
    assert(seq![(i + 1) as usize].push((i + 2) as usize) =~= seq![(i + 1) as usize, (i + 2) as usize]);
}

/// A builder after a swap on the blobs `s`: the blobs before stay as they
/// were and are never renumbered, the pool's blob at `s.len()` has the two
/// transfers as callees, each transfer has it as caller, and every caller or
/// callee position recorded names a blob that exists.
pub proof fn lemma_swap_in_builder(
    b: &TransactionBuilder,
    s: Seq<BlobModel>,
    identity: Seq<char>,
    amm: Seq<char>,
    token_a: Seq<char>,
    token_b: Seq<char>,
    amount: u128,
    paired: u128,
)
    requires
        b.wf(),
        s.len() + 3 <= usize::MAX,
        b.blobs() == swap_blobs(s, identity, amm, token_a, token_b, amount, paired),
    ensures
        ({
            let r = b.blobs();
            let n = s.len() as int;
            &&& r.len() == n + 3
            &&& r.subrange(0, n) == s
            &&& r[n].callees == Some(seq![(n + 1) as usize, (n + 2) as usize])
            &&& r[n + 1].caller == Some(n as usize)
            &&& r[n + 2].caller == Some(n as usize)
            &&& forall|i: int| 0 <= i < r.len() ==> #[trigger] blob_refs_below(r[i], r.len())
        }),
{
    lemma_swap_layout(s, identity, amm, token_a, token_b, amount, paired);
    assert forall|i: int| 0 <= i < b.blobs().len() implies #[trigger] blob_refs_below(b.blobs()[i], b.blobs().len()) by {
        lemma_references_in_range(b, i);
    }
}

/// In a builder every caller and callee position names a blob that exists,
/// and a blob's caller comes before it: no position refers forward of the
/// blob that recorded it at the time it was recorded.
pub proof fn lemma_references_in_range(b: &TransactionBuilder, i: int)
    requires
        b.wf(),
        0 <= i < b.blobs().len(),
    ensures
        blob_refs_below(b.blobs()[i], b.blobs().len()),
        b.blobs()[i].caller matches Some(c) ==> c < i,
{
    assert(blob_refs_below(b.blobs()[i], b.blobs().len()));
}

} // verus!
