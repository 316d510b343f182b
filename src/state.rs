//! The contract state cache: one state snapshot per known contract.
use vstd::prelude::*;
use crate::blob::copy_bytes;
use crate::builder::{BuildError, is_unknown_contract};

verus! {

/// The state a contract reached, as produced by one speculative execution.
pub struct ExecutionResult {
    pub contract_name: String,
    pub state: Vec<u8>,
}

/// The models of a sequence of execution results.
pub open spec fn result_models(rs: Seq<ExecutionResult>) -> Seq<(Seq<char>, Seq<u8>)> {
    rs.map_values(|r: ExecutionResult| (r.contract_name@, r.state@))
}

/// Every result of `rs` names a contract of `m`.
pub open spec fn all_known(m: Map<Seq<char>, Seq<u8>>, rs: Seq<(Seq<char>, Seq<u8>)>) -> bool {
    forall|i: int| 0 <= i < rs.len() ==> m.contains_key(#[trigger] rs[i].0)
}

/// `m` with the states of `rs` recorded in order, a later one replacing an
/// earlier one of the same contract.
pub open spec fn apply_results(
    m: Map<Seq<char>, Seq<u8>>,
    rs: Seq<(Seq<char>, Seq<u8>)>,
) -> Map<Seq<char>, Seq<u8>>
    decreases rs.len(),
{
    if rs.len() == 0 {
        m
    } else {
        apply_results(m, rs.drop_last()).insert(rs.last().0, rs.last().1)
    }
}

/// Where the result at `i` names an unknown contract, not all are known.
proof fn lemma_all_known_prefix(m: Map<Seq<char>, Seq<u8>>, rs: Seq<(Seq<char>, Seq<u8>)>, i: int)
    requires
        0 <= i < rs.len(),
        !m.contains_key(rs[i].0),
    ensures
        !all_known(m, rs),
{
}

/// One snapshot per known contract, keyed by contract name.
pub struct States {
    entries: Vec<(String, Vec<u8>)>,
    model: Ghost<Map<Seq<char>, Seq<u8>>>,
}

impl View for States {
    type V = Map<Seq<char>, Seq<u8>>;

    closed spec fn view(&self) -> Map<Seq<char>, Seq<u8>> {
        self.model@
    }
}

impl States {
    pub closed spec fn wf(&self) -> bool {
        &&& forall|i: int, j: int|
            0 <= i < j < self.entries@.len() ==> #[trigger] self.entries@[i].0@
                != #[trigger] self.entries@[j].0@
        &&& forall|i: int|
            0 <= i < self.entries@.len() ==> #[trigger] self.model@.contains_key(
                self.entries@[i].0@,
            ) && self.model@[self.entries@[i].0@] == self.entries@[i].1@
        &&& forall|k: Seq<char>|
            #[trigger] self.model@.contains_key(k) ==> exists|i: int|
                0 <= i < self.entries@.len() && #[trigger] self.entries@[i].0@ == k
    }

    /// A cache that knows no contract.
    pub fn new() -> (r: Self)
        ensures
            r.wf(),
            r@ == Map::<Seq<char>, Seq<u8>>::empty(),
    {
        States { entries: Vec::new(), model: Ghost(Map::empty()) }
    }

    /// The position of `name` among the entries.
    fn position(&self, name: &String) -> (r: Option<usize>)
        requires
            self.wf(),
        ensures
            r is Some <==> self@.contains_key(name@),
            r matches Some(i) ==> i < self.entries@.len() && self.entries@[i as int].0@ == name@,
    {
        let mut i: usize = 0;
        while i < self.entries.len()
            invariant
                self.wf(),
                i <= self.entries@.len(),
                forall|m: int| 0 <= m < i ==> #[trigger] self.entries@[m].0@ != name@,
            decreases self.entries.len() - i,
        {
            if self.entries[i].0 == *name {
                return Some(i);
            }
            i = i + 1;
        }
        proof {
            if self@.contains_key(name@) {
                let w = choose|w: int| 0 <= w < self.entries@.len() && #[trigger] self.entries@[w].0@ == name@;
                assert(self.entries@[w].0@ != name@);
            }
        }
        None
    }

    /// Whether a state is known for `name`.
    pub fn contains(&self, name: &String) -> (r: bool)
        requires
            self.wf(),
        ensures
            r == self@.contains_key(name@),
    {
        self.position(name).is_some()
    }

    /// The state known for the contract `name`.
    pub fn for_token(&self, name: &String) -> (r: Result<&Vec<u8>, BuildError>)
        requires
            self.wf(),
        ensures
            match r {
                Ok(s) => self@.contains_key(name@) && s@ == self@[name@],
                Err(e) => !self@.contains_key(name@) && is_unknown_contract(e, name@),
            },
    {
        match self.position(name) {
            Some(i) => Ok(&self.entries[i].1),
            None => Err(BuildError::UnknownContract { contract_name: name.clone() }),
        }
    }

    /// Replaces the state of the known contract `name`; a contract that is
    /// not known is refused and nothing changes.
    pub fn update_for_token(&mut self, name: &String, state: Vec<u8>) -> (r: Result<(), BuildError>)
        requires
            old(self).wf(),
        ensures
            final(self).wf(),
            old(self)@.contains_key(name@) ==> r is Ok && final(self)@ == old(self)@.insert(name@, state@),
            !old(self)@.contains_key(name@) ==> *final(self) == *old(self) && r is Err
                && is_unknown_contract(r->Err_0, name@),
    {
        if self.contains(name) {
            self.insert(name.clone(), state);
            Ok(())
        } else {
            Err(BuildError::UnknownContract { contract_name: name.clone() })
        }
    }

    /// Applies the states of `results` in order, all or none: where one
    /// names a contract that is not known, nothing changes.
    pub fn from_exec_results(&mut self, results: Vec<ExecutionResult>) -> (r: Result<(), BuildError>)
        requires
            old(self).wf(),
        ensures
            final(self).wf(),
            all_known(old(self)@, result_models(results@)) ==> r is Ok && final(self)@
                == apply_results(old(self)@, result_models(results@)),
            !all_known(old(self)@, result_models(results@)) ==> *final(self) == *old(self)
                && r matches Err(BuildError::UnknownContract { .. }),
    {
        let mut next = self.copy();
        let mut i: usize = 0;
        while i < results.len()
            invariant
                self.wf(),
                next.wf(),
                *self == *old(self),
                i <= results@.len(),
                all_known(self@, result_models(results@).subrange(0, i as int)),
                next@ == apply_results(self@, result_models(results@).subrange(0, i as int)),
                next@.dom() == self@.dom(),
            decreases results.len() - i,
        {
            let ghost done = result_models(results@).subrange(0, i as int);
            let ghost more = result_models(results@).subrange(0, i + 1);
            assert(more.drop_last() =~= done);
            let result = &results[i];
            if !next.contains(&result.contract_name) {
                proof {
                    lemma_all_known_prefix(self@, result_models(results@), i as int);
                }
                return Err(BuildError::UnknownContract { contract_name: result.contract_name.clone() });
            }
            let state = copy_bytes(&result.state);
            let _ = next.update_for_token(&result.contract_name, state);
            assert(next@.dom() =~= self@.dom());
            i = i + 1;
        }
        assert(result_models(results@).subrange(0, i as int) =~= result_models(results@));
        *self = next;
        Ok(())
    }

    /// Records `state` as the state of `name`, whether known before or not.
    pub fn insert(&mut self, name: String, state: Vec<u8>)
        requires
            old(self).wf(),
        ensures
            final(self).wf(),
            final(self)@ == old(self)@.insert(name@, state@),
    {
        let ghost k = name@;
        let ghost v = state@;
        match self.position(&name) {
            Some(i) => {
                self.entries.set(i, (name, state));
                self.model = Ghost(self.model@.insert(k, v));
                assert forall|m: int| 0 <= m < self.entries@.len() implies #[trigger] self.model@.contains_key(
                    self.entries@[m].0@,
                ) && self.model@[self.entries@[m].0@] == self.entries@[m].1@ by {
                    if m != i {
                        assert(self.entries@[m] == old(self).entries@[m]);
                        if m < i {
                            assert(old(self).entries@[m].0@ != old(self).entries@[i as int].0@);
                        } else {
                            assert(old(self).entries@[i as int].0@ != old(self).entries@[m].0@);
                        }
                        assert(old(self).model@.contains_key(old(self).entries@[m].0@));
                    }
                }
                assert forall|q: Seq<char>| #[trigger] self.model@.contains_key(q) implies exists|m: int|
                    0 <= m < self.entries@.len() && #[trigger] self.entries@[m].0@ == q by {
                    if q == k {
                        assert(self.entries@[i as int].0@ == q);
                    } else {
                        assert(old(self).model@.contains_key(q));
                        let m = choose|m: int| 0 <= m < old(self).entries@.len() && #[trigger] old(self).entries@[m].0@ == q;
                        assert(self.entries@[m].0@ == q);
                    }
                }
            },
            None => {
                self.entries.push((name, state));
                self.model = Ghost(self.model@.insert(k, v));
                let ghost n = self.entries@.len() - 1;
                assert forall|m: int| 0 <= m < self.entries@.len() implies #[trigger] self.model@.contains_key(
                    self.entries@[m].0@,
                ) && self.model@[self.entries@[m].0@] == self.entries@[m].1@ by {
                    if m != n {
                        assert(old(self).model@.contains_key(old(self).entries@[m].0@));
                    }
                }
                assert forall|a: int, b: int| 0 <= a < b < self.entries@.len() implies #[trigger] self.entries@[a].0@
                    != #[trigger] self.entries@[b].0@ by {
                    if b == n {
                        assert(old(self).model@.contains_key(old(self).entries@[a].0@));
                    }
                }
                assert forall|q: Seq<char>| #[trigger] self.model@.contains_key(q) implies exists|m: int|
                    0 <= m < self.entries@.len() && #[trigger] self.entries@[m].0@ == q by {
                    if q == k {
                        assert(self.entries@[n].0@ == q);
                    } else {
                        assert(old(self).model@.contains_key(q));
                        let m = choose|m: int| 0 <= m < old(self).entries@.len() && #[trigger] old(self).entries@[m].0@ == q;
                        assert(self.entries@[m].0@ == q);
                    }
                }
            },
        }
    }

    /// A copy of the cache, entry by entry.
    pub fn copy(&self) -> (r: States)
        requires
            self.wf(),
        ensures
            r.wf(),
            r@ == self@,
    {
        let mut entries: Vec<(String, Vec<u8>)> = Vec::new();
        let mut i: usize = 0;
        while i < self.entries.len()
            invariant
                self.wf(),
                i <= self.entries@.len(),
                entries@.len() == i,
                forall|m: int| 0 <= m < i ==> #[trigger] entries@[m].0@ == self.entries@[m].0@
                    && entries@[m].1@ == self.entries@[m].1@,
            decreases self.entries.len() - i,
        {
            let name = self.entries[i].0.clone();
            let state = copy_bytes(&self.entries[i].1);
            entries.push((name, state));
            i = i + 1;
        }
        let r = States { entries, model: Ghost(self.model@) };
        assert forall|a: int, b: int| 0 <= a < b < r.entries@.len() implies #[trigger] r.entries@[a].0@
            != #[trigger] r.entries@[b].0@ by {
            assert(self.entries@[a].0@ != self.entries@[b].0@);
        }
        assert forall|q: Seq<char>| #[trigger] r.model@.contains_key(q) implies exists|m: int|
            0 <= m < r.entries@.len() && #[trigger] r.entries@[m].0@ == q by {
            let m = choose|m: int| 0 <= m < self.entries@.len() && #[trigger] self.entries@[m].0@ == q;
            assert(r.entries@[m].0@ == q);
        }
        r
    }
}

} // verus!
