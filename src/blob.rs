//! Blobs, the per-contract call fragments of a composite transaction, and
//! their mathematical models.
use vstd::prelude::*;

verus! {

/// The contract-specific payload that a blob carries.
pub enum Action {
    /// Proves that the signer owns `account`; `nonce` guards against replay.
    VerifyIdentity { account: String, nonce: u32 },
    /// Registers `account` with the identity contract.
    RegisterIdentity { account: String },
    /// Moves `amount` tokens from the signer to `recipient`.
    Transfer { recipient: String, amount: u128 },
    /// Moves `amount` tokens from `sender` to `recipient` under an allowance.
    TransferFrom { sender: String, recipient: String, amount: u128 },
    /// Lets `spender` move up to `amount` tokens of the signer.
    Approve { spender: String, amount: u128 },
    /// Swaps between the pool's tokens `token_a` and `token_b` for `from`.
    Swap { from: String, token_a: String, token_b: String },
}

/// The model of an [`Action`]: strings as character sequences.
pub enum ActionModel {
    VerifyIdentity { account: Seq<char>, nonce: u32 },
    RegisterIdentity { account: Seq<char> },
    Transfer { recipient: Seq<char>, amount: u128 },
    TransferFrom { sender: Seq<char>, recipient: Seq<char>, amount: u128 },
    Approve { spender: Seq<char>, amount: u128 },
    Swap { from: Seq<char>, token_a: Seq<char>, token_b: Seq<char> },
}

impl View for Action {
    type V = ActionModel;

    open spec fn view(&self) -> ActionModel {
        match self {
            Action::VerifyIdentity { account, nonce } => ActionModel::VerifyIdentity {
                account: account@,
                nonce: *nonce,
            },
            Action::RegisterIdentity { account } => ActionModel::RegisterIdentity {
                account: account@,
            },
            Action::Transfer { recipient, amount } => ActionModel::Transfer {
                recipient: recipient@,
                amount: *amount,
            },
            Action::TransferFrom { sender, recipient, amount } => ActionModel::TransferFrom {
                sender: sender@,
                recipient: recipient@,
                amount: *amount,
            },
            Action::Approve { spender, amount } => ActionModel::Approve {
                spender: spender@,
                amount: *amount,
            },
            Action::Swap { from, token_a, token_b } => ActionModel::Swap {
                from: from@,
                token_a: token_a@,
                token_b: token_b@,
            },
        }
    }
}

impl Clone for Action {
    fn clone(&self) -> (r: Self)
        ensures
            r@ == self@,
    {
        match self {
            Action::VerifyIdentity { account, nonce } => Action::VerifyIdentity {
                account: account.clone(),
                nonce: *nonce,
            },
            Action::RegisterIdentity { account } => Action::RegisterIdentity {
                account: account.clone(),
            },
            Action::Transfer { recipient, amount } => Action::Transfer {
                recipient: recipient.clone(),
                amount: *amount,
            },
            Action::TransferFrom { sender, recipient, amount } => Action::TransferFrom {
                sender: sender.clone(),
                recipient: recipient.clone(),
                amount: *amount,
            },
            Action::Approve { spender, amount } => Action::Approve {
                spender: spender.clone(),
                amount: *amount,
            },
            Action::Swap { from, token_a, token_b } => Action::Swap {
                from: from.clone(),
                token_a: token_a.clone(),
                token_b: token_b.clone(),
            },
        }
    }
}

/// One call fragment of a composite transaction, aimed at one contract.
///
/// `caller` and `callees` are positions in the transaction's blob sequence.
pub struct Blob {
    pub contract_name: String,
    pub action: Action,
    pub caller: Option<usize>,
    pub callees: Option<Vec<usize>>,
}

/// The model of a [`Blob`].
pub struct BlobModel {
    pub contract_name: Seq<char>,
    pub action: ActionModel,
    pub caller: Option<usize>,
    pub callees: Option<Seq<usize>>,
}

impl View for Blob {
    type V = BlobModel;

    open spec fn view(&self) -> BlobModel {
        BlobModel {
            contract_name: self.contract_name@,
            action: self.action@,
            caller: self.caller,
            callees: match self.callees {
                Some(c) => Some(c@),
                None => None,
            },
        }
    }
}

/// A copy of an index list, element by element.
pub fn copy_indices(v: &Vec<usize>) -> (r: Vec<usize>)
    ensures
        r@ == v@,
{
    let mut r: Vec<usize> = Vec::new();
    let mut i: usize = 0;
    while i < v.len()
        invariant
            i <= v.len(),
            r@ == v@.subrange(0, i as int),
        decreases v.len() - i,
    {
        r.push(v[i]);
        i = i + 1;
    }
    assert(r@ =~= v@);
    r
}

impl Clone for Blob {
    fn clone(&self) -> (r: Self)
        ensures
            r@ == self@,
    {
        let callees = match &self.callees {
            Some(c) => Some(copy_indices(c)),
            None => None,
        };
        Blob {
            contract_name: self.contract_name.clone(),
            action: self.action.clone(),
            caller: self.caller,
            callees,
        }
    }
}

/// The models of a sequence of blobs.
pub open spec fn blob_models(s: Seq<Blob>) -> Seq<BlobModel> {
    s.map_values(|b: Blob| b@)
}

/// A copy of a blob sequence.
pub fn copy_blobs(v: &Vec<Blob>) -> (r: Vec<Blob>)
    ensures
        blob_models(r@) == blob_models(v@),
{
    let mut r: Vec<Blob> = Vec::new();
    let mut i: usize = 0;
    while i < v.len()
        invariant
            i <= v.len(),
            r@.len() == i,
            forall|j: int| 0 <= j < i ==> #[trigger] r@[j]@ == v@[j]@,
        decreases v.len() - i,
    {
        let b = v[i].clone();
        assert(b@ == v@[i as int]@);
        r.push(b);
        i = i + 1;
    }
    assert(blob_models(r@) =~= blob_models(v@));
    r
}

/// A copy of a byte string.
pub fn copy_bytes(v: &Vec<u8>) -> (r: Vec<u8>)
    ensures
        r@ == v@,
{
    let mut r: Vec<u8> = Vec::new();
    let mut i: usize = 0;
    while i < v.len()
        invariant
            i <= v.len(),
            r@ == v@.subrange(0, i as int),
        decreases v.len() - i,
    {
        r.push(v[i]);
        i = i + 1;
    }
    assert(r@ =~= v@);
    r
}

} // verus!
