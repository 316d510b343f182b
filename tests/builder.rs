use hyleoof::blob::{Action, Blob};
use hyleoof::builder::{BuildError, TransactionBuilder};

fn s(v: &str) -> String {
    v.to_string()
}

#[test]
fn verify_then_transfer_gives_two_unlinked_blobs() {
    let mut b = TransactionBuilder::new(s("alice"));
    assert!(b.verify_identity(s("hydentity"), Some(3), s("secret")).is_ok());
    b.transfer(s("hyllar"), s("bob"), 10);
    let tx = b.freeze();
    assert_eq!(tx.identity, "alice");
    assert_eq!(tx.blobs.len(), 2);
    assert_eq!(tx.blobs[0].contract_name, "hydentity");
    assert_eq!(tx.blobs[1].contract_name, "hyllar");
    for blob in &tx.blobs {
        assert_eq!(blob.caller, None);
        assert!(blob.callees.is_none());
    }
    match &tx.blobs[0].action {
        Action::VerifyIdentity { account, nonce } => {
            assert_eq!(account, "alice");
            assert_eq!(*nonce, 3);
        }
        _ => panic!("first blob is not an identity proof"),
    }
    match &tx.blobs[1].action {
        Action::Transfer { recipient, amount } => {
            assert_eq!(recipient, "bob");
            assert_eq!(*amount, 10);
        }
        _ => panic!("second blob is not a transfer"),
    }
    assert_eq!(tx.private_inputs, vec![s("secret"), s("")]);
}

#[test]
fn verify_identity_without_account_is_refused() {
    let mut b = TransactionBuilder::new(s("alice"));
    let r = b.verify_identity(s("hydentity"), None, s("secret"));
    assert!(matches!(r, Err(BuildError::UnknownIdentity)));
    assert_eq!(b.len(), 0);
}

#[test]
fn swap_links_coordinator_and_transfers() {
    let mut b = TransactionBuilder::new(s("alice"));
    assert!(b.swap(s("amm"), s("tok_a"), s("tok_b"), 100, Some(95)).is_ok());
    let tx = b.freeze();
    assert_eq!(tx.blobs.len(), 3);
    assert_eq!(tx.blobs[0].contract_name, "amm");
    assert_eq!(tx.blobs[0].caller, None);
    assert_eq!(tx.blobs[0].callees, Some(vec![1, 2]));
    match &tx.blobs[0].action {
        Action::Swap { from, token_a, token_b } => {
            assert_eq!(from, "alice");
            assert_eq!(token_a, "tok_a");
            assert_eq!(token_b, "tok_b");
        }
        _ => panic!("first blob is not the swap"),
    }
    assert_eq!(tx.blobs[1].contract_name, "tok_a");
    assert_eq!(tx.blobs[1].caller, Some(0));
    match &tx.blobs[1].action {
        Action::TransferFrom { sender, recipient, amount } => {
            assert_eq!(sender, "alice");
            assert_eq!(recipient, "amm");
            assert_eq!(*amount, 100);
        }
        _ => panic!("second blob is not the pull"),
    }
    assert_eq!(tx.blobs[2].contract_name, "tok_b");
    assert_eq!(tx.blobs[2].caller, Some(0));
    match &tx.blobs[2].action {
        Action::Transfer { recipient, amount } => {
            assert_eq!(recipient, "alice");
            assert_eq!(*amount, 95);
        }
        _ => panic!("third blob is not the payout"),
    }
}

#[test]
fn swap_after_identity_proof_points_at_its_own_positions() {
    let mut b = TransactionBuilder::new(s("alice"));
    assert!(b.verify_identity(s("hydentity"), Some(0), s("pw")).is_ok());
    assert!(b.swap(s("amm"), s("a"), s("b"), 5, Some(4)).is_ok());
    let tx = b.freeze();
    assert_eq!(tx.blobs.len(), 4);
    assert_eq!(tx.blobs[1].callees, Some(vec![2, 3]));
    assert_eq!(tx.blobs[2].caller, Some(1));
    assert_eq!(tx.blobs[3].caller, Some(1));
}

#[test]
fn swap_without_pair_is_refused() {
    let mut b = TransactionBuilder::new(s("alice"));
    let r = b.swap(s("amm"), s("a"), s("b"), 5, None);
    assert!(matches!(r, Err(BuildError::PairNotFound)));
    assert_eq!(b.len(), 0);
}

#[test]
fn append_refuses_forward_references() {
    let mut b = TransactionBuilder::new(s("u"));
    let r = b.append(s("c"), Action::RegisterIdentity { account: s("u") }, Some(0), None, s(""));
    assert!(matches!(r, Err(BuildError::InvalidBlobIndex { index: 0 })));
    assert_eq!(b.append(s("c"), Action::RegisterIdentity { account: s("u") }, None, None, s("")).ok(), Some(0));
    let r = b.append(s("c"), Action::Approve { spender: s("x"), amount: 1 }, None, Some(vec![0, 1]), s(""));
    assert!(matches!(r, Err(BuildError::InvalidBlobIndex { index: 1 })));
    assert_eq!(b.len(), 1);
    let r = b.append(s("c"), Action::Approve { spender: s("x"), amount: 1 }, None, Some(vec![0]), s(""));
    assert_eq!(r.ok(), Some(1));
    let tx = b.freeze();
    assert_eq!(tx.blobs[1].callees, Some(vec![0]));
}

#[test]
fn append_with_caller_adds_callee_to_caller() {
    let mut b = TransactionBuilder::new(s("u"));
    assert_eq!(b.append(s("p"), Action::RegisterIdentity { account: s("u") }, None, None, s("")).ok(), Some(0));
    assert_eq!(b.append(s("q"), Action::Approve { spender: s("x"), amount: 2 }, Some(0), None, s("")).ok(), Some(1));
    let tx = b.freeze();
    assert_eq!(tx.blobs[0].callees, Some(vec![1]));
    assert_eq!(tx.blobs[1].caller, Some(0));
}

#[test]
fn register_and_approve_blobs() {
    let mut b = TransactionBuilder::new(s("carol"));
    b.register_identity(s("hydentity"), s("pw"));
    b.approve(s("hyllar"), s("amm"), 7);
    assert_eq!(b.identity_name(), "carol");
    let tx = b.freeze();
    assert!(matches!(&tx.blobs[0].action, Action::RegisterIdentity { account } if account == "carol"));
    assert!(matches!(&tx.blobs[1].action, Action::Approve { spender, amount: 7 } if spender == "amm"));
    assert_eq!(tx.private_inputs, vec![s("pw"), s("")]);
}

#[test]
fn blob_clone_keeps_links() {
    let b = Blob {
        contract_name: s("c"),
        action: Action::Transfer { recipient: s("r"), amount: 1 },
        caller: Some(2),
        callees: Some(vec![4, 5]),
    };
    let c = b.clone();
    assert_eq!(c.contract_name, "c");
    assert_eq!(c.caller, Some(2));
    assert_eq!(c.callees, Some(vec![4, 5]));
}
