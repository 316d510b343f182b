use hyleoof::blob::{Action, Blob};
use hyleoof::replay::{BlobTxProver, ReplayStep};
use hyleoof::speculative::ExecOutcome;
use hyleoof::tracker::UnsettledTx;

fn s(v: &str) -> String {
    v.to_string()
}

fn blob(contract: &str) -> Blob {
    Blob {
        contract_name: s(contract),
        action: Action::Transfer { recipient: s("r"), amount: 1 },
        caller: None,
        callees: None,
    }
}

fn tx(contracts: &[&str]) -> UnsettledTx {
    UnsettledTx { hash: s("h"), identity: s("id"), blobs: contracts.iter().map(|c| blob(c)).collect() }
}

fn outcome(success: bool, next: u8) -> Option<ExecOutcome> {
    Some(ExecOutcome { success, next_state: vec![next], program_output: vec![] })
}

#[test]
fn replay_skips_blobs_without_prover_and_fetches_once() {
    let mut p = BlobTxProver::new(tx(&["hydentity", "hyllar", "hyllar"]), vec![s("hyllar")]);
    match p.next_step() {
        ReplayStep::FetchState { contract_name } => assert_eq!(contract_name, "hyllar"),
        _ => panic!("expected a fetch"),
    }
    p.state_fetched(Some(vec![5]));
    match p.next_step() {
        ReplayStep::Execute(input) => {
            assert_eq!(input.index, 1);
            assert_eq!(input.initial_state, vec![5]);
            assert_eq!(input.tx_hash, "h");
            assert_eq!(input.identity, "id");
        }
        _ => panic!("expected an execution"),
    }
    p.executed(outcome(true, 6));
    match p.next_step() {
        ReplayStep::Prove(input) => assert_eq!(input.index, 1),
        _ => panic!("expected proving"),
    }
    let sub = p.proved(Some(vec![42])).unwrap();
    assert_eq!(sub.contract_name, "hyllar");
    assert_eq!(sub.tx_hash, "h");
    assert_eq!(sub.proof_bytes, vec![42]);
    match p.next_step() {
        ReplayStep::Execute(input) => {
            assert_eq!(input.index, 2);
            assert_eq!(input.initial_state, vec![6]);
        }
        _ => panic!("expected an execution of the state already known"),
    }
    p.executed(outcome(true, 7));
    assert!(p.proved(None).is_none());
    assert!(matches!(p.next_step(), ReplayStep::Done));
    assert!(matches!(p.next_step(), ReplayStep::Done));
}

#[test]
fn replay_stops_after_submitting_a_failed_blob() {
    let mut p = BlobTxProver::new(tx(&["amm", "amm"]), vec![s("amm")]);
    assert!(matches!(p.next_step(), ReplayStep::FetchState { .. }));
    p.state_fetched(Some(vec![0]));
    assert!(matches!(p.next_step(), ReplayStep::Execute(_)));
    p.executed(outcome(false, 0));
    assert!(matches!(p.next_step(), ReplayStep::Prove(_)));
    assert!(p.proved(Some(vec![1])).is_some());
    assert!(matches!(p.next_step(), ReplayStep::Done));
}

#[test]
fn replay_ends_when_a_state_cannot_be_fetched() {
    let mut p = BlobTxProver::new(tx(&["amm"]), vec![s("amm")]);
    assert!(matches!(p.next_step(), ReplayStep::FetchState { .. }));
    p.state_fetched(None);
    assert!(matches!(p.next_step(), ReplayStep::Done));
}

#[test]
fn replay_counts_an_execution_error_as_failure() {
    let mut p = BlobTxProver::new(tx(&["amm", "amm"]), vec![s("amm")]);
    p.next_step();
    p.state_fetched(Some(vec![0]));
    p.next_step();
    p.executed(None);
    assert!(matches!(p.next_step(), ReplayStep::Prove(_)));
    assert!(p.proved(Some(vec![])).is_some());
    assert!(matches!(p.next_step(), ReplayStep::Done));
}

#[test]
fn replay_of_transaction_without_provers_is_done() {
    let mut p = BlobTxProver::new(tx(&["a", "b"]), vec![]);
    assert!(matches!(p.next_step(), ReplayStep::Done));
}
