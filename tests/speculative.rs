use hyleoof::app_module::AppModule;
use hyleoof::builder::{BuildError, TransactionBuilder};
use hyleoof::speculative::{ExecOutcome, SpeculativeRun};
use hyleoof::state::{ExecutionResult, States};

fn s(v: &str) -> String {
    v.to_string()
}

fn cache() -> States {
    let mut st = States::new();
    st.insert(s("hydentity"), vec![1]);
    st.insert(s("hyllar"), vec![10]);
    st
}

fn ok(next: u8) -> ExecOutcome {
    ExecOutcome { success: true, next_state: vec![next], program_output: vec![] }
}

fn transfer_tx() -> hyleoof::builder::CompositeTransaction {
    let mut b = TransactionBuilder::new(s("user"));
    assert!(b.verify_identity(s("hydentity"), Some(0), s("pw")).is_ok());
    b.transfer(s("hyllar"), s("recipient"), 10);
    b.freeze()
}

#[test]
fn transfer_with_enough_balance_commits_states() {
    let mut app = AppModule::new(cache());
    let mut run = app.begin(transfer_tx());
    let first = run.next_input().expect("input of blob 0");
    assert_eq!(first.index, 0);
    assert_eq!(first.initial_state, vec![1]);
    assert_eq!(first.identity, "user");
    assert_eq!(first.private_input, "pw");
    assert_eq!(first.blobs.len(), 2);
    run.record(ok(2));
    let second = run.next_input().expect("input of blob 1");
    assert_eq!(second.index, 1);
    assert_eq!(second.initial_state, vec![10]);
    run.record(ok(0));
    assert!(run.is_complete());
    assert!(run.next_input().is_none());
    let p = app.commit(run).ok().expect("provable transaction");
    assert_eq!(p.identity_name(), "user");
    assert_eq!(p.blob_list().len(), 2);
    assert_eq!(app.state_of(&s("hydentity")).ok(), Some(&vec![2]));
    assert_eq!(app.state_of(&s("hyllar")).ok(), Some(&vec![0]));
    app.enqueue(p, s("h1"));
    let session = app.next_session().expect("queued session");
    assert_eq!(session.len(), 2);
}

#[test]
fn transfer_with_insufficient_balance_fails_before_broadcast() {
    let mut app = AppModule::new(cache());
    let mut run = app.begin(transfer_tx());
    assert!(run.next_input().is_some());
    run.record(ok(2));
    assert!(run.next_input().is_some());
    run.record(ExecOutcome {
        success: false,
        next_state: vec![10],
        program_output: b"insufficient balance".to_vec(),
    });
    assert!(run.is_failed());
    assert!(run.next_input().is_none());
    match app.commit(run) {
        Err(BuildError::ExecutionFailed { index, program_output }) => {
            assert_eq!(index, 1);
            assert_eq!(program_output, b"insufficient balance".to_vec());
        }
        _ => panic!("a failed run must not yield a transaction"),
    }
    assert_eq!(app.state_of(&s("hydentity")).ok(), Some(&vec![1]));
    assert_eq!(app.state_of(&s("hyllar")).ok(), Some(&vec![10]));
    assert!(app.next_session().is_none());
}

#[test]
fn state_threads_between_blobs_of_one_contract() {
    let st = cache();
    let mut b = TransactionBuilder::new(s("user"));
    b.transfer(s("hyllar"), s("a"), 1);
    b.transfer(s("hyllar"), s("b"), 1);
    let mut run = SpeculativeRun::start(&st, b.freeze());
    assert_eq!(run.next_input().unwrap().initial_state, vec![10]);
    run.record(ok(9));
    assert_eq!(run.next_input().unwrap().initial_state, vec![9]);
    run.record(ok(8));
    assert_eq!(st.for_token(&s("hyllar")).ok(), Some(&vec![10]));
    let mut shared = st;
    assert!(run.finish(&mut shared).is_ok());
    assert_eq!(shared.for_token(&s("hyllar")).ok(), Some(&vec![8]));
}

#[test]
fn unknown_contract_fails_the_run() {
    let mut st = cache();
    let mut b = TransactionBuilder::new(s("user"));
    b.transfer(s("nope"), s("a"), 1);
    let mut run = SpeculativeRun::start(&st, b.freeze());
    assert!(run.next_input().is_none());
    assert!(run.is_failed());
    match run.finish(&mut st) {
        Err(BuildError::UnknownContract { contract_name }) => assert_eq!(contract_name, "nope"),
        _ => panic!("unknown contract must fail"),
    }
}

#[test]
fn empty_transaction_is_complete_at_once() {
    let mut st = cache();
    let run = SpeculativeRun::start(&st, TransactionBuilder::new(s("u")).freeze());
    assert!(run.is_complete());
    let p = run.finish(&mut st).ok().unwrap();
    assert_eq!(p.blob_list().len(), 0);
}

#[test]
fn states_update_and_apply_results() {
    let mut st = cache();
    assert!(st.contains(&s("hyllar")));
    assert!(!st.contains(&s("amm")));
    assert!(st.update_for_token(&s("hyllar"), vec![5]).is_ok());
    assert_eq!(st.for_token(&s("hyllar")).ok(), Some(&vec![5]));
    match st.update_for_token(&s("amm"), vec![5]) {
        Err(BuildError::UnknownContract { contract_name }) => assert_eq!(contract_name, "amm"),
        _ => panic!("unknown contract must be refused"),
    }
    let results = vec![
        ExecutionResult { contract_name: s("hyllar"), state: vec![6] },
        ExecutionResult { contract_name: s("hydentity"), state: vec![7] },
        ExecutionResult { contract_name: s("hyllar"), state: vec![8] },
    ];
    assert!(st.from_exec_results(results).is_ok());
    assert_eq!(st.for_token(&s("hyllar")).ok(), Some(&vec![8]));
    assert_eq!(st.for_token(&s("hydentity")).ok(), Some(&vec![7]));
    let bad = vec![
        ExecutionResult { contract_name: s("hyllar"), state: vec![1] },
        ExecutionResult { contract_name: s("amm"), state: vec![1] },
    ];
    assert!(st.from_exec_results(bad).is_err());
    assert_eq!(st.for_token(&s("hyllar")).ok(), Some(&vec![8]));
    let copy = st.copy();
    assert_eq!(copy.for_token(&s("hydentity")).ok(), Some(&vec![7]));
}
