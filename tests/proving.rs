use hyleoof::app_module::AppModule;
use hyleoof::builder::TransactionBuilder;
use hyleoof::speculative::ExecOutcome;
use hyleoof::state::States;

fn s(v: &str) -> String {
    v.to_string()
}

fn provable(app: &mut AppModule, user: &str, blobs: usize) -> hyleoof::speculative::ProvableTransaction {
    let mut b = TransactionBuilder::new(s(user));
    for _ in 0..blobs {
        b.transfer(s("tok"), s("r"), 1);
    }
    let mut run = app.begin(b.freeze());
    while let Some(_) = run.next_input() {
        run.record(ExecOutcome { success: true, next_state: vec![0], program_output: vec![] });
    }
    app.commit(run).ok().unwrap()
}

fn app() -> AppModule {
    let mut st = States::new();
    st.insert(s("tok"), vec![0]);
    AppModule::new(st)
}

#[test]
fn jobs_come_in_blob_order_and_failed_proofs_are_skipped() {
    let mut app = app();
    let p = provable(&mut app, "u", 3);
    app.enqueue(p, s("hash"));
    let mut session = app.next_session().unwrap();
    assert_eq!(session.len(), 3);
    assert!(session.submission(vec![9]).is_none());

    let j0 = session.next_job().unwrap();
    assert_eq!(j0.input.index, 0);
    assert_eq!(j0.input.tx_hash, "hash");
    assert_eq!(j0.contract_name, "tok");
    let sub = session.submission(vec![1, 2]).unwrap();
    assert_eq!(sub.tx_hash, "hash");
    assert_eq!(sub.contract_name, "tok");
    assert_eq!(sub.proof_bytes, vec![1, 2]);

    let j1 = session.next_job().unwrap();
    assert_eq!(j1.input.index, 1);
    let j2 = session.next_job().unwrap();
    assert_eq!(j2.input.index, 2);
    assert!(session.submission(vec![3]).is_some());
    assert!(session.submission(vec![4]).is_none());
    assert!(session.next_job().is_none());
}

#[test]
fn queue_is_first_in_first_out() {
    let mut app = app();
    let a = provable(&mut app, "a", 1);
    let b = provable(&mut app, "b", 2);
    app.enqueue(a, s("first"));
    app.enqueue(b, s("second"));
    let mut first = app.next_session().unwrap();
    assert_eq!(first.len(), 1);
    assert_eq!(first.next_job().unwrap().input.tx_hash, "first");
    let mut second = app.next_session().unwrap();
    assert_eq!(second.len(), 2);
    assert_eq!(second.next_job().unwrap().input.tx_hash, "second");
    assert!(app.next_session().is_none());
}

#[test]
fn prover_queue_alone() {
    let mut app = app();
    let p = provable(&mut app, "a", 2);
    let mut q = hyleoof::proving::Prover::new();
    assert_eq!(q.len(), 0);
    q.add(p, s("x"));
    assert_eq!(q.len(), 1);
    let mut session = q.next_session().unwrap();
    assert_eq!(q.len(), 0);
    let mut count = 0;
    while let Some(job) = session.next_job() {
        assert_eq!(job.input.index, count);
        count += 1;
        assert!(session.submission(vec![]).is_some());
    }
    assert_eq!(count, 2);
}

#[test]
fn queued_session_carries_every_job_of_the_transaction() {
    let mut app = app();
    let p = provable(&mut app, "u", 2);
    app.enqueue(p, s("h"));
    let mut session = app.next_session().unwrap();
    assert_eq!(session.len(), 2);
    let j0 = session.next_job().unwrap();
    assert_eq!(j0.contract_name, "tok");
    assert_eq!(j0.input.identity, "u");
    assert_eq!(j0.input.blobs.len(), 2);
    assert_eq!(j0.input.initial_state, vec![0]);
}
