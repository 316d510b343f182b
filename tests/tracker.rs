use hyleoof::tracker::{Block, ProverModule, UnsettledTx};

fn s(v: &str) -> String {
    v.to_string()
}

fn tx(hash: &str) -> UnsettledTx {
    UnsettledTx { hash: s(hash), identity: s("id"), blobs: vec![] }
}

fn block(height: u64, txs: Vec<UnsettledTx>, ok: &[&str], timed_out: &[&str], failed: &[&str]) -> Block {
    Block {
        height,
        txs,
        successful_txs: ok.iter().map(|h| s(h)).collect(),
        timed_out_txs: timed_out.iter().map(|h| s(h)).collect(),
        failed_txs: failed.iter().map(|h| s(h)).collect(),
    }
}

fn hashes(m: &ProverModule) -> Vec<String> {
    m.unsettled().iter().map(|t| t.hash.clone()).collect()
}

#[test]
fn first_transaction_of_idle_queue_triggers_proving() {
    let mut m = ProverModule::new(0);
    let r = m.handle_processed_block(block(1, vec![tx("t3")], &[], &[], &[]));
    assert_eq!(r.map(|t| t.hash), Some(s("t3")));
    assert_eq!(hashes(&m), vec![s("t3")]);
}

#[test]
fn settling_behind_the_head_does_not_trigger() {
    let mut m = ProverModule::new(0);
    assert!(m.handle_processed_block(block(1, vec![tx("t1"), tx("t2")], &[], &[], &[])).is_some());
    let r = m.handle_processed_block(block(2, vec![], &["t2"], &[], &[]));
    assert!(r.is_none());
    assert_eq!(hashes(&m), vec![s("t1")]);
}

#[test]
fn settling_the_head_triggers_the_next() {
    let mut m = ProverModule::new(0);
    m.handle_processed_block(block(1, vec![tx("t1"), tx("t2"), tx("t3")], &[], &[], &[]));
    let r = m.handle_processed_block(block(2, vec![], &[], &["t1"], &[]));
    assert_eq!(r.map(|t| t.hash), Some(s("t2")));
    let r = m.handle_processed_block(block(3, vec![], &[], &[], &["t3", "t2"]));
    assert!(r.is_none());
    assert!(hashes(&m).is_empty());
}

#[test]
fn head_freed_then_queue_empty_gives_nothing() {
    let mut m = ProverModule::new(0);
    m.handle_processed_block(block(1, vec![tx("t1")], &[], &[], &[]));
    assert!(m.handle_processed_block(block(2, vec![], &["t1"], &[], &[])).is_none());
}

#[test]
fn same_hash_is_queued_once() {
    let mut m = ProverModule::new(0);
    assert!(m.handle_blob(tx("a")));
    assert!(!m.handle_blob(tx("a")));
    m.handle_processed_block(block(1, vec![tx("a"), tx("b"), tx("b")], &[], &[], &[]));
    assert_eq!(hashes(&m), vec![s("a"), s("b")]);
}

#[test]
fn settle_anywhere_and_unknown_hash_is_a_no_op() {
    let mut m = ProverModule::new(0);
    m.handle_blob(tx("a"));
    m.handle_blob(tx("b"));
    m.handle_blob(tx("c"));
    assert_eq!(m.settle_tx(&s("b")), Some(1));
    assert_eq!(hashes(&m), vec![s("a"), s("c")]);
    assert_eq!(m.settle_tx(&s("zz")), None);
    assert_eq!(hashes(&m), vec![s("a"), s("c")]);
    assert_eq!(m.settle_tx(&s("a")), Some(0));
    assert_eq!(m.trigger_prove_first().map(|t| t.hash), Some(s("c")));
}

#[test]
fn unknown_settlement_does_not_trigger() {
    let mut m = ProverModule::new(0);
    m.handle_processed_block(block(1, vec![tx("a")], &[], &[], &[]));
    assert!(m.handle_processed_block(block(2, vec![], &["nothing"], &[], &[])).is_none());
}

#[test]
fn blocks_up_to_start_height_trigger_nothing() {
    let mut m = ProverModule::new(5);
    assert!(m.handle_processed_block(block(5, vec![tx("old")], &[], &[], &[])).is_none());
    assert_eq!(hashes(&m), vec![s("old")]);
    let r = m.handle_processed_block(block(6, vec![], &["old"], &[], &[]));
    assert!(r.is_none());
    let r = m.handle_processed_block(block(7, vec![tx("new")], &[], &[], &[]));
    assert_eq!(r.map(|t| t.hash), Some(s("new")));
}

#[test]
fn empty_queue_trigger_gives_nothing() {
    let m = ProverModule::new(0);
    assert!(m.trigger_prove_first().is_none());
}

#[test]
fn settled_transaction_never_comes_back() {
    let mut m = ProverModule::new(0);
    m.handle_processed_block(block(1, vec![tx("t")], &[], &[], &[]));
    assert!(m.handle_processed_block(block(2, vec![], &["t"], &[], &[])).is_none());
    let r = m.handle_processed_block(block(3, vec![tx("t")], &[], &[], &[]));
    assert!(r.is_none());
    assert!(hashes(&m).is_empty());
    assert!(!m.handle_blob(tx("t")));
    assert!(hashes(&m).is_empty());
}

#[test]
fn settlement_in_the_same_block_is_remembered() {
    let mut m = ProverModule::new(0);
    m.handle_processed_block(block(1, vec![tx("x"), tx("y")], &[], &["x"], &[]));
    assert_eq!(hashes(&m), vec![s("y")]);
    m.handle_processed_block(block(2, vec![tx("x")], &[], &[], &[]));
    assert_eq!(hashes(&m), vec![s("y")]);
}

#[test]
fn settlement_reported_before_the_transaction_is_seen() {
    let mut m = ProverModule::new(0);
    assert_eq!(m.settle_tx(&s("early")), None);
    assert!(!m.handle_blob(tx("early")));
    assert!(hashes(&m).is_empty());
}
