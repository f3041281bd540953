use wart_worker::kv::{atomic_query_kv, atomic_update_kv, storage_query_kv, update_store};
use wart_worker::session::{SessionRecord, SessionStore};
use wart_worker::value::{Column, MergeOp, Value};
use wart_worker::WorkerError;

fn s(x: &str) -> String {
    x.to_string()
}

fn open(st: &mut SessionStore, tok: &str) {
    let rec = SessionRecord {
        token: s(tok),
        space_name: s("space"),
        module: vec![1, 2, 3],
        ex_timeout: 1000,
        parallel: 2,
        epoch: 0,
    };
    st.insert_session(rec).unwrap();
}

#[test]
fn epoch_starts_at_zero_and_increments_strictly() {
    let mut st = SessionStore::new();
    open(&mut st, "t1");
    let rec = st.load_session(&s("t1")).unwrap();
    assert_eq!(rec.epoch, 0);
    let e1 = st.increment_epoch(&s("t1")).unwrap();
    let e2 = st.increment_epoch(&s("t1")).unwrap();
    let e3 = st.increment_epoch(&s("t1")).unwrap();
    assert_eq!((e1, e2, e3), (1, 2, 3));
}

#[test]
fn duplicate_token_is_refused() {
    let mut st = SessionStore::new();
    open(&mut st, "t1");
    let rec = SessionRecord {
        token: s("t1"),
        space_name: s("other"),
        module: vec![],
        ex_timeout: 1,
        parallel: 1,
        epoch: 0,
    };
    assert_eq!(st.insert_session(rec), Err(WorkerError::BackendError));
}

#[test]
fn close_removes_record_and_every_shard() {
    let mut st = SessionStore::new();
    open(&mut st, "t1");
    // A read persists the default in the epoch-0 shard; a write lands in
    // the pending epoch-1 shard.
    atomic_query_kv(&mut st, &s("t1"), &s("a"), Value::I64(7)).unwrap();
    atomic_update_kv(&mut st, &s("t1"), &s("b"), Value::I64(5), MergeOp::Add).unwrap();
    st.close_session(&s("t1")).unwrap();
    assert!(st.load_session(&s("t1")).is_err());
    assert_eq!(
        atomic_query_kv(&mut st, &s("t1"), &s("a"), Value::I64(0)),
        Err(WorkerError::BackendError),
    );
    // A fresh session under the same token starts clean: no leaked shard.
    open(&mut st, "t1");
    assert_eq!(
        atomic_query_kv(&mut st, &s("t1"), &s("a"), Value::I64(0)),
        Ok(Value::I64(0)),
    );
    assert_eq!(
        atomic_query_kv(&mut st, &s("t1"), &s("b"), Value::I64(0)),
        Ok(Value::I64(0)),
    );
}

#[test]
fn unknown_token_is_backend_error() {
    let mut st = SessionStore::new();
    assert_eq!(st.increment_epoch(&s("nope")), Err(WorkerError::BackendError));
    assert_eq!(st.close_session(&s("nope")), Err(WorkerError::BackendError));
    assert!(st.load_session(&s("nope")).is_err());
}

#[test]
fn add_invisible_until_epoch_advances() {
    let mut st = SessionStore::new();
    open(&mut st, "t1");
    atomic_update_kv(&mut st, &s("t1"), &s("n"), Value::I64(5), MergeOp::Add).unwrap();
    // Still invisible at epoch 0: the read sees only the default.
    assert_eq!(
        atomic_query_kv(&mut st, &s("t1"), &s("n"), Value::I64(0)),
        Ok(Value::I64(0)),
    );
    assert_eq!(st.increment_epoch(&s("t1")).unwrap(), 1);
    // Committed: visible and exact.
    assert_eq!(
        atomic_query_kv(&mut st, &s("t1"), &s("n"), Value::I64(0)),
        Ok(Value::I64(5)),
    );
    // A second pending add of 3 on top of the visible 5.
    atomic_update_kv(&mut st, &s("t1"), &s("n"), Value::I64(3), MergeOp::Add).unwrap();
    assert_eq!(
        atomic_query_kv(&mut st, &s("t1"), &s("n"), Value::I64(0)),
        Ok(Value::I64(5)),
    );
    assert_eq!(st.increment_epoch(&s("t1")).unwrap(), 2);
    assert_eq!(
        atomic_query_kv(&mut st, &s("t1"), &s("n"), Value::I64(0)),
        Ok(Value::I64(8)),
    );
}

#[test]
fn mov_overwrites_and_del_clears_pending() {
    let mut st = SessionStore::new();
    open(&mut st, "t1");
    atomic_update_kv(&mut st, &s("t1"), &s("k"), Value::Txt(s("v1")), MergeOp::Mov).unwrap();
    st.increment_epoch(&s("t1")).unwrap();
    assert_eq!(
        atomic_query_kv(&mut st, &s("t1"), &s("k"), Value::Txt(s(""))),
        Ok(Value::Txt(s("v1"))),
    );
    // A pending overwrite withdrawn by Del never becomes visible.
    atomic_update_kv(&mut st, &s("t1"), &s("k"), Value::Txt(s("v2")), MergeOp::Mov).unwrap();
    atomic_update_kv(&mut st, &s("t1"), &s("k"), Value::Nil, MergeOp::Del).unwrap();
    st.increment_epoch(&s("t1")).unwrap();
    assert_eq!(
        atomic_query_kv(&mut st, &s("t1"), &s("k"), Value::Txt(s(""))),
        Ok(Value::Txt(s("v1"))),
    );
}

#[test]
fn add_on_text_fails_the_one_call() {
    let mut st = SessionStore::new();
    open(&mut st, "t1");
    assert_eq!(
        atomic_update_kv(&mut st, &s("t1"), &s("k"), Value::Txt(s("x")), MergeOp::Add),
        Err(WorkerError::HostImportError),
    );
    // A kind mismatch against the stored value fails too.
    atomic_update_kv(&mut st, &s("t1"), &s("k"), Value::Txt(s("x")), MergeOp::Mov).unwrap();
    st.increment_epoch(&s("t1")).unwrap();
    assert_eq!(
        atomic_update_kv(&mut st, &s("t1"), &s("k"), Value::I64(1), MergeOp::Add),
        Err(WorkerError::HostImportError),
    );
}

#[test]
fn add_overflow_fails_the_one_call() {
    let mut st = SessionStore::new();
    open(&mut st, "t1");
    atomic_update_kv(&mut st, &s("t1"), &s("k"), Value::I64(i64::MAX), MergeOp::Mov).unwrap();
    st.increment_epoch(&s("t1")).unwrap();
    assert_eq!(
        atomic_update_kv(&mut st, &s("t1"), &s("k"), Value::I64(1), MergeOp::Add),
        Err(WorkerError::HostImportError),
    );
}

#[test]
fn batch_read_types_and_defaults() {
    let mut st = SessionStore::new();
    open(&mut st, "t1");
    atomic_update_kv(&mut st, &s("t1"), &s("a"), Value::I64(10), MergeOp::Mov).unwrap();
    atomic_update_kv(&mut st, &s("t1"), &s("c"), Value::Txt(s("not a number")), MergeOp::Mov)
        .unwrap();
    st.increment_epoch(&s("t1")).unwrap();
    let keys = vec![s("a"), s("b"), s("c")];
    let col = storage_query_kv(&mut st, &s("t1"), &keys, &Value::I64(-1)).unwrap();
    // Stored value, missing-key default, and kind-mismatch default.
    assert_eq!(col, Column::I64(vec![10, -1, -1]));
}

#[test]
fn batch_read_with_absent_default_kind_fails() {
    let mut st = SessionStore::new();
    open(&mut st, "t1");
    let keys = vec![s("a")];
    assert_eq!(
        storage_query_kv(&mut st, &s("t1"), &keys, &Value::Nil),
        Err(WorkerError::HostImportError),
    );
}

#[test]
fn batch_update_counts_and_stops_at_first_failure() {
    let mut st = SessionStore::new();
    open(&mut st, "t1");
    atomic_update_kv(&mut st, &s("t1"), &s("b"), Value::Txt(s("text")), MergeOp::Mov).unwrap();
    st.increment_epoch(&s("t1")).unwrap();
    let keys = vec![s("a"), s("b"), s("c")];
    let vals = Column::I64(vec![1, 2, 3]);
    // The add to the text-valued field fails; the item after it is never
    // processed.
    let n = update_store(&mut st, &s("t1"), &keys, &vals, MergeOp::Add).unwrap();
    assert_eq!(n, 1);
    st.increment_epoch(&s("t1")).unwrap();
    assert_eq!(
        atomic_query_kv(&mut st, &s("t1"), &s("a"), Value::I64(0)),
        Ok(Value::I64(1)),
    );
    assert_eq!(
        atomic_query_kv(&mut st, &s("t1"), &s("c"), Value::I64(0)),
        Ok(Value::I64(0)),
    );
}

#[test]
fn batch_update_ignores_unsupported_column_kinds() {
    let mut st = SessionStore::new();
    open(&mut st, "t1");
    let keys = vec![s("a")];
    let vals = Column::Bol(vec![true]);
    assert_eq!(update_store(&mut st, &s("t1"), &keys, &vals, MergeOp::Add), Ok(0));
    assert_eq!(update_store(&mut st, &s("t1"), &keys, &vals, MergeOp::Mov), Ok(0));
}

#[test]
fn batch_del_clears_every_named_pending_slot() {
    let mut st = SessionStore::new();
    open(&mut st, "t1");
    atomic_update_kv(&mut st, &s("t1"), &s("a"), Value::I64(1), MergeOp::Mov).unwrap();
    atomic_update_kv(&mut st, &s("t1"), &s("b"), Value::I64(2), MergeOp::Mov).unwrap();
    let keys = vec![s("a")];
    let n = update_store(&mut st, &s("t1"), &keys, &Column::Nil, MergeOp::Del).unwrap();
    assert_eq!(n, 1);
    st.increment_epoch(&s("t1")).unwrap();
    assert_eq!(
        atomic_query_kv(&mut st, &s("t1"), &s("a"), Value::I64(0)),
        Ok(Value::I64(0)),
    );
    assert_eq!(
        atomic_query_kv(&mut st, &s("t1"), &s("b"), Value::I64(0)),
        Ok(Value::I64(2)),
    );
}

#[test]
fn reads_fall_back_to_the_newest_prior_epoch() {
    let mut st = SessionStore::new();
    open(&mut st, "t1");
    atomic_update_kv(&mut st, &s("t1"), &s("k"), Value::I64(4), MergeOp::Mov).unwrap();
    st.increment_epoch(&s("t1")).unwrap();
    // Advance twice more without touching the field: the read at epoch 3
    // falls back to the epoch-1 shard and relocates the value forward.
    st.increment_epoch(&s("t1")).unwrap();
    st.increment_epoch(&s("t1")).unwrap();
    assert_eq!(
        atomic_query_kv(&mut st, &s("t1"), &s("k"), Value::I64(0)),
        Ok(Value::I64(4)),
    );
}
