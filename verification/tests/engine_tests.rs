use wart_worker::bridge::{build_choice_nodes, build_fetch_neighbors, build_fetch_node,
    shape_choice_nodes, shape_neighbors, NodeId};
use wart_worker::codec::{DataFrame, WireColumn};
use wart_worker::engine::{build_run_response, close_session_keys, elapsed_millis, open_session,
    StorageManager};
use wart_worker::session::SessionStore;
use wart_worker::storage::Storage;
use wart_worker::value::{Column, LogLevel, NamedValue, Value};
use wart_worker::WorkerError;

fn s(x: &str) -> String {
    x.to_string()
}

// The smallest valid guest module: the magic header of an empty module.
const EMPTY_MODULE: [u8; 8] = [0x00, 0x61, 0x73, 0x6d, 0x01, 0x00, 0x00, 0x00];

#[test]
fn open_session_compiles_and_mints_a_token() {
    let mut store = SessionStore::new();
    let program: Vec<u8> = EMPTY_MODULE.to_vec();
    let token = open_session(&mut store, &program, "space", 2000, 4).unwrap();
    assert_eq!(token.len(), 36);
    let (manager, module) = StorageManager::new(&store, &token).unwrap();
    assert_eq!(manager.space_name, s("space"));
    assert_eq!(manager.ttl, 2000);
    assert_eq!(manager.par, 4);
    assert_eq!(manager.epoch, 0);
    assert_eq!(manager.token, token);
    assert!(!module.is_empty());
    let ctx = manager.get_sandbox_context();
    assert_eq!(ctx.space_name, s("space"));
    assert_eq!(ctx.epoch, 0);
    assert_eq!(ctx.counter, 0);
    assert!(ctx.return_tables.is_empty());
}

#[test]
fn malformed_program_is_a_compile_error() {
    let mut store = SessionStore::new();
    let garbage: Vec<u8> = vec![0xde, 0xad, 0xbe, 0xef];
    assert_eq!(
        open_session(&mut store, &garbage, "space", 1000, 1),
        Err(WorkerError::CompileError),
    );
    assert!(store.sessions.is_empty());
}

#[test]
fn two_sessions_get_distinct_tokens() {
    let mut store = SessionStore::new();
    let program: Vec<u8> = EMPTY_MODULE.to_vec();
    let t1 = open_session(&mut store, &program, "a", 1, 1).unwrap();
    let t2 = open_session(&mut store, &program, "b", 1, 1).unwrap();
    assert_ne!(t1, t2);
}

#[test]
fn close_session_keys_cover_the_whole_epoch_range() {
    let mut store = SessionStore::new();
    let program: Vec<u8> = EMPTY_MODULE.to_vec();
    let token = open_session(&mut store, &program, "space", 1, 1).unwrap();
    store.increment_epoch(&token).unwrap();
    let keys = close_session_keys(&store, &token).unwrap();
    // Epoch 1: shards 0, 1 and the pending shard 2, then the record.
    assert_eq!(keys.len(), 4);
    assert_eq!(keys[0], format!("wart:store:{}:0", token));
    assert_eq!(keys[1], format!("wart:store:{}:1", token));
    assert_eq!(keys[2], format!("wart:store:{}:2", token));
    assert_eq!(keys[3], format!("wart:session:{}", token));
}

#[test]
fn elapsed_clamps_at_both_ends() {
    assert_eq!(elapsed_millis(10, 50), 40);
    assert_eq!(elapsed_millis(50, 10), -40);
    assert_eq!(elapsed_millis(i64::MIN, i64::MAX), i64::MAX);
    assert_eq!(elapsed_millis(i64::MAX, i64::MIN), i64::MIN);
}

#[test]
fn run_response_carries_tables_logs_and_error() {
    let mut ctx = Storage::new(s("sp"), 0, s("tok"), 0, LogLevel::Info);
    let rt = ctx
        .data_frame_new("out", &vec![NamedValue { key: s("n"), val: Value::I64(0) }])
        .unwrap();
    ctx.data_frame_push(&rt, &vec![NamedValue { key: s("n"), val: Value::I64(7) }]).unwrap();
    ctx.log(LogLevel::Info, s("hello"));
    let resp = build_run_response(ctx, 42, None);
    assert_eq!(resp.time_used, 42);
    assert_eq!(resp.last_err, s(""));
    assert_eq!(resp.logs.len(), 1);
    assert_eq!(resp.tables.len(), 1);
    assert_eq!(resp.tables[0].comment, s("out"));
    assert_eq!(resp.tables[0].columns[0].values, Some(Column::I64(vec![7])));

    let ctx2 = Storage::new(s("sp"), 0, s("tok"), 0, LogLevel::Info);
    let resp2 = build_run_response(ctx2, 0, Some(WorkerError::Trap));
    assert_eq!(resp2.last_err, s("trap"));
    assert_eq!(WorkerError::ProtocolError.message(), s("protocol error"));
    assert_eq!(WorkerError::BackendError.message(), s("backend error"));
    assert_eq!(WorkerError::CompileError.message(), s("compile error"));
    assert_eq!(WorkerError::InstantiateError.message(), s("instantiate error"));
    assert_eq!(WorkerError::HostImportError.message(), s("host import error"));
}

#[test]
fn node_requests_accept_integer_and_text_identifiers_only() {
    let q = build_fetch_node("sp", &Value::I64(7), "tag", vec![s("k")]).unwrap();
    assert_eq!(q.node_id, NodeId::AsInt(7));
    let q = build_fetch_node("sp", &Value::Txt(s("n1")), "tag", vec![]).unwrap();
    assert_eq!(q.node_id, NodeId::AsStr(s("n1")));
    assert_eq!(
        build_fetch_node("sp", &Value::Bol(true), "tag", vec![]),
        Err(WorkerError::HostImportError),
    );
    let q = build_fetch_neighbors("sp", &Value::I64(7), "tag", vec![], true).unwrap();
    assert!(q.reversely);
    assert_eq!(
        build_fetch_neighbors("sp", &Value::F64(0), "tag", vec![], false),
        Err(WorkerError::HostImportError),
    );
}

#[test]
fn choice_nodes_request_carries_its_fields() {
    let q = build_choice_nodes("sp", "person", 16);
    assert_eq!(q.space_name, s("sp"));
    assert_eq!(q.tag, s("person"));
    assert_eq!(q.number, 16);
}

#[test]
fn choice_nodes_answer_takes_the_first_column() {
    let df = DataFrame {
        headers: vec![s("ids"), s("extra")],
        columns: vec![
            WireColumn { values: Some(Column::I64(vec![1, 2, 3])) },
            WireColumn { values: Some(Column::Bol(vec![true])) },
        ],
        comment: s(""),
    };
    assert_eq!(shape_choice_nodes(&df), Ok(Column::I64(vec![1, 2, 3])));
    let empty = DataFrame { headers: vec![], columns: vec![], comment: s("") };
    assert_eq!(shape_choice_nodes(&empty), Err(WorkerError::HostImportError));
}

#[test]
fn neighbors_answer_splits_targets_from_attributes() {
    let df = DataFrame {
        headers: vec![s("dst"), s("age"), s("name")],
        columns: vec![
            WireColumn { values: Some(Column::I64(vec![10, 20])) },
            WireColumn { values: Some(Column::I32(vec![31, 32])) },
            WireColumn { values: Some(Column::Txt(vec![s("a"), s("b")])) },
        ],
        comment: s(""),
    };
    let (dst, attrs) = shape_neighbors(&df).unwrap();
    assert_eq!(dst, Column::I64(vec![10, 20]));
    assert_eq!(attrs.len(), 2);
    assert_eq!(attrs[0].key, s("age"));
    assert_eq!(attrs[1].val, Column::Txt(vec![s("a"), s("b")]));
    let empty = DataFrame { headers: vec![], columns: vec![], comment: s("") };
    assert_eq!(shape_neighbors(&empty), Err(WorkerError::HostImportError));
}
