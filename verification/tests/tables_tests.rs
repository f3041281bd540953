use wart_worker::storage::{ReturnTable, Storage};
use wart_worker::value::{Column, LogLevel, NamedValue, Value};

fn s(x: &str) -> String {
    x.to_string()
}

fn ctx() -> Storage {
    Storage::new(s("space"), 0, s("tok"), 0, LogLevel::Info)
}

fn nv(k: &str, v: Value) -> NamedValue {
    NamedValue { key: s(k), val: v }
}

#[test]
fn data_frame_new_dedups_last_value_wins() {
    let mut st = ctx();
    let default = vec![nv("a", Value::I64(1)), nv("b", Value::I64(2)), nv("a", Value::I64(3))];
    let rt = st.data_frame_new("t", &default).unwrap();
    assert_eq!(st.data_frame_size(&rt), Some(2));
    // An empty row takes the defaults: the column under "a" gets 3.
    st.data_frame_push(&rt, &vec![]).unwrap();
    assert_eq!(st.return_tables[0].cols[0].val, Column::I64(vec![3]));
    assert_eq!(st.return_tables[0].cols[1].val, Column::I64(vec![2]));
}

#[test]
fn push_takes_row_value_else_default() {
    let mut st = ctx();
    let default = vec![nv("x", Value::Txt(s("dflt"))), nv("y", Value::Bol(false))];
    let rt = st.data_frame_new("t", &default).unwrap();
    st.data_frame_push(&rt, &vec![nv("y", Value::Bol(true))]).unwrap();
    assert_eq!(st.return_tables[0].cols[0].val, Column::Txt(vec![s("dflt")]));
    assert_eq!(st.return_tables[0].cols[1].val, Column::Bol(vec![true]));
    // The last occurrence of a key in the row wins.
    st.data_frame_push(&rt, &vec![nv("x", Value::Txt(s("one"))), nv("x", Value::Txt(s("two")))])
        .unwrap();
    assert_eq!(st.return_tables[0].cols[0].val, Column::Txt(vec![s("dflt"), s("two")]));
}

#[test]
fn kind_mismatch_leaves_column_short() {
    let mut st = ctx();
    let default = vec![nv("n", Value::I64(0)), nv("t", Value::Txt(s("")))];
    let rt = st.data_frame_new("t", &default).unwrap();
    // A text value for the numeric column is dropped; the text column
    // still grows, leaving the table uneven, which the codec tolerates.
    st.data_frame_push(&rt, &vec![nv("n", Value::Txt(s("oops"))), nv("t", Value::Txt(s("ok")))])
        .unwrap();
    assert_eq!(st.return_tables[0].cols[0].val, Column::I64(vec![]));
    assert_eq!(st.return_tables[0].cols[1].val, Column::Txt(vec![s("ok")]));
}

#[test]
fn nil_default_makes_an_absent_column() {
    let mut st = ctx();
    let default = vec![nv("gone", Value::Nil), nv("kept", Value::I32(1))];
    let rt = st.data_frame_new("t", &default).unwrap();
    st.data_frame_push(&rt, &vec![]).unwrap();
    assert_eq!(st.return_tables[0].cols[0].val, Column::Nil);
    assert_eq!(st.return_tables[0].cols[1].val, Column::I32(vec![1]));
    // The absent column encodes as absence, not an error.
    let dfs = st.into_tables();
    assert_eq!(dfs[0].headers, vec![s("kept")]);
}

#[test]
fn push_to_unknown_handle_is_none() {
    let mut st = ctx();
    let stale = ReturnTable { index: 9, defaults: vec![] };
    assert_eq!(st.data_frame_push(&stale, &vec![]), None);
    assert_eq!(st.data_frame_size(&stale), None);
}

#[test]
fn size_counts_columns() {
    let mut st = ctx();
    let default = vec![nv("a", Value::I64(0)), nv("b", Value::I64(0)), nv("c", Value::I64(0))];
    let rt = st.data_frame_new("t", &default).unwrap();
    st.data_frame_push(&rt, &vec![]).unwrap();
    st.data_frame_push(&rt, &vec![]).unwrap();
    // The size of a table handle is its column count, as the guest ABI
    // has always reported it.
    assert_eq!(st.data_frame_size(&rt), Some(3));
}

#[test]
fn into_tables_encodes_each_table_in_order() {
    let mut st = ctx();
    let rt1 = st.data_frame_new("first", &vec![nv("a", Value::I64(0))]).unwrap();
    let _rt2 = st.data_frame_new("second", &vec![nv("b", Value::Bol(false))]).unwrap();
    st.data_frame_push(&rt1, &vec![nv("a", Value::I64(42))]).unwrap();
    let dfs = st.into_tables();
    assert_eq!(dfs.len(), 2);
    assert_eq!(dfs[0].comment, s("first"));
    assert_eq!(dfs[0].columns[0].values, Some(Column::I64(vec![42])));
    assert_eq!(dfs[1].comment, s("second"));
}

#[test]
fn logs_append_and_levels_filter() {
    let mut st = ctx();
    assert!(st.log_enabled(LogLevel::Error));
    assert!(st.log_enabled(LogLevel::Info));
    assert!(!st.log_enabled(LogLevel::Debug));
    assert!(!st.log_enabled(LogLevel::Trace));
    st.log(LogLevel::Warn, s("one"));
    st.log(LogLevel::Error, s("two"));
    assert_eq!(st.logs.len(), 2);
    assert_eq!(st.logs[1].message, s("two"));
}

#[test]
fn storage_new_hands_out_a_handle() {
    let st = ctx();
    assert!(st.storage_new().is_some());
}

#[test]
fn value_padding_and_kind_checks() {
    let col = Column::I32(vec![5]);
    assert_eq!(col.get_or_nil(0), Value::I32(5));
    assert_eq!(col.get_or_nil(1), Value::Nil);
    assert_eq!(Column::Nil.first_or_nil(), Value::Nil);
    let mut c = Column::I64(vec![]);
    assert!(c.push_value(&Value::I64(1)));
    assert!(!c.push_value(&Value::I32(2)));
    assert!(!c.push_value(&Value::Nil));
    assert_eq!(c, Column::I64(vec![1]));
}
