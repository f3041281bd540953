use wart_worker::codec::{dump_to_imports_row, dump_to_imports_table, encode_table,
    materialize_rows, DataFrame, WireColumn};
use wart_worker::value::{Column, NamedColumn, NamedValue, Value};

fn s(x: &str) -> String {
    x.to_string()
}

#[test]
fn round_trip_all_six_kinds() {
    let cols = vec![
        NamedColumn { key: s("b"), val: Column::Bol(vec![true, false]) },
        NamedColumn { key: s("i"), val: Column::I32(vec![1, -2]) },
        NamedColumn { key: s("l"), val: Column::I64(vec![3, -4]) },
        NamedColumn { key: s("f"), val: Column::F32(vec![1.5f32.to_bits()]) },
        NamedColumn { key: s("d"), val: Column::F64(vec![2.5f64.to_bits()]) },
        NamedColumn { key: s("t"), val: Column::Txt(vec![s("x"), s("y")]) },
        NamedColumn { key: s("empty"), val: Column::I64(vec![]) },
    ];
    let df = encode_table("label", &cols);
    assert_eq!(df.comment, s("label"));
    assert_eq!(df.headers.len(), 7);
    let back = dump_to_imports_table(&df);
    assert_eq!(back, cols);
}

#[test]
fn absent_column_is_skipped_on_encode() {
    let cols = vec![
        NamedColumn { key: s("gone"), val: Column::Nil },
        NamedColumn { key: s("kept"), val: Column::I32(vec![9]) },
    ];
    let df = encode_table("t", &cols);
    assert_eq!(df.headers, vec![s("kept")]);
    assert_eq!(df.columns.len(), 1);
    assert_eq!(df.columns[0].values, Some(Column::I32(vec![9])));
}

#[test]
fn absent_wire_column_decodes_to_absent() {
    let df = DataFrame {
        headers: vec![s("a"), s("b")],
        columns: vec![
            WireColumn { values: None },
            WireColumn { values: Some(Column::Bol(vec![true])) },
        ],
        comment: s(""),
    };
    let cols = dump_to_imports_table(&df);
    assert_eq!(cols[0].val, Column::Nil);
    assert_eq!(cols[1].val, Column::Bol(vec![true]));
}

#[test]
fn first_row_pads_with_nil() {
    let df = DataFrame {
        headers: vec![s("a"), s("b"), s("c")],
        columns: vec![
            WireColumn { values: Some(Column::I64(vec![7])) },
            WireColumn { values: Some(Column::Txt(vec![])) },
            WireColumn { values: None },
        ],
        comment: s(""),
    };
    let row = dump_to_imports_row(&df);
    assert_eq!(row[0], NamedValue { key: s("a"), val: Value::I64(7) });
    assert_eq!(row[1], NamedValue { key: s("b"), val: Value::Nil });
    assert_eq!(row[2], NamedValue { key: s("c"), val: Value::Nil });
}

#[test]
fn rows_pad_uneven_columns() {
    let df = DataFrame {
        headers: vec![s("x"), s("y")],
        columns: vec![
            WireColumn { values: Some(Column::I32(vec![1, 2])) },
            WireColumn { values: Some(Column::Txt(vec![s("only")])) },
        ],
        comment: s(""),
    };
    let rows = materialize_rows(&df);
    assert_eq!(rows.len(), 2);
    assert_eq!(rows[0][0].val, Value::I32(1));
    assert_eq!(rows[0][1].val, Value::Txt(s("only")));
    assert_eq!(rows[1][0].val, Value::I32(2));
    assert_eq!(rows[1][1].val, Value::Nil);
}

#[test]
fn unmatched_headers_are_ignored() {
    let df = DataFrame {
        headers: vec![s("a"), s("b")],
        columns: vec![WireColumn { values: Some(Column::Bol(vec![false])) }],
        comment: s(""),
    };
    let cols = dump_to_imports_table(&df);
    assert_eq!(cols.len(), 1);
    assert_eq!(cols[0].key, s("a"));
}
