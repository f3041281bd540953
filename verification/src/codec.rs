//! The columnar codec: conversions between the wire table format (named
//! headers beside optional typed columns) and the internal named columns
//! and rows used inside the sandbox.
//!
//! The codec is lossless for the six supported value kinds. A wire column
//! with no recognized values decodes to the absent column and encodes back
//! as absence; it is skipped, never an error. Rows materialized from
//! columns of uneven lengths are padded with the null marker.

use vstd::prelude::*;

use crate::value::{Column, ColumnView, NamedColumn, NamedColumnView, NamedValue, NamedValueView,
    Value, ValueKind, ValueView};

verus! {

/// One wire column: absent, or values of one kind.
#[derive(Clone, Debug, PartialEq)]
pub struct WireColumn {
    pub values: Option<Column>,
}

impl View for WireColumn {
    type V = Option<ColumnView>;

    open spec fn view(&self) -> Option<ColumnView> {
        match self.values {
            Option::None => Option::None,
            Option::Some(c) => Option::Some(c@),
        }
    }
}

/// A wire table: named headers beside columns, plus a free-form label.
#[derive(Clone, Debug, PartialEq)]
pub struct DataFrame {
    pub headers: Vec<String>,
    pub columns: Vec<WireColumn>,
    pub comment: String,
}

/// Mathematical model of a wire table.
pub struct DataFrameView {
    pub headers: Seq<Seq<char>>,
    pub columns: Seq<Option<ColumnView>>,
    pub comment: Seq<char>,
}

impl View for DataFrame {
    type V = DataFrameView;

    open spec fn view(&self) -> DataFrameView {
        DataFrameView {
            headers: Seq::new(self.headers@.len(), |i: int| self.headers@[i]@),
            columns: Seq::new(self.columns@.len(), |i: int| self.columns@[i]@),
            comment: self.comment@,
        }
    }
}

/// The sequence of models of a vector of named columns.
pub open spec fn cols_view(s: Seq<NamedColumn>) -> Seq<NamedColumnView> {
    Seq::new(s.len(), |i: int| s[i]@)
}

/// The sequence of models of a vector of named cells.
pub open spec fn vals_view(s: Seq<NamedValue>) -> Seq<NamedValueView> {
    Seq::new(s.len(), |i: int| s[i]@)
}

/// The column carried by a wire column: absence decodes to the absent
/// column.
pub open spec fn unwire(c: Option<ColumnView>) -> ColumnView {
    match c {
        Option::None => ColumnView { kind: ValueKind::Nil, cells: Seq::empty() },
        Option::Some(cv) => cv,
    }
}

/// How many header/column pairs a wire table yields: headers and columns
/// are paired off and an unmatched tail on either side is ignored.
pub open spec fn spec_pair_count(df: DataFrameView) -> int {
    if df.headers.len() <= df.columns.len() {
        df.headers.len() as int
    } else {
        df.columns.len() as int
    }
}

/// The decoded named columns of a wire table.
pub open spec fn spec_decode_table(df: DataFrameView) -> Seq<NamedColumnView> {
    Seq::new(
        spec_pair_count(df) as nat,
        |i: int| NamedColumnView { key: df.headers[i], val: unwire(df.columns[i]) },
    )
}

/// The decoded first row of a wire table: per pair, the first cell of the
/// column, or the null marker when the column is empty or absent.
pub open spec fn spec_decode_row(df: DataFrameView) -> Seq<NamedValueView> {
    Seq::new(
        spec_pair_count(df) as nat,
        |i: int| NamedValueView { key: df.headers[i], val: unwire(df.columns[i]).cell_or_nil(0) },
    )
}

/// Decodes a wire table into named columns, pairing headers with columns;
/// an absent column decodes to the absent kind rather than failing.
pub fn dump_to_imports_table(df: &DataFrame) -> (r: Vec<NamedColumn>)
    ensures
        cols_view(r@) == spec_decode_table(df@),
{
    let n = if df.headers.len() <= df.columns.len() {
        df.headers.len()
    } else {
        df.columns.len()
    };
    let mut r: Vec<NamedColumn> = Vec::new();
    let mut i: usize = 0;
    while i < n
        invariant
            n == spec_pair_count(df@),
            n <= df.headers.len() && n <= df.columns.len(),
            i <= n,
            r@.len() == i,
            forall|j: int| 0 <= j < i ==> r@[j]@ == spec_decode_table(df@)[j],
        decreases n - i,
    {
        let val = match &df.columns[i].values {
            Option::None => Column::Nil,
            Option::Some(c) => c.duplicate(),
        };
        r.push(NamedColumn { key: df.headers[i].clone(), val });
        i = i + 1;
    }
    proof {
        assert(cols_view(r@) =~= spec_decode_table(df@));
    }
    r
}

/// Decodes a wire table into a single row: the first cell of each column,
/// with the null marker standing in for empty or absent columns.
pub fn dump_to_imports_row(df: &DataFrame) -> (r: Vec<NamedValue>)
    ensures
        vals_view(r@) == spec_decode_row(df@),
{
    let n = if df.headers.len() <= df.columns.len() {
        df.headers.len()
    } else {
        df.columns.len()
    };
    let mut r: Vec<NamedValue> = Vec::new();
    let mut i: usize = 0;
    while i < n
        invariant
            n == spec_pair_count(df@),
            n <= df.headers.len() && n <= df.columns.len(),
            i <= n,
            r@.len() == i,
            forall|j: int| 0 <= j < i ==> r@[j]@ == spec_decode_row(df@)[j],
        decreases n - i,
    {
        let val = match &df.columns[i].values {
            Option::None => Value::Nil,
            Option::Some(c) => c.first_or_nil(),
        };
        r.push(NamedValue { key: df.headers[i].clone(), val });
        i = i + 1;
    }
    proof {
        assert(vals_view(r@) =~= spec_decode_row(df@));
    }
    r
}

/// The headers an internal table encodes to: the keys of its columns, in
/// order, skipping columns of no recognized kind.
pub open spec fn spec_enc_headers(s: Seq<NamedColumnView>) -> Seq<Seq<char>>
    decreases s.len(),
{
    if s.len() == 0 {
        Seq::empty()
    } else {
        let rest = spec_enc_headers(s.drop_last());
        if s.last().val.kind != ValueKind::Nil {
            rest.push(s.last().key)
        } else {
            rest
        }
    }
}

/// The wire columns an internal table encodes to, in step with
/// [`spec_enc_headers`].
pub open spec fn spec_enc_columns(s: Seq<NamedColumnView>) -> Seq<Option<ColumnView>>
    decreases s.len(),
{
    if s.len() == 0 {
        Seq::empty()
    } else {
        let rest = spec_enc_columns(s.drop_last());
        if s.last().val.kind != ValueKind::Nil {
            rest.push(Option::Some(s.last().val))
        } else {
            rest
        }
    }
}

/// Encodes an internal table into a wire table under the given label.
/// Columns of no recognized kind encode as absence and are skipped.
pub fn encode_table(name: &str, cols: &Vec<NamedColumn>) -> (df: DataFrame)
    ensures
        df@.headers == spec_enc_headers(cols_view(cols@)),
        df@.columns == spec_enc_columns(cols_view(cols@)),
        df@.comment == name@,
{
    let mut headers: Vec<String> = Vec::new();
    let mut columns: Vec<WireColumn> = Vec::new();
    let mut i: usize = 0;
    while i < cols.len()
        invariant
            i <= cols.len(),
            Seq::new(headers@.len(), |k: int| headers@[k]@) == spec_enc_headers(
                cols_view(cols@).take(i as int),
            ),
            Seq::new(columns@.len(), |k: int| columns@[k]@) == spec_enc_columns(
                cols_view(cols@).take(i as int),
            ),
        decreases cols.len() - i,
    {
        proof {
            assert(cols_view(cols@).take(i + 1).drop_last() =~= cols_view(cols@).take(i as int));
            assert(cols_view(cols@).take(i + 1).last() == cols@[i as int]@);
        }
        let nc = &cols[i];
        let k = nc.val.kind();
        if !matches!(k, ValueKind::Nil) {
            headers.push(nc.key.clone());
            columns.push(WireColumn { values: Option::Some(nc.val.duplicate()) });
            proof {
                assert(Seq::new(headers@.len(), |k: int| headers@[k]@) =~= spec_enc_headers(
                    cols_view(cols@).take(i + 1),
                ));
                assert(Seq::new(columns@.len(), |k: int| columns@[k]@) =~= spec_enc_columns(
                    cols_view(cols@).take(i + 1),
                ));
            }
        } else {
            proof {
                assert(Seq::new(headers@.len(), |k: int| headers@[k]@) =~= spec_enc_headers(
                    cols_view(cols@).take(i + 1),
                ));
                assert(Seq::new(columns@.len(), |k: int| columns@[k]@) =~= spec_enc_columns(
                    cols_view(cols@).take(i + 1),
                ));
            }
        }
        i = i + 1;
    }
    proof {
        assert(cols_view(cols@).take(cols@.len() as int) =~= cols_view(cols@));
    }
    let comment = String::from_str(name);
    DataFrame { headers, columns, comment }
}

/// How many rows a wire table materializes to: the length of its longest
/// column.
pub open spec fn spec_row_count(df: DataFrameView) -> int
    decreases df.columns.len(),
{
    if df.columns.len() == 0 {
        0
    } else {
        let rest = spec_row_count(
            (DataFrameView {
                columns: df.columns.drop_last(),
                ..df
            }),
        );
        let last = unwire(df.columns.last()).cells.len() as int;
        if last > rest {
            last
        } else {
            rest
        }
    }
}

/// Materializes the rows of a wire table. Every row pairs off headers and
/// columns as in [`dump_to_imports_table`]; a column shorter than the
/// longest one is padded with the null marker, never an error.
pub fn materialize_rows(df: &DataFrame) -> (rows: Vec<Vec<NamedValue>>)
    ensures
        rows@.len() == spec_row_count(df@),
        forall|i: int| #![trigger rows@[i]]
            0 <= i < rows@.len() ==> vals_view(rows@[i]@) == Seq::new(
                spec_pair_count(df@) as nat,
                |j: int| NamedValueView {
                    key: df@.headers[j],
                    val: unwire(df@.columns[j]).cell_or_nil(i),
                },
            ),
{
    let ncols = if df.headers.len() <= df.columns.len() {
        df.headers.len()
    } else {
        df.columns.len()
    };
    let mut nrows: usize = 0;
    let mut i: usize = 0;
    while i < df.columns.len()
        invariant
            i <= df.columns.len(),
            nrows == spec_row_count(
                (DataFrameView {
                    columns: df@.columns.take(i as int),
                    ..df@
                }),
            ),
        decreases df.columns.len() - i,
    {
        proof {
            assert(df@.columns.take(i + 1).drop_last() =~= df@.columns.take(i as int));
        }
        let len = match &df.columns[i].values {
            Option::None => 0,
            Option::Some(c) => c.len(),
        };
        if len > nrows {
            nrows = len;
        }
        i = i + 1;
    }
    proof {
        assert(df@.columns.take(df@.columns.len() as int) =~= df@.columns);
    }
    let mut rows: Vec<Vec<NamedValue>> = Vec::new();
    let mut r: usize = 0;
    while r < nrows
        invariant
            ncols == spec_pair_count(df@),
            ncols <= df.headers.len() && ncols <= df.columns.len(),
            r <= nrows,
            rows@.len() == r,
            forall|i: int| #![trigger rows@[i]]
                0 <= i < r ==> vals_view(rows@[i]@) == Seq::new(
                    spec_pair_count(df@) as nat,
                    |j: int| NamedValueView {
                        key: df@.headers[j],
                        val: unwire(df@.columns[j]).cell_or_nil(i),
                    },
                ),
        decreases nrows - r,
    {
        let mut row: Vec<NamedValue> = Vec::new();
        let mut c: usize = 0;
        while c < ncols
            invariant
                ncols <= df.headers.len() && ncols <= df.columns.len(),
                c <= ncols,
                row@.len() == c,
                forall|j: int| 0 <= j < c ==> row@[j]@ == (NamedValueView {
                    key: df@.headers[j],
                    val: unwire(df@.columns[j]).cell_or_nil(r as int),
                }),
            decreases ncols - c,
        {
            let val = match &df.columns[c].values {
                Option::None => Value::Nil,
                Option::Some(col) => col.get_or_nil(r),
            };
            row.push(NamedValue { key: df.headers[c].clone(), val });
            c = c + 1;
        }
        proof {
            assert(vals_view(row@) =~= Seq::new(
                spec_pair_count(df@) as nat,
                |j: int| NamedValueView {
                    key: df@.headers[j],
                    val: unwire(df@.columns[j]).cell_or_nil(r as int),
                },
            ));
        }
        rows.push(row);
        r = r + 1;
    }
    rows
}

/// The codec is lossless: encoding an internal table whose columns all
/// have a recognized value kind and decoding the result reproduces the
/// keys and cell values exactly, an all-empty column included.
pub proof fn lemma_codec_round_trip(name: Seq<char>, cols: Seq<NamedColumnView>)
    requires
        forall|i: int| 0 <= i < cols.len() ==> #[trigger] cols[i].val.kind != ValueKind::Nil,
    ensures
        spec_decode_table(
            (DataFrameView {
                headers: spec_enc_headers(cols),
                columns: spec_enc_columns(cols),
                comment: name,
            }),
        ) == cols,
    decreases cols.len(),
{
    lemma_enc_full(cols);
    let df = DataFrameView {
        headers: spec_enc_headers(cols),
        columns: spec_enc_columns(cols),
        comment: name,
    };
    assert(spec_decode_table(df) =~= cols);
}

/// For a table with no absent columns, encoding keeps every key and every
/// column, in order.
proof fn lemma_enc_full(cols: Seq<NamedColumnView>)
    requires
        forall|i: int| 0 <= i < cols.len() ==> #[trigger] cols[i].val.kind != ValueKind::Nil,
    ensures
        spec_enc_headers(cols).len() == cols.len(),
        spec_enc_columns(cols).len() == cols.len(),
        forall|i: int| 0 <= i < cols.len() ==> #[trigger] spec_enc_headers(cols)[i] == cols[i].key,
        forall|i: int|
            0 <= i < cols.len() ==> #[trigger] spec_enc_columns(cols)[i] == Option::Some(
                cols[i].val,
            ),
    decreases cols.len(),
{
    if cols.len() > 0 {
        lemma_enc_full(cols.drop_last());
    }
}

} // verus!
